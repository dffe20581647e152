use bie::codec::{encode, BieProtocol};
use bie::consumer::run_download;
use bie::relay::Relay;
use bie::session::{forwarder_step, watcher_reaction, InboundEvent, WireCommand};
use bie::upload::{ChunkOutcome, UploadOutcome};

/// Drive a freshly accepted session to `Active` and hand its index back.
fn activate(relay: &mut Relay, token: &str) -> usize {
    let i = relay.accept(token.to_string()).expect("token must be fresh");
    relay.token_written(i);
    relay.register(i);
    i
}

/// Drain the forwarder of session `i` completely, collecting the binary
/// frames it writes to the connection.
fn drain_frames(relay: &mut Relay, i: usize) -> (Vec<Vec<u8>>, bool) {
    let mut frames = Vec::new();
    let mut finished = false;
    while let Some((cmds, fin)) = relay.next_outbound(i) {
        for cmd in cmds {
            if let WireCommand::SendBinary(b) = cmd {
                frames.push(b);
            }
        }
        if fin {
            finished = true;
            break;
        }
    }
    (frames, finished)
}

#[test]
fn upload_against_unknown_token_is_not_found() {
    let mut relay = Relay::new();
    let chunks = vec![vec![1u8, 2, 3]];
    let r = relay.upload(&"neverissued".to_string(), &chunks, 1024);
    assert_eq!(r, UploadOutcome::NotFound);
    assert_eq!(relay.connection_count(), 0);
}

#[test]
fn upload_not_found_leaves_other_sessions_alone() {
    let mut relay = Relay::new();
    activate(&mut relay, "tokenA");
    assert_eq!(relay.connection_count(), 1);
    let r = relay.upload(&"tokenB".to_string(), &vec![vec![9u8]], 1024);
    assert_eq!(r, UploadOutcome::NotFound);
    assert_eq!(relay.connection_count(), 1);
    // The registered session saw nothing: its channel is still empty.
    let i = 0;
    assert!(relay.next_outbound(i).is_none());
}

#[test]
fn upload_too_large_is_rejected() {
    let mut relay = Relay::new();
    let i = activate(&mut relay, "tokenA");
    let chunks = vec![vec![0u8; 100], vec![0u8; 100], vec![0u8; 101]];
    let r = relay.upload(&"tokenA".to_string(), &chunks, 300);
    assert_eq!(r, UploadOutcome::TooLarge);
    // No end marker was pushed: draining the session never finishes
    // on its own, and the frames carry only the prefix that fit.
    let (frames, finished) = drain_frames(&mut relay, i);
    assert!(!finished);
    assert_eq!(frames.len(), 2);
}

#[test]
fn upload_exactly_at_limit_is_accepted() {
    let mut relay = Relay::new();
    activate(&mut relay, "tokenA");
    let chunks = vec![vec![7u8; 150], vec![8u8; 150]];
    let r = relay.upload(&"tokenA".to_string(), &chunks, 300);
    assert_eq!(r, UploadOutcome::Accepted);
}

#[test]
fn upload_after_drain_sees_internal_error() {
    let mut relay = Relay::new();
    let i = activate(&mut relay, "tokenA");
    let r = relay.upload(&"tokenA".to_string(), &vec![vec![1u8]], 1024);
    assert_eq!(r, UploadOutcome::Accepted);
    let (_frames, finished) = drain_frames(&mut relay, i);
    assert!(finished);
    // The session drains: its channel refuses pushes, so a concurrent
    // upload observes an internal error instead of blocking.
    let r = relay.upload(&"tokenA".to_string(), &vec![vec![2u8]], 1024);
    assert_eq!(r, UploadOutcome::InternalError);
    // After teardown the token no longer resolves at all.
    relay.teardown(i);
    let r = relay.upload(&"tokenA".to_string(), &vec![vec![3u8]], 1024);
    assert_eq!(r, UploadOutcome::NotFound);
}

#[test]
fn watcher_close_stops_forwarder_and_upload_fails() {
    let mut relay = Relay::new();
    let i = activate(&mut relay, "tokenA");
    let close = watcher_reaction(&InboundEvent::CloseNotification);
    assert_eq!(close, BieProtocol::Close);
    assert!(relay.signal_close(&"tokenA".to_string()));
    let (frames, finished) = drain_frames(&mut relay, i);
    assert!(finished);
    assert!(frames.is_empty());
    // Mid-flight uploads now observe the closed channel.
    let r = relay.upload(&"tokenA".to_string(), &vec![vec![1u8]], 1024);
    assert_eq!(r, UploadOutcome::InternalError);
    assert!(!relay.signal_close(&"tokenA".to_string()));
}

#[test]
fn end_to_end_three_chunks_300_bytes() {
    let mut relay = Relay::new();
    let token = bie::token::generate_secure_random_string(32).expect("entropy source available");
    let i = activate(&mut relay, &token);
    let chunks = vec![vec![1u8; 100], vec![2u8; 100], vec![3u8; 100]];
    let r = relay.upload(&token.to_string(), &chunks, 10 * 1024 * 1024);
    assert_eq!(r, UploadOutcome::Accepted);
    let (frames, finished) = drain_frames(&mut relay, i);
    assert!(finished);
    let bytes = run_download(&frames).expect("download must complete");
    assert_eq!(bytes.len(), 300);
    let mut expected = Vec::new();
    expected.extend_from_slice(&[1u8; 100]);
    expected.extend_from_slice(&[2u8; 100]);
    expected.extend_from_slice(&[3u8; 100]);
    assert_eq!(bytes, expected);
    relay.teardown(i);
    assert_eq!(relay.connection_count(), 0);
}

#[test]
fn sequential_sessions_reuse_no_token() {
    let mut relay = Relay::new();
    let t1 = bie::token::generate_secure_random_string(32).expect("entropy source available");
    let i1 = activate(&mut relay, &t1);
    let r = relay.upload(&t1.to_string(), &vec![vec![5u8; 10]], 1024);
    assert_eq!(r, UploadOutcome::Accepted);
    let (frames1, fin1) = drain_frames(&mut relay, i1);
    assert!(fin1);
    relay.teardown(i1);
    // Session 1 is closed: its token misses.
    assert_eq!(
        relay.upload(&t1.to_string(), &vec![vec![0u8]], 1024),
        UploadOutcome::NotFound
    );
    // A second session never reuses the token.
    let t2 = bie::token::generate_secure_random_string(32).expect("entropy source available");
    assert_ne!(t1, t2);
    let i2 = activate(&mut relay, &t2);
    let r = relay.upload(&t2.to_string(), &vec![vec![9u8; 3]], 1024);
    assert_eq!(r, UploadOutcome::Accepted);
    let (frames2, fin2) = drain_frames(&mut relay, i2);
    assert!(fin2);
    // Nothing of session 1 leaked into session 2.
    let bytes2 = run_download(&frames2).expect("download must complete");
    assert_eq!(bytes2, vec![9u8; 3]);
    let bytes1 = run_download(&frames1).expect("download must complete");
    assert_eq!(bytes1, vec![5u8; 10]);
}

#[test]
fn streamed_upload_round_trips() {
    let mut relay = Relay::new();
    let i = activate(&mut relay, "tokenA");
    let token = "tokenA".to_string();
    assert!(relay.is_registered(&token));
    let mut sent: u64 = 0;
    for piece in [vec![1u8; 4], vec![2u8; 4]] {
        assert_eq!(relay.push_chunk(&token, &piece, &mut sent, 100), ChunkOutcome::Pushed);
    }
    assert_eq!(sent, 8);
    assert!(relay.finish_upload(&token));
    let (frames, finished) = drain_frames(&mut relay, i);
    assert!(finished);
    let bytes = run_download(&frames).expect("download must complete");
    assert_eq!(bytes, [vec![1u8; 4], vec![2u8; 4]].concat());
}

#[test]
fn streamed_upload_stops_at_the_ceiling() {
    let mut relay = Relay::new();
    let i = activate(&mut relay, "tokenA");
    let token = "tokenA".to_string();
    let mut sent: u64 = 0;
    assert_eq!(relay.push_chunk(&token, &vec![0u8; 60], &mut sent, 100), ChunkOutcome::Pushed);
    assert_eq!(relay.push_chunk(&token, &vec![0u8; 41], &mut sent, 100), ChunkOutcome::TooLarge);
    assert_eq!(sent, 60);
    // The session survives; only this request is refused.
    assert!(relay.is_registered(&token));
    relay.teardown(i);
    assert!(!relay.is_registered(&token));
}

#[test]
fn streamed_upload_sees_the_session_go() {
    let mut relay = Relay::new();
    let i = activate(&mut relay, "tokenA");
    let token = "tokenA".to_string();
    relay.teardown(i);
    let mut sent: u64 = 0;
    assert!(!relay.is_registered(&token));
    assert_eq!(
        relay.push_chunk(&token, &vec![1u8], &mut sent, 100),
        ChunkOutcome::SessionGone
    );
    assert!(!relay.finish_upload(&token));
}

#[test]
fn signal_close_misses_an_unknown_token() {
    let mut relay = Relay::new();
    assert!(!relay.signal_close(&"neverissued".to_string()));
}

#[test]
fn accept_refuses_a_duplicate_token() {
    let mut relay = Relay::new();
    assert!(relay.accept("sametoken".to_string()).is_some());
    assert!(relay.accept("sametoken".to_string()).is_none());
}

#[test]
fn health_counts_registered_sessions() {
    let mut relay = Relay::new();
    assert_eq!(relay.connection_count(), 0);
    let i1 = activate(&mut relay, "tokenA");
    assert_eq!(relay.connection_count(), 1);
    let i2 = activate(&mut relay, "tokenB");
    assert_eq!(relay.connection_count(), 2);
    relay.teardown(i1);
    assert_eq!(relay.connection_count(), 1);
    relay.teardown(i2);
    assert_eq!(relay.connection_count(), 0);
}

#[test]
fn forwarder_step_commands_per_variant() {
    let chunk = BieProtocol::FileChunk(vec![1, 2]);
    let (cmds, fin) = forwarder_step(&chunk);
    assert_eq!(cmds, vec![WireCommand::SendBinary(encode(&chunk))]);
    assert!(!fin);

    let (cmds, fin) = forwarder_step(&BieProtocol::EndOfFile);
    assert_eq!(
        cmds,
        vec![
            WireCommand::SendBinary(encode(&BieProtocol::EndOfFile)),
            WireCommand::SendCloseFrame,
            WireCommand::CloseConnection,
        ]
    );
    assert!(fin);

    let (cmds, fin) = forwarder_step(&BieProtocol::Ping);
    assert_eq!(cmds, vec![WireCommand::SendPing]);
    assert!(!fin);

    let (cmds, fin) = forwarder_step(&BieProtocol::Pong);
    assert!(cmds.is_empty());
    assert!(!fin);

    let (cmds, fin) = forwarder_step(&BieProtocol::Close);
    assert_eq!(cmds, vec![WireCommand::CloseConnection]);
    assert!(fin);
}
