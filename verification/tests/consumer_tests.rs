use std::collections::HashSet;

use bie::codec::{encode, BieProtocol};
use bie::consumer::{
    create_websocket_url, read_token, run_download, upload_url, websocket_scheme, DownloadError,
    Downloader, FirstMessage, FrameOutcome,
};
use bie::token::{generate_secure_random_string, token_string_from_bytes};

#[test]
fn tokens_are_alphanumeric_and_unique() {
    let mut seen = HashSet::new();
    for _ in 0..10_000 {
        let t = generate_secure_random_string(32).expect("entropy source available");
        assert_eq!(t.len(), 32);
        assert!(t.chars().all(|c| c.is_ascii_alphanumeric()));
        assert!(seen.insert(t), "token was generated twice");
    }
}

#[test]
fn token_length_is_respected() {
    assert_eq!(generate_secure_random_string(0).unwrap().len(), 0);
    assert_eq!(generate_secure_random_string(1).unwrap().len(), 1);
    assert_eq!(generate_secure_random_string(64).unwrap().len(), 64);
}

#[test]
fn token_characters_follow_the_entropy_bytes() {
    // 0..=9 -> digits, 10..=35 -> lowercase, 36..=61 -> uppercase,
    // and the map wraps modulo 62.
    let bytes = vec![0, 9, 10, 35, 36, 61, 62, 63, 255];
    assert_eq!(token_string_from_bytes(&bytes), "09azAZ017");
}

#[test]
fn read_token_accepts_only_text() {
    assert_eq!(read_token(FirstMessage::Text("tok".to_string())), Ok("tok".to_string()));
    assert_eq!(read_token(FirstMessage::Other), Err(DownloadError::ProtocolViolation));
}

#[test]
fn downloader_appends_chunks_until_end_marker() {
    let mut down = Downloader::new();
    let r = down.on_frame(&encode(&BieProtocol::FileChunk(vec![1, 2])));
    assert_eq!(r, Ok(FrameOutcome::Continue));
    let r = down.on_frame(&encode(&BieProtocol::FileChunk(vec![3])));
    assert_eq!(r, Ok(FrameOutcome::Continue));
    let r = down.on_frame(&encode(&BieProtocol::EndOfFile));
    assert_eq!(r, Ok(FrameOutcome::Finished));
    assert_eq!(down.into_bytes(), vec![1, 2, 3]);
}

#[test]
fn downloader_rejects_unexpected_messages() {
    let mut down = Downloader::new();
    let r = down.on_frame(&encode(&BieProtocol::Token("t".to_string())));
    assert_eq!(r, Err(DownloadError::ProtocolViolation));
    let r = down.on_frame(&encode(&BieProtocol::Close));
    assert_eq!(r, Err(DownloadError::ProtocolViolation));
    let r = down.on_frame(&vec![99, 1, 2]);
    assert_eq!(r, Err(DownloadError::MalformedFrame));
    assert_eq!(down.into_bytes(), Vec::<u8>::new());
}

#[test]
fn run_download_round_trips_chunks() {
    let frames = vec![
        encode(&BieProtocol::FileChunk(b"hello ".to_vec())),
        encode(&BieProtocol::FileChunk(b"world".to_vec())),
        encode(&BieProtocol::EndOfFile),
    ];
    assert_eq!(run_download(&frames), Ok(b"hello world".to_vec()));
}

#[test]
fn run_download_without_end_marker_is_premature() {
    let frames = vec![encode(&BieProtocol::FileChunk(vec![1]))];
    assert_eq!(run_download(&frames), Err(DownloadError::PrematureTermination));
    assert_eq!(run_download(&Vec::new()), Err(DownloadError::PrematureTermination));
}

#[test]
fn websocket_scheme_maps_http_and_https_only() {
    assert_eq!(websocket_scheme(&"http".to_string()), Some("ws"));
    assert_eq!(websocket_scheme(&"https".to_string()), Some("wss"));
    assert_eq!(websocket_scheme(&"ftp".to_string()), None);
    assert_eq!(websocket_scheme(&"".to_string()), None);
}

#[test]
fn websocket_url_is_derived_from_the_server_url() {
    assert_eq!(
        create_websocket_url("http://localhost:8080"),
        Some("ws://localhost:8080/wait_file".to_string())
    );
    assert_eq!(
        create_websocket_url("https://relay.example.com/base"),
        Some("wss://relay.example.com/wait_file".to_string())
    );
    assert_eq!(create_websocket_url("ftp://example.com"), None);
    assert_eq!(create_websocket_url("not a url"), None);
}

#[test]
fn upload_url_is_base_path_token() {
    assert_eq!(
        upload_url("http://localhost:8080", "abc123"),
        "http://localhost:8080/upload/abc123"
    );
}

#[test]
fn settings_defaults() {
    assert_eq!(bie::server_settings::default_port(), 3000);
    assert_eq!(bie::server_settings::default_max_file_size(), 10 * 1024 * 1024);
    let s = bie::server_settings::Settings::default();
    assert_eq!(s.port, 3000);
    assert_eq!(s.max_file_size, 10 * 1024 * 1024);
    let c = bie::client_settings::Settings::default();
    assert_eq!(c.bastion_server_url, "http://localhost:8080");
}
