//! The relay session state machine and the per-message decisions of its
//! two drivers.
//!
//! A session owns one persistent connection. Its outbound forwarder
//! drains the session channel, encodes each message and writes it to the
//! connection; its inbound watcher reads the connection, where the only
//! expected traffic is a close notification. Both drivers' decisions are
//! pure functions here; the transport loops around them live outside the
//! library.

use vstd::prelude::*;

verus! {

use crate::codec::{BieProtocol, FrameModel, encode, encoding_of};

/// The lifecycle of one relay session.
#[derive(Clone, Copy, PartialEq, Eq, Structural, Debug)]
pub enum SessionState {
    /// Connection accepted, no token issued yet.
    Opening,
    /// The token went out as the first message; not yet registered.
    TokenSent,
    /// Registered: uploads against the token reach this session.
    Active,
    /// Terminal traffic flushed; the connection is being shut down.
    Draining,
    /// Torn down; the token no longer resolves.
    Closed,
}

/// One write the forwarder asks the transport to perform.
#[derive(Debug, Clone, PartialEq, Eq)]
pub enum WireCommand {
    /// Write a binary frame.
    SendBinary(Vec<u8>),
    /// Write a keep-alive probe.
    SendPing,
    /// Write a close frame.
    SendCloseFrame,
    /// Shut the write half of the connection down.
    CloseConnection,
}

/// The mathematical model of a forwarder command.
#[verifier::ext_equal]
pub enum CommandModel {
    SendBinary(Seq<u8>),
    SendPing,
    SendCloseFrame,
    CloseConnection,
}

impl View for WireCommand {
    type V = CommandModel;

    open spec fn view(&self) -> CommandModel {
        match self {
            WireCommand::SendBinary(b) => CommandModel::SendBinary(b@),
            WireCommand::SendPing => CommandModel::SendPing,
            WireCommand::SendCloseFrame => CommandModel::SendCloseFrame,
            WireCommand::CloseConnection => CommandModel::CloseConnection,
        }
    }
}

/// What the forwarder writes for one channel message: data-bearing
/// messages go out as binary frames in arrival order; `EndOfFile` is
/// followed by the close handshake; `Close` shuts the connection without
/// a final frame; `Ping` is answered on the transport; `Pong` is silent.
pub open spec fn forwarder_commands(f: FrameModel) -> Seq<CommandModel> {
    match f {
        FrameModel::Token(_) => seq![CommandModel::SendBinary(encoding_of(f))],
        FrameModel::FileChunk(_) => seq![CommandModel::SendBinary(encoding_of(f))],
        FrameModel::EndOfFile => seq![
            CommandModel::SendBinary(encoding_of(f)),
            CommandModel::SendCloseFrame,
            CommandModel::CloseConnection,
        ],
        FrameModel::Ping => seq![CommandModel::SendPing],
        FrameModel::Pong => Seq::<CommandModel>::empty(),
        FrameModel::Close => seq![CommandModel::CloseConnection],
    }
}

/// Whether one channel message ends the forwarder: only the terminal
/// `EndOfFile` and `Close` do.
pub open spec fn forwarder_finishes(f: FrameModel) -> bool {
    f is EndOfFile || f is Close
}

/// Decide what the forwarder does with one message drained from the
/// session channel: the writes to perform, and whether the session now
/// drains.
pub fn forwarder_step(m: &BieProtocol) -> (r: (Vec<WireCommand>, bool))
    ensures
        r.0@.map(|i: int, c: WireCommand| c@) == forwarder_commands(m@),
        r.1 == forwarder_finishes(m@),
{
    let ghost model = m@;
    let mut cmds: Vec<WireCommand> = Vec::new();
    let finished: bool;
    match m {
        BieProtocol::Token(_) => {
            cmds.push(WireCommand::SendBinary(encode(m)));
            finished = false;
        },
        BieProtocol::FileChunk(_) => {
            cmds.push(WireCommand::SendBinary(encode(m)));
            finished = false;
        },
        BieProtocol::EndOfFile => {
            cmds.push(WireCommand::SendBinary(encode(m)));
            cmds.push(WireCommand::SendCloseFrame);
            cmds.push(WireCommand::CloseConnection);
            finished = true;
        },
        BieProtocol::Ping => {
            cmds.push(WireCommand::SendPing);
            finished = false;
        },
        BieProtocol::Pong => {
            finished = false;
        },
        BieProtocol::Close => {
            cmds.push(WireCommand::CloseConnection);
            finished = true;
        },
    }
    proof {
        assert(cmds@.map(|i: int, c: WireCommand| c@) =~= forwarder_commands(model));
    }
    (cmds, finished)
}

/// What arrived on the inbound half of the persistent connection.
#[derive(Clone, Copy, PartialEq, Eq, Structural, Debug)]
pub enum InboundEvent {
    /// The remote end announced it is closing.
    CloseNotification,
    /// A payload message; the consumer never legitimately sends one.
    UnexpectedMessage,
    /// The read itself failed.
    ReadError,
}

/// The watcher's reaction to any inbound event: signal the forwarder to
/// shut the session down by a synthetic `Close`, then stop.
pub fn watcher_reaction(ev: &InboundEvent) -> (r: BieProtocol)
    ensures
        r@ == FrameModel::Close,
{
    match ev {
        InboundEvent::CloseNotification => BieProtocol::Close,
        InboundEvent::UnexpectedMessage => BieProtocol::Close,
        InboundEvent::ReadError => BieProtocol::Close,
    }
}

} // verus!
