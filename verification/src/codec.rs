//! The wire codec: the messages exchanged over the persistent connection
//! and their self-describing binary framing.
//!
//! A frame is one tag byte followed by the payload. `Token` carries the
//! UTF-8 bytes of the token string, `FileChunk` carries the raw chunk
//! bytes, and the remaining variants carry no payload at all. Decoding an
//! unknown tag, a payload where none is allowed, or a `Token` payload that
//! is not valid UTF-8 fails with [`DecodeError::MalformedFrame`]; the
//! caller must treat that as fatal to the session.

use vstd::prelude::*;

verus! {

use vstd::utf8::{valid_utf8, decode_utf8, encode_utf8};
use vstd::string::StrSliceExecFns;
use vstd::pervasive::unreached;

/// One message of the wire protocol.
#[derive(Debug, Clone, PartialEq, Eq)]
pub enum BieProtocol {
    /// The session token, the first message of every session.
    Token(String),
    /// One chunk of the file being relayed, forwarded verbatim.
    FileChunk(Vec<u8>),
    /// The last data-bearing message of a transfer.
    EndOfFile,
    /// A keep-alive probe.
    Ping,
    /// The answer to a keep-alive probe.
    Pong,
    /// A request to tear the session down.
    Close,
}

/// The mathematical model of a wire message: the same six variants over
/// `Seq` instead of the executable `String` and `Vec`.
#[verifier::ext_equal]
pub enum FrameModel {
    Token(Seq<char>),
    FileChunk(Seq<u8>),
    EndOfFile,
    Ping,
    Pong,
    Close,
}

impl View for BieProtocol {
    type V = FrameModel;

    open spec fn view(&self) -> FrameModel {
        match self {
            BieProtocol::Token(s) => FrameModel::Token(s@),
            BieProtocol::FileChunk(c) => FrameModel::FileChunk(c@),
            BieProtocol::EndOfFile => FrameModel::EndOfFile,
            BieProtocol::Ping => FrameModel::Ping,
            BieProtocol::Pong => FrameModel::Pong,
            BieProtocol::Close => FrameModel::Close,
        }
    }
}

/// Decoding failure: the frame violates the wire contract.
#[derive(Clone, Copy, PartialEq, Eq, Structural, Debug)]
pub enum DecodeError {
    /// Unknown tag, truncated or oversized payload, or a token payload
    /// that is not valid UTF-8.
    MalformedFrame,
}

pub const TAG_TOKEN: u8 = 0;

pub const TAG_FILE_CHUNK: u8 = 1;

pub const TAG_END_OF_FILE: u8 = 2;

pub const TAG_PING: u8 = 3;

pub const TAG_PONG: u8 = 4;

pub const TAG_CLOSE: u8 = 5;

/// The tag byte that opens the encoding of a message.
pub open spec fn tag_of(f: FrameModel) -> u8 {
    match f {
        FrameModel::Token(_) => TAG_TOKEN,
        FrameModel::FileChunk(_) => TAG_FILE_CHUNK,
        FrameModel::EndOfFile => TAG_END_OF_FILE,
        FrameModel::Ping => TAG_PING,
        FrameModel::Pong => TAG_PONG,
        FrameModel::Close => TAG_CLOSE,
    }
}

/// The payload bytes that follow the tag.
pub open spec fn payload_of(f: FrameModel) -> Seq<u8> {
    match f {
        FrameModel::Token(s) => encode_utf8(s),
        FrameModel::FileChunk(c) => c,
        _ => Seq::<u8>::empty(),
    }
}

/// The complete encoding of a message: tag byte, then payload.
pub open spec fn encoding_of(f: FrameModel) -> Seq<u8> {
    seq![tag_of(f)] + payload_of(f)
}

/// Whether a byte sequence is the encoding of some wire message.
pub open spec fn frame_well_formed(bytes: Seq<u8>) -> bool {
    &&& bytes.len() >= 1
    &&& bytes[0] <= TAG_CLOSE
    &&& (bytes[0] == TAG_TOKEN ==> valid_utf8(bytes.skip(1)))
    &&& (bytes[0] == TAG_END_OF_FILE || bytes[0] == TAG_PING || bytes[0] == TAG_PONG
        || bytes[0] == TAG_CLOSE ==> bytes.len() == 1)
}

/// The message a well-formed byte sequence encodes.
pub open spec fn decoded_frame(bytes: Seq<u8>) -> FrameModel
    recommends
        frame_well_formed(bytes),
{
    if bytes[0] == TAG_TOKEN {
        FrameModel::Token(decode_utf8(bytes.skip(1)))
    } else if bytes[0] == TAG_FILE_CHUNK {
        FrameModel::FileChunk(bytes.skip(1))
    } else if bytes[0] == TAG_END_OF_FILE {
        FrameModel::EndOfFile
    } else if bytes[0] == TAG_PING {
        FrameModel::Ping
    } else if bytes[0] == TAG_PONG {
        FrameModel::Pong
    } else {
        FrameModel::Close
    }
}

/// Relies on `String::from_utf8`: it succeeds exactly on valid UTF-8 input
/// and returns the string whose UTF-8 encoding is the given bytes.
#[verifier::external_body]
pub(crate) fn string_from_utf8(bytes: Vec<u8>) -> (r: Option<String>)
    ensures
        r is Some <==> valid_utf8(bytes@),
        r matches Some(s) ==> encode_utf8(s@) == bytes@,
{
    match String::from_utf8(bytes) {
        Ok(s) => Some(s),
        Err(_) => None,
    }
}

/// Append every byte of `src` to `dst`.
fn push_bytes(dst: &mut Vec<u8>, src: &Vec<u8>)
    ensures
        final(dst)@ == old(dst)@ + src@,
{
    let mut i: usize = 0;
    while i < src.len()
        invariant
            i <= src@.len(),
            dst@ == old(dst)@ + src@.subrange(0, i as int),
        decreases src@.len() - i,
    {
        dst.push(src[i]);
        i = i + 1;
        proof {
            assert(dst@ =~= old(dst)@ + src@.subrange(0, i as int));
        }
    }
    proof {
        assert(dst@ =~= old(dst)@ + src@);
    }
}

/// Encode one wire message into its binary frame.
pub fn encode(m: &BieProtocol) -> (r: Vec<u8>)
    ensures
        r@ == encoding_of(m@),
{
    let mut out: Vec<u8> = Vec::new();
    match m {
        BieProtocol::Token(s) => {
            out.push(TAG_TOKEN);
            let payload = s.as_str().as_bytes_vec();
            push_bytes(&mut out, &payload);
        },
        BieProtocol::FileChunk(c) => {
            out.push(TAG_FILE_CHUNK);
            push_bytes(&mut out, c);
        },
        BieProtocol::EndOfFile => {
            out.push(TAG_END_OF_FILE);
        },
        BieProtocol::Ping => {
            out.push(TAG_PING);
        },
        BieProtocol::Pong => {
            out.push(TAG_PONG);
        },
        BieProtocol::Close => {
            out.push(TAG_CLOSE);
        },
    }
    proof {
        assert(out@ =~= encoding_of(m@));
    }
    out
}

/// Copy the payload of a frame: every byte after the tag.
fn frame_payload(bytes: &Vec<u8>) -> (r: Vec<u8>)
    requires
        bytes@.len() >= 1,
    ensures
        r@ == bytes@.skip(1),
{
    let mut payload: Vec<u8> = Vec::new();
    let mut i: usize = 1;
    while i < bytes.len()
        invariant
            1 <= i <= bytes@.len(),
            payload@ == bytes@.subrange(1, i as int),
        decreases bytes@.len() - i,
    {
        payload.push(bytes[i]);
        i = i + 1;
        proof {
            assert(payload@ =~= bytes@.subrange(1, i as int));
        }
    }
    proof {
        assert(payload@ =~= bytes@.skip(1));
    }
    payload
}

/// Decode one binary frame into a wire message.
///
/// Succeeds exactly on well-formed frames; every other input — an empty
/// frame, an unknown tag, a payload on a payload-free variant, or a token
/// payload that is not valid UTF-8 — is a malformed frame.
pub fn decode(bytes: &Vec<u8>) -> (r: Result<BieProtocol, DecodeError>)
    ensures
        r is Ok <==> frame_well_formed(bytes@),
        r matches Ok(m) ==> m@ == decoded_frame(bytes@),
        r matches Err(e) ==> e == DecodeError::MalformedFrame,
{
    broadcast use vstd::utf8::encode_utf8_decode_utf8;

    if bytes.len() == 0 {
        return Err(DecodeError::MalformedFrame);
    }
    let tag = bytes[0];
    if tag == TAG_TOKEN {
        let payload = frame_payload(bytes);
        match string_from_utf8(payload) {
            Some(s) => Ok(BieProtocol::Token(s)),
            None => Err(DecodeError::MalformedFrame),
        }
    } else if tag == TAG_FILE_CHUNK {
        let payload = frame_payload(bytes);
        Ok(BieProtocol::FileChunk(payload))
    } else if tag <= TAG_CLOSE {
        if bytes.len() != 1 {
            return Err(DecodeError::MalformedFrame);
        }
        if tag == TAG_END_OF_FILE {
            Ok(BieProtocol::EndOfFile)
        } else if tag == TAG_PING {
            Ok(BieProtocol::Ping)
        } else if tag == TAG_PONG {
            Ok(BieProtocol::Pong)
        } else if tag == TAG_CLOSE {
            Ok(BieProtocol::Close)
        } else {
            unreached()
        }
    } else {
        Err(DecodeError::MalformedFrame)
    }
}

/// Law: the codec round-trips. The encoding of every message is a
/// well-formed frame, and decoding it yields the message back; in
/// particular the encoding is injective.
pub proof fn lemma_decode_encode(f: FrameModel)
    ensures
        frame_well_formed(encoding_of(f)),
        decoded_frame(encoding_of(f)) == f,
{
    broadcast use vstd::utf8::encode_utf8_valid_utf8, vstd::utf8::encode_utf8_decode_utf8;

    assert(encoding_of(f).skip(1) =~= payload_of(f));
    match f {
        FrameModel::Token(s) => {
            assert(decoded_frame(encoding_of(f)) =~= f);
        },
        FrameModel::FileChunk(c) => {
            assert(decoded_frame(encoding_of(f)) =~= f);
        },
        _ => {},
    }
}

} // verus!
