//! The downloading side: derive the relay endpoint from the server URL,
//! read the token, then fold the incoming binary frames into the file
//! bytes until the end marker.
//!
//! Writing the bytes to a scoped temporary file and finalizing it
//! atomically is transport-side work; the library accumulates and checks
//! the bytes, so that what is finalized is exactly what was framed.

use vstd::prelude::*;

verus! {

use crate::codec::{BieProtocol, FrameModel, DecodeError, decode, encoding_of, frame_well_formed,
    decoded_frame, lemma_decode_encode};
use crate::upload::{chunk_messages, chunk_views};
use vstd::string::StringExecFns;

/// Why a download failed.
#[derive(Clone, Copy, PartialEq, Eq, Structural, Debug)]
pub enum DownloadError {
    /// A message arrived that the protocol does not allow here.
    ProtocolViolation,
    /// A binary frame violated the wire contract.
    MalformedFrame,
    /// The stream ended before the end marker arrived.
    PrematureTermination,
}

/// The first message of a session, as the transport hands it over.
pub enum FirstMessage {
    /// A plain-text message: the expected shape for the token.
    Text(String),
    /// Anything else.
    Other,
}

/// Read the session token out of the first message: it must be the
/// plain-text one; any other first message is a protocol violation.
pub fn read_token(m: FirstMessage) -> (r: Result<String, DownloadError>)
    ensures
        m matches FirstMessage::Text(t) ==> (r matches Ok(s) && s == t),
        !(m matches FirstMessage::Text(t)) ==> r == Err::<String, DownloadError>(
            DownloadError::ProtocolViolation,
        ),
{
    match m {
        FirstMessage::Text(t) => Ok(t),
        FirstMessage::Other => Err(DownloadError::ProtocolViolation),
    }
}

/// What one accepted frame did to the download.
#[derive(Clone, Copy, PartialEq, Eq, Structural, Debug)]
pub enum FrameOutcome {
    /// A chunk was appended; more frames are expected.
    Continue,
    /// The end marker arrived; the file is complete.
    Finished,
}

/// The downloading consumer: the file bytes received so far.
pub struct Downloader {
    received: Vec<u8>,
}

/// The result of folding a frame sequence into file bytes, starting from
/// `acc`: chunks append in order until the end marker yields the whole;
/// a malformed frame, a message the protocol does not allow here, or a
/// stream that runs out first yields nothing.
pub open spec fn consume(acc: Seq<u8>, frames: Seq<Seq<u8>>) -> Option<Seq<u8>>
    decreases frames.len(),
{
    if frames.len() == 0 {
        None
    } else if !frame_well_formed(frames[0]) {
        None
    } else {
        match decoded_frame(frames[0]) {
            FrameModel::FileChunk(c) => consume(acc + c, frames.skip(1)),
            FrameModel::EndOfFile => Some(acc),
            _ => None,
        }
    }
}

/// The error a failing download reports: the first offending frame
/// decides — a malformed frame, or a message the protocol does not
/// allow here — and a stream that runs out first is a premature
/// termination.
pub open spec fn download_error_of(frames: Seq<Seq<u8>>) -> DownloadError
    recommends
        consume(Seq::<u8>::empty(), frames) is None,
    decreases frames.len(),
{
    if frames.len() == 0 {
        DownloadError::PrematureTermination
    } else if !frame_well_formed(frames[0]) {
        DownloadError::MalformedFrame
    } else {
        match decoded_frame(frames[0]) {
            FrameModel::FileChunk(_) => download_error_of(frames.skip(1)),
            FrameModel::EndOfFile => DownloadError::PrematureTermination,
            _ => DownloadError::ProtocolViolation,
        }
    }
}

/// The concatenation of a chunk sequence.
pub open spec fn concat_chunks(vs: Seq<Seq<u8>>) -> Seq<u8>
    decreases vs.len(),
{
    if vs.len() == 0 {
        Seq::<u8>::empty()
    } else {
        vs[0] + concat_chunks(vs.skip(1))
    }
}

/// The binary frames a message sequence goes out as.
pub open spec fn frames_of(msgs: Seq<FrameModel>) -> Seq<Seq<u8>> {
    msgs.map(|i: int, m: FrameModel| encoding_of(m))
}

impl Downloader {
    /// The file bytes received so far.
    pub closed spec fn bytes(self) -> Seq<u8> {
        self.received@
    }

    /// A fresh download with nothing received.
    pub fn new() -> (r: Self)
        ensures
            r.bytes() == Seq::<u8>::empty(),
    {
        Downloader { received: Vec::new() }
    }

    /// Fold one binary frame in. A `FileChunk` appends its payload and
    /// the download goes on; `EndOfFile` completes it; every other
    /// message is a protocol violation here, and a frame that does not
    /// decode is malformed — in both cases the bytes are untouched.
    pub fn on_frame(&mut self, frame: &Vec<u8>) -> (r: Result<FrameOutcome, DownloadError>)
        ensures
            !frame_well_formed(frame@) ==> r == Err::<FrameOutcome, DownloadError>(
                DownloadError::MalformedFrame,
            ) && final(self).bytes() == old(self).bytes(),
            frame_well_formed(frame@) ==> match decoded_frame(frame@) {
                FrameModel::FileChunk(c) => r == Ok::<FrameOutcome, DownloadError>(
                    FrameOutcome::Continue,
                ) && final(self).bytes() == old(self).bytes() + c,
                FrameModel::EndOfFile => r == Ok::<FrameOutcome, DownloadError>(
                    FrameOutcome::Finished,
                ) && final(self).bytes() == old(self).bytes(),
                _ => r == Err::<FrameOutcome, DownloadError>(DownloadError::ProtocolViolation)
                    && final(self).bytes() == old(self).bytes(),
            },
    {
        match decode(frame) {
            Err(_) => Err(DownloadError::MalformedFrame),
            Ok(BieProtocol::FileChunk(c)) => {
                let mut chunk = c;
                self.received.append(&mut chunk);
                Ok(FrameOutcome::Continue)
            },
            Ok(BieProtocol::EndOfFile) => Ok(FrameOutcome::Finished),
            Ok(_) => Err(DownloadError::ProtocolViolation),
        }
    }

    /// Hand the completed file bytes out.
    pub fn into_bytes(self) -> (r: Vec<u8>)
        ensures
            r@ == self.bytes(),
    {
        self.received
    }
}

/// Run a whole download over a frame sequence, front to back.
///
/// Succeeds with exactly the bytes [`consume`] yields from an empty
/// accumulator; fails with the error of the offending frame, or with a
/// premature-termination error when the frames run out before the end
/// marker.
#[verifier::loop_isolation(false)]
pub fn run_download(frames: &Vec<Vec<u8>>) -> (r: Result<Vec<u8>, DownloadError>)
    ensures
        r matches Ok(bytes) ==> consume(Seq::<u8>::empty(), chunk_views(frames@)) == Some(
            bytes@,
        ),
        r is Err <==> consume(Seq::<u8>::empty(), chunk_views(frames@)) is None,
        r matches Err(e) ==> e == download_error_of(chunk_views(frames@)),
{
    let mut down = Downloader::new();
    let mut i: usize = 0;
    let ghost fv = chunk_views(frames@);
    proof {
        assert(fv.skip(0) =~= fv);
    }
    while i < frames.len()
        invariant
            i <= frames@.len(),
            consume(Seq::<u8>::empty(), fv) == consume(down.bytes(), fv.skip(i as int)),
            download_error_of(fv) == download_error_of(fv.skip(i as int)),
        decreases frames@.len() - i,
    {
        proof {
            assert(fv.skip(i as int)[0] == fv[i as int]);
            assert(fv[i as int] == frames@[i as int]@);
        }
        match down.on_frame(&frames[i]) {
            Err(e) => {
                return Err(e);
            },
            Ok(FrameOutcome::Finished) => {
                proof {
                    assert(consume(down.bytes(), fv.skip(i as int)) == Some(down.bytes()));
                }
                return Ok(down.into_bytes());
            },
            Ok(FrameOutcome::Continue) => {
                proof {
                    assert(fv.skip(i as int).skip(1) =~= fv.skip(i as int + 1));
                }
            },
        }
        i = i + 1;
    }
    proof {
        assert(fv.skip(i as int) =~= Seq::<Seq<u8>>::empty());
    }
    Err(DownloadError::PrematureTermination)
}

/// The round-trip law behind one helping: folding the encoded frames of
/// a chunk-message sequence closed by the end marker, starting from any
/// accumulator, yields the accumulator extended by the concatenation of
/// the chunks.
proof fn lemma_consume_relayed(acc: Seq<u8>, vs: Seq<Seq<u8>>)
    ensures
        consume(acc, frames_of(chunk_messages(vs).push(FrameModel::EndOfFile))) == Some(
            acc + concat_chunks(vs),
        ),
    decreases vs.len(),
{
    let frames = frames_of(chunk_messages(vs).push(FrameModel::EndOfFile));
    if vs.len() == 0 {
        lemma_decode_encode(FrameModel::EndOfFile);
        assert(frames[0] == encoding_of(FrameModel::EndOfFile));
        assert(consume(acc, frames) == Some(acc));
        assert(acc + concat_chunks(vs) =~= acc);
    } else {
        lemma_decode_encode(FrameModel::FileChunk(vs[0]));
        assert(frames[0] == encoding_of(FrameModel::FileChunk(vs[0])));
        assert(frames.skip(1) =~= frames_of(
            chunk_messages(vs.skip(1)).push(FrameModel::EndOfFile),
        ));
        lemma_consume_relayed(acc + vs[0], vs.skip(1));
        assert(acc + vs[0] + concat_chunks(vs.skip(1)) =~= acc + concat_chunks(vs));
    }
}

/// Law: the relay round-trips. The messages an accepted upload of
/// `chunks` leaves in the session channel — every chunk in order, then
/// the end marker — once encoded by the forwarder and folded by the
/// consumer, yield exactly the concatenation of the chunks, in order and
/// byte for byte.
pub proof fn law_relay_round_trip(vs: Seq<Seq<u8>>)
    ensures
        consume(Seq::<u8>::empty(), frames_of(chunk_messages(vs).push(FrameModel::EndOfFile)))
            == Some(concat_chunks(vs)),
{
    lemma_consume_relayed(Seq::<u8>::empty(), vs);
    assert(Seq::<u8>::empty() + concat_chunks(vs) =~= concat_chunks(vs));
}

/// Map a URL scheme to its persistent-connection counterpart: exactly
/// `http` and `https` are accepted.
pub fn websocket_scheme(scheme: &String) -> (r: Option<&'static str>)
    ensures
        r is Some <==> (scheme@ == "http"@ || scheme@ == "https"@),
        scheme@ == "http"@ ==> (r matches Some(s) && s@ == "ws"@),
        scheme@ == "https"@ ==> (r matches Some(s) && s@ == "wss"@),
{
    broadcast use vstd::string::group_string_axioms;

    proof {
        reveal_strlit("http");
        reveal_strlit("https");
        assert("http"@.len() == 4);
        assert("https"@.len() == 5);
    }
    let http = String::from_str("http");
    let https = String::from_str("https");
    if *scheme == http {
        Some("ws")
    } else if *scheme == https {
        Some("wss")
    } else {
        None
    }
}

/// The URL a third party posts the file to: the server's base URL, the
/// upload path, then the session token.
pub fn upload_url(base: &str, token: &str) -> (r: String)
    ensures
        r@ == base@ + "/upload/"@ + token@,
{
    let mut s = String::from_str(base);
    s.append("/upload/");
    s.append(token);
    s
}

/// A parsed absolute URL, modeled as the plain parts the relay logic
/// reads: the scheme, the authority (user, host and port, serialized as
/// they stand between the `://` and the path), and the path.
pub struct RelayUrl {
    pub scheme: String,
    pub authority: String,
    pub path: String,
}

/// The scheme, authority and path that the url crate's parser extracts
/// from a string, and nothing when the string is no absolute URL. The
/// parser is a function of its input alone.
pub uninterp spec fn parsed_parts_of(s: Seq<char>) -> Option<(Seq<char>, Seq<char>, Seq<char>)>;

/// Whether a scheme has a persistent-connection counterpart.
pub open spec fn mappable_scheme(scheme: Seq<char>) -> bool {
    scheme == "http"@ || scheme == "https"@
}

/// The persistent-connection counterpart of a mappable scheme.
pub open spec fn mapped_scheme(scheme: Seq<char>) -> Seq<char> {
    if scheme == "http"@ {
        "ws"@
    } else {
        "wss"@
    }
}

/// Relies on `url::Url::parse` (with the accessors `scheme`, `authority`
/// and `path`): validates an absolute URL and hands its parts out as
/// plain strings, failing exactly on input that is no URL.
#[verifier::external_body]
fn parse_relay_url(s: &str) -> (r: Option<RelayUrl>)
    ensures
        r is Some <==> parsed_parts_of(s@) is Some,
        r matches Some(u) ==> parsed_parts_of(s@) == Some((u.scheme@, u.authority@, u.path@)),
{
    match url::Url::parse(s) {
        Ok(u) => Some(
            RelayUrl {
                scheme: u.scheme().to_owned(),
                authority: u.authority().to_owned(),
                path: u.path().to_owned(),
            },
        ),
        Err(_) => None,
    }
}

/// Turn a URL back into a string: scheme, `://`, authority, path.
pub fn url_string(u: &RelayUrl) -> (r: String)
    ensures
        r@ == u.scheme@ + "://"@ + u.authority@ + u.path@,
{
    let mut s = String::new();
    s.append(u.scheme.as_str());
    s.append("://");
    s.append(u.authority.as_str());
    s.append(u.path.as_str());
    proof {
        assert(s@ =~= u.scheme@ + "://"@ + u.authority@ + u.path@);
    }
    s
}

/// Map a URL to its relay endpoint: the scheme becomes its
/// persistent-connection counterpart — exactly `http` and `https` have
/// one — the authority is preserved, and the path becomes the well-known
/// relay path.
pub fn websocket_endpoint(u: &RelayUrl) -> (r: Option<RelayUrl>)
    ensures
        r is Some <==> mappable_scheme(u.scheme@),
        r matches Some(w) ==> w.scheme@ == mapped_scheme(u.scheme@) && w.authority@
            == u.authority@ && w.path@ == "/wait_file"@,
{
    proof {
        reveal_strlit("ws");
        reveal_strlit("wss");
    }
    let ws = match websocket_scheme(&u.scheme) {
        Some(ws) => ws,
        None => {
            return None;
        },
    };
    Some(
        RelayUrl {
            scheme: String::from_str(ws),
            authority: u.authority.clone(),
            path: String::from_str("/wait_file"),
        },
    )
}

/// Derive the persistent-connection endpoint from the relay server's
/// base URL: exactly when the input parses as a URL whose scheme is
/// `http` or `https`, the result is that URL with the scheme mapped to
/// `ws` or `wss`, the authority — host and port — preserved, and the
/// path replaced by the well-known relay path. Anything else is a
/// configuration error.
pub fn create_websocket_url(server_url: &str) -> (r: Option<String>)
    ensures
        r is Some <==> (parsed_parts_of(server_url@) matches Some(p) && mappable_scheme(p.0)),
        r matches Some(out) ==> (parsed_parts_of(server_url@) matches Some(p) && out@
            == mapped_scheme(p.0) + "://"@ + p.1 + "/wait_file"@),
{
    let u = match parse_relay_url(server_url) {
        Some(u) => u,
        None => {
            return None;
        },
    };
    let endpoint = match websocket_endpoint(&u) {
        Some(w) => w,
        None => {
            return None;
        },
    };
    Some(url_string(&endpoint))
}

} // verus!
