//! The upload bridge: resolves a token against the registry and streams
//! the upload body into the session's channel as framed chunks, closed by
//! an end marker.
//!
//! An unknown token is refused without touching any session. A body whose
//! total size exceeds the configured ceiling is cut off mid-stream. A
//! session that vanished while the push was pending surfaces as an
//! internal error instead of blocking forever.

use vstd::prelude::*;

verus! {

use crate::codec::{BieProtocol, FrameModel};
use crate::registry::Registry;
use vstd::pervasive::unreached;

/// The outcome of one upload request.
#[derive(Clone, Copy, PartialEq, Eq, Structural, Debug)]
pub enum UploadOutcome {
    /// Every chunk and the end marker reached the session.
    Accepted,
    /// The token holds no live session.
    NotFound,
    /// The body exceeded the configured maximum size mid-stream.
    TooLarge,
    /// The session's channel refused the push: the session is gone.
    InternalError,
}

/// The outcome of pushing one chunk of a streamed upload.
#[derive(Clone, Copy, PartialEq, Eq, Structural, Debug)]
pub enum ChunkOutcome {
    /// The chunk reached the session's channel.
    Pushed,
    /// The chunk would take the body past the configured maximum size.
    TooLarge,
    /// The token no longer resolves, or its channel refuses pushes.
    SessionGone,
}

/// The views of a sequence of byte chunks.
pub open spec fn chunk_views(cs: Seq<Vec<u8>>) -> Seq<Seq<u8>> {
    cs.map(|i: int, c: Vec<u8>| c@)
}

/// The total byte size of a sequence of chunks.
pub open spec fn total_size(vs: Seq<Seq<u8>>) -> nat
    decreases vs.len(),
{
    if vs.len() == 0 {
        0
    } else {
        total_size(vs.drop_last()) + vs.last().len()
    }
}

/// The wire messages a chunk sequence is bridged into, end marker aside.
pub open spec fn chunk_messages(vs: Seq<Seq<u8>>) -> Seq<FrameModel> {
    vs.map(|i: int, v: Seq<u8>| FrameModel::FileChunk(v))
}

/// Taking one more chunk adds exactly its size.
proof fn lemma_total_size_take_succ(vs: Seq<Seq<u8>>, i: int)
    requires
        0 <= i < vs.len(),
    ensures
        total_size(vs.take(i + 1)) == total_size(vs.take(i)) + vs[i].len(),
{
    assert(vs.take(i + 1).drop_last() =~= vs.take(i));
    assert(vs.take(i + 1).last() == vs[i]);
}

/// No prefix outweighs the whole sequence.
proof fn lemma_total_size_take_le(vs: Seq<Seq<u8>>, m: int)
    requires
        0 <= m <= vs.len(),
    ensures
        total_size(vs.take(m)) <= total_size(vs),
    decreases vs.len() - m,
{
    if m == vs.len() {
        assert(vs.take(m) =~= vs);
    } else {
        lemma_total_size_take_succ(vs, m);
        lemma_total_size_take_le(vs, m + 1);
    }
}

/// Copy one chunk.
pub(crate) fn clone_bytes(src: &Vec<u8>) -> (r: Vec<u8>)
    ensures
        r@ == src@,
{
    let mut out: Vec<u8> = Vec::new();
    let mut i: usize = 0;
    while i < src.len()
        invariant
            i <= src@.len(),
            out@ == src@.subrange(0, i as int),
        decreases src@.len() - i,
    {
        out.push(src[i]);
        i = i + 1;
        proof {
            assert(out@ =~= src@.subrange(0, i as int));
        }
    }
    proof {
        assert(out@ =~= src@);
    }
    out
}

/// Bridge one upload into the session registered under `token`.
///
/// Exactly one outcome holds: `NotFound` when the token holds no live
/// session, and then nothing is mutated; `InternalError` when the
/// session's channel is already closed, and then its messages are
/// untouched; `Accepted` when the whole body fits the ceiling, and then
/// the channel gains every chunk in order followed by the end marker;
/// `TooLarge` when the body outgrows the ceiling mid-stream, and then the
/// channel gains only a prefix of the chunks that fits, with no end
/// marker. No other session is touched in any case.
#[verifier::loop_isolation(false)]
pub fn handle_upload(
    reg: &mut Registry,
    token: &String,
    chunks: &Vec<Vec<u8>>,
    max_bytes: u64,
) -> (r: UploadOutcome)
    requires
        old(reg).wf(),
    ensures
        final(reg).wf(),
        final(reg).tokens() == old(reg).tokens(),
        r == UploadOutcome::NotFound <==> !old(reg).has_token(token@),
        r == UploadOutcome::NotFound ==> *final(reg) == *old(reg),
        old(reg).has_token(token@) ==> ({
            let k = old(reg).index_of(token@);
            let vs = chunk_views(chunks@);
            &&& (r == UploadOutcome::InternalError <==> old(reg).closed_at(k))
            &&& (r == UploadOutcome::Accepted <==> !old(reg).closed_at(k) && total_size(vs)
                <= max_bytes)
            &&& (r == UploadOutcome::TooLarge <==> !old(reg).closed_at(k) && total_size(vs)
                > max_bytes)
            &&& final(reg).closed_at(k) == old(reg).closed_at(k)
            &&& (r == UploadOutcome::InternalError ==> final(reg).msgs_at(k) == old(reg).msgs_at(
                k,
            ))
            &&& (r == UploadOutcome::Accepted ==> final(reg).msgs_at(k) == old(reg).msgs_at(k)
                + chunk_messages(vs) + seq![FrameModel::EndOfFile])
            &&& (r == UploadOutcome::TooLarge ==> exists|n: int|
                0 <= n <= vs.len() && total_size(vs.take(n)) <= max_bytes && final(reg).msgs_at(k)
                    == old(reg).msgs_at(k) + chunk_messages(#[trigger] vs.take(n)))
            &&& forall|j: int|
                0 <= j < old(reg).tokens().len() && j != k ==> final(reg).msgs_at(j) == old(reg).msgs_at(j) && final(reg).closed_at(j) == old(reg).closed_at(j)
        }),
{
    let ghost vs = chunk_views(chunks@);
    let idx = match reg.find(token) {
        None => {
            return UploadOutcome::NotFound;
        },
        Some(i) => i,
    };
    proof {
        reg.lemma_index_of(token@);
    }
    let ghost k = idx as int;
    if reg.channel_closed(idx) {
        return UploadOutcome::InternalError;
    }
    let mut total: u64 = 0;
    let mut i: usize = 0;
    while i < chunks.len()
        invariant
            reg.wf(),
            reg.tokens() == old(reg).tokens(),
            0 <= k < reg.tokens().len(),
            i <= chunks@.len(),
            vs == chunk_views(chunks@),
            vs.len() == chunks@.len(),
            total == total_size(vs.take(i as int)),
            total <= max_bytes,
            !reg.closed_at(k),
            reg.msgs_at(k) == old(reg).msgs_at(k) + chunk_messages(vs.take(i as int)),
            forall|j: int|
                0 <= j < old(reg).tokens().len() && j != k ==> reg.msgs_at(j) == old(reg).msgs_at(j) && reg.closed_at(j) == old(reg).closed_at(j),
        decreases chunks@.len() - i,
    {
        let c = &chunks[i];
        proof {
            assert(vs[i as int] == c@);
        }
        if c.len() as u64 > max_bytes - total {
            proof {
                lemma_total_size_take_succ(vs, i as int);
                lemma_total_size_take_le(vs, i as int + 1);
                assert(total_size(vs) > max_bytes);
            }
            return UploadOutcome::TooLarge;
        }
        total = total + c.len() as u64;
        let copy = clone_bytes(c);
        let accepted = reg.push_at(idx, BieProtocol::FileChunk(copy));
        proof {
            assert(accepted);
            lemma_total_size_take_succ(vs, i as int);
            assert(chunk_messages(vs.take(i as int + 1)) =~= chunk_messages(
                vs.take(i as int),
            ).push(FrameModel::FileChunk(vs[i as int])));
            assert(reg.msgs_at(k) =~= old(reg).msgs_at(k) + chunk_messages(
                vs.take(i as int + 1),
            ));
        }
        i = i + 1;
    }
    proof {
        assert(vs.take(vs.len() as int) =~= vs);
    }
    let accepted = reg.push_at(idx, BieProtocol::EndOfFile);
    if !accepted {
        return unreached();
    }
    proof {
        assert(reg.msgs_at(k) =~= old(reg).msgs_at(k) + chunk_messages(vs) + seq![
            FrameModel::EndOfFile,
        ]);
    }
    UploadOutcome::Accepted
}

} // verus!
