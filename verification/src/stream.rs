//! The byte-stream adapter: bridging chunked bodies between the HTTP
//! boundary and the blob-store backend.
//!
//! A lazy sequence of byte chunks is modelled by the trace it yields
//! when drained: the chunks in order, then either a clean end or one
//! terminal fault. The adapter never splits, merges or reorders chunks
//! (their sizes are opaque to it); it translates error kinds and passes
//! data through byte-exact. Any read error terminates the adapted
//! sequence with a mapped error: all-or-error at chunk granularity (a
//! chunk already emitted downstream is not retracted).

use vstd::prelude::*;

use crate::bytebuf::{bytes_mut_extend, bytes_mut_freeze, bytes_mut_new, bytes_mut_seq, bytes_seq};
use crate::errors::{map_backend_fault, spec_fault_error, BackendFault, StorageError};

verus! {

/// The drained trace of a backend download: chunks in order, then a
/// clean end (`fault` empty) or a terminal backend failure.
#[derive(Debug)]
pub struct RemoteStream {
    /// The chunks, in the order the backend yielded them.
    pub chunks: Vec<Vec<u8>>,
    /// The terminal failure, if the stream did not end cleanly.
    pub fault: Option<BackendFault>,
}

/// The drained trace of a domain-side byte stream (an upload body, or
/// a download already adapted): chunks in order, then a clean end or a
/// terminal domain error.
#[derive(Debug)]
pub struct BodyStream {
    /// The chunks, in the order the source yielded them.
    pub chunks: Vec<Vec<u8>>,
    /// The terminal failure, if the stream did not end cleanly.
    pub fault: Option<StorageError>,
}

/// The views of a sequence of chunks.
pub open spec fn chunk_views(chunks: Seq<Vec<u8>>) -> Seq<Seq<u8>> {
    chunks.map_values(|c: Vec<u8>| c@)
}

/// The concatenation of a sequence of chunks: the whole payload they
/// carry.
pub open spec fn concat_bytes(chunks: Seq<Seq<u8>>) -> Seq<u8>
    decreases chunks.len(),
{
    if chunks.len() == 0 {
        Seq::empty()
    } else {
        concat_bytes(chunks.drop_last()) + chunks.last()
    }
}

/// The payload a body stream carries, ignoring how it is cut into
/// chunks.
pub open spec fn body_bytes(s: BodyStream) -> Seq<u8> {
    concat_bytes(chunk_views(s.chunks@))
}

/// Translate one pulled download chunk from the backend's vocabulary
/// to the domain's: data passes through untouched, a failure comes out
/// as the mapped domain error. This is the whole per-chunk work of the
/// download adapter, so an adapter built on it holds no more than the
/// single in-flight chunk.
pub fn adapt_chunk(item: Result<Vec<u8>, BackendFault>) -> (r: Result<Vec<u8>, StorageError>)
    ensures
        match item {
            Result::Ok(c) => r == Result::<Vec<u8>, StorageError>::Ok(c),
            Result::Err(f) => r == Result::<Vec<u8>, StorageError>::Err(spec_fault_error(f)),
        },
{
    match item {
        Result::Ok(c) => Result::Ok(c),
        Result::Err(f) => Result::Err(map_backend_fault(f)),
    }
}

/// Adapt a drained download to the domain vocabulary: pure error-kind
/// translation plus pass-through of the data. The chunks come out
/// exactly as they went in — same order, same cuts — so the
/// concatenation of the output equals the concatenation of the input,
/// byte-exact.
pub fn adapt_for_download(remote: RemoteStream) -> (out: BodyStream)
    ensures
        out.chunks == remote.chunks,
        body_bytes(out) == concat_bytes(chunk_views(remote.chunks@)),
        match remote.fault {
            Option::None => out.fault is None,
            Option::Some(f) => out.fault == Option::Some(spec_fault_error(f)),
        },
{
    let fault = match remote.fault {
        Option::None => Option::None,
        Option::Some(f) => Option::Some(map_backend_fault(f)),
    };
    BodyStream { chunks: remote.chunks, fault }
}

/// Drain a whole stream into one contiguous buffer, folding each chunk
/// into a growing `bytes::BytesMut` as the backend fold does. Returns
/// the full payload only when the stream ended cleanly; a faulted
/// stream yields its terminal error and no bytes (all-or-error).
/// Accumulation is unbounded — callers must bound the object size
/// themselves.
pub fn collect_to_buffer(body: BodyStream) -> (r: Result<bytes::Bytes, StorageError>)
    ensures
        match r {
            Result::Ok(b) => body.fault is None && bytes_seq(b) == body_bytes(body),
            Result::Err(e) => body.fault == Option::Some(e),
        },
        r is Ok <==> body.fault is None,
{
    match body.fault {
        Option::Some(e) => Result::Err(e),
        Option::None => {
            let ghost cv = chunk_views(body.chunks@);
            let mut acc = bytes_mut_new();
            let mut i: usize = 0;
            while i < body.chunks.len()
                invariant
                    i <= body.chunks.len(),
                    cv == chunk_views(body.chunks@),
                    bytes_mut_seq(acc) == concat_bytes(cv.take(i as int)),
                decreases body.chunks.len() - i,
            {
                bytes_mut_extend(&mut acc, &body.chunks[i]);
                proof {
                    assert(cv.take(i + 1).drop_last() =~= cv.take(i as int));
                    assert(cv.take(i + 1).last() == body.chunks@[i as int]@);
                }
                i += 1;
            }
            proof {
                assert(cv.take(body.chunks@.len() as int) =~= cv);
            }
            Result::Ok(bytes_mut_freeze(acc))
        },
    }
}

/// The total number of bytes a chunk sequence carries, or nothing if
/// that count does not fit the declared-length type.
pub fn chunk_total(chunks: &Vec<Vec<u8>>) -> (r: Option<u64>)
    ensures
        match r {
            Option::Some(n) => n == concat_bytes(chunk_views(chunks@)).len(),
            Option::None => concat_bytes(chunk_views(chunks@)).len() > u64::MAX,
        },
{
    let ghost cv = chunk_views(chunks@);
    let mut total: u64 = 0;
    let mut i: usize = 0;
    while i < chunks.len()
        invariant
            i <= chunks.len(),
            cv == chunk_views(chunks@),
            total == concat_bytes(cv.take(i as int)).len(),
        decreases chunks.len() - i,
    {
        proof {
            assert(cv.take(i + 1).drop_last() =~= cv.take(i as int));
            assert(cv.take(i + 1).last() == chunks@[i as int]@);
        }
        let n = chunks[i].len();
        match total.checked_add(n as u64) {
            Option::Some(t) => {
                total = t;
            },
            Option::None => {
                proof {
                    assert(concat_bytes(cv.take(i + 1)).len() > u64::MAX);
                    lemma_concat_len_monotone(cv, i + 1);
                }
                return Option::None;
            },
        }
        i += 1;
    }
    proof {
        assert(cv.take(chunks@.len() as int) =~= cv);
    }
    Option::Some(total)
}

/// A longer prefix of a chunk sequence never carries fewer bytes.
proof fn lemma_concat_len_monotone(cv: Seq<Seq<u8>>, i: int)
    requires
        0 <= i <= cv.len(),
    ensures
        concat_bytes(cv.take(i)).len() <= concat_bytes(cv).len(),
    decreases cv.len() - i,
{
    if i < cv.len() {
        lemma_concat_len_monotone(cv, i + 1);
        assert(cv.take(i + 1).drop_last() =~= cv.take(i));
    } else {
        assert(cv.take(i) =~= cv);
    }
}

/// Copy a chunk sequence into one contiguous plain buffer.
pub fn flatten_chunks(chunks: &Vec<Vec<u8>>) -> (out: Vec<u8>)
    ensures
        out@ == concat_bytes(chunk_views(chunks@)),
{
    let ghost cv = chunk_views(chunks@);
    let mut out: Vec<u8> = Vec::new();
    let mut i: usize = 0;
    while i < chunks.len()
        invariant
            i <= chunks.len(),
            cv == chunk_views(chunks@),
            out@ == concat_bytes(cv.take(i as int)),
        decreases chunks.len() - i,
    {
        let ghost before = out@;
        out.extend_from_slice(chunks[i].as_slice());
        proof {
            assert forall|k: int| 0 <= k < out@.len() implies out@[k] == (before
                + chunks@[i as int]@)[k] by {
                if k >= before.len() {
                    assert(vstd::pervasive::cloned::<u8>(
                        chunks@[i as int]@[k - before.len()],
                        out@[k],
                    ));
                }
            }
            assert(out@ =~= before + chunks@[i as int]@);
            assert(cv.take(i + 1).drop_last() =~= cv.take(i as int));
            assert(cv.take(i + 1).last() == chunks@[i as int]@);
        }
        i += 1;
    }
    proof {
        assert(cv.take(chunks@.len() as int) =~= cv);
    }
    out
}

/// Copy a plain byte buffer.
pub fn clone_bytes(v: &Vec<u8>) -> (out: Vec<u8>)
    ensures
        out@ == v@,
{
    let out = v.clone();
    proof {
        assert forall|k: int| 0 <= k < out@.len() implies out@[k] == v@[k] by {
            assert(vstd::pervasive::cloned::<u8>(v@[k], out@[k]));
        }
        assert(out@ =~= v@);
    }
    out
}

} // verus!
