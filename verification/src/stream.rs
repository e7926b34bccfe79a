//! Streaming transfer accounting.
//!
//! A response body arrives as a sequence of chunks of arbitrary sizes.  The
//! destination receives exactly their concatenation, the progress line's
//! total is set from the declared content length (0 when unknown), its
//! position advances by each chunk's length as the chunk lands, and on
//! completion the line reaches its terminal state.

use crate::progress::ProgressLine;
use vstd::prelude::*;

verus! {

/// The bytes of a sequence of chunks, in arrival order.
pub open spec fn concat_chunks(chunks: Seq<Seq<u8>>) -> Seq<u8>
    decreases chunks.len(),
{
    if chunks.len() == 0 {
        Seq::empty()
    } else {
        concat_chunks(chunks.drop_last()) + chunks.last()
    }
}

/// A prefix of the chunks never holds more bytes than all of them.
proof fn lemma_concat_prefix_le(chunks: Seq<Seq<u8>>, i: int)
    requires
        0 <= i <= chunks.len(),
    ensures
        concat_chunks(chunks.subrange(0, i)).len() <= concat_chunks(chunks).len(),
    decreases chunks.len() - i,
{
    if i == chunks.len() {
        assert(chunks.subrange(0, i) =~= chunks);
    } else {
        let t = chunks.subrange(0, i + 1);
        assert(t.drop_last() =~= chunks.subrange(0, i));
        lemma_concat_prefix_le(chunks, i + 1);
    }
}

/// The total the sink is told at the start of a transfer: the declared
/// content length when one is known, else 0.
pub fn declared_total(content_length: Option<u64>) -> (r: u64)
    ensures
        content_length matches Some(n) ==> r == n,
        content_length is None ==> r == 0,
{
    match content_length {
        Some(n) => n,
        None => 0,
    }
}

/// Streams a whole body: sets the sink's total from the declared length,
/// appends every chunk to the destination in order, advancing the sink by
/// each chunk's byte length, and finishes the sink with `done_message`.
/// The destination ends up byte-identical to the chunks' concatenation and
/// the sink's final position is exactly its length.
#[verifier::loop_isolation(false)]
pub fn stream_chunks(
    chunks: Vec<Vec<u8>>,
    content_length: Option<u64>,
    sink: &mut ProgressLine,
    done_message: String,
) -> (out: Vec<u8>)
    requires
        concat_chunks(chunks@.map_values(|c: Vec<u8>| c@)).len() <= u64::MAX,
    ensures
        out@ == concat_chunks(chunks@.map_values(|c: Vec<u8>| c@)),
        final(sink).position == out@.len(),
        final(sink).total == (match content_length {
            Some(n) => n,
            None => 0u64,
        }),
        final(sink).finished,
        final(sink).message == done_message,
{
    let ghost all = chunks@.map_values(|c: Vec<u8>| c@);
    let total = declared_total(content_length);
    sink.set_total(total);
    sink.set_position(0);
    let n = chunks.len();
    let mut rest = chunks;
    let mut out: Vec<u8> = Vec::new();
    let mut i: usize = 0;
    while i < n
        invariant
            n == all.len(),
            i <= n,
            rest@.map_values(|c: Vec<u8>| c@) =~= all.subrange(i as int, all.len() as int),
            out@ == concat_chunks(all.subrange(0, i as int)),
            sink.position == out@.len(),
            sink.total == total,
            sink.message == old(sink).message,
            sink.finished == old(sink).finished,
        decreases n - i,
    {
        let ghost rold = rest@;
        let mut chunk = rest.remove(0);
        proof {
            assert(rold.map_values(|c: Vec<u8>| c@)[0] == rold[0]@);
            assert(chunk@ == all[i as int]);
            assert forall|k: int| 0 <= k < rest@.len() implies rest@.map_values(|c: Vec<u8>| c@)[k]
                == #[trigger] all.subrange(i + 1, all.len() as int)[k] by {
                assert(rest@[k] == rold[k + 1]);
                assert(rold.map_values(|c: Vec<u8>| c@)[k + 1] == rold[k + 1]@);
                assert(all.subrange(i + 1, all.len() as int)[k] == all[i + 1 + k]);
            }
            assert(rest@.map_values(|c: Vec<u8>| c@) =~= all.subrange(i + 1, all.len() as int));
        }
        let len = chunk.len();
        proof {
            let pre1 = all.subrange(0, i + 1);
            assert(pre1.drop_last() =~= all.subrange(0, i as int));
            assert(pre1.last() == all[i as int]);
            lemma_concat_prefix_le(all, i + 1);
        }
        out.append(&mut chunk);
        sink.advance(len as u64);
        i = i + 1;
    }
    proof {
        assert(all.subrange(0, n as int) =~= all);
    }
    sink.finish(done_message);
    out
}

} // verus!
