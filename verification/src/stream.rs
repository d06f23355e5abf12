//! The streaming decoder, seen over a whole stream: however the bytes of a
//! run of frames are cut into pieces, feeding the pieces one by one and
//! reading frames after each yields the frames, in order, and leaves
//! nothing behind.

use vstd::prelude::*;
use crate::codec::{decode_spec, drain_spec, encode_spec, Decoded, Drained};
use crate::packet::Frame;
use crate::roundtrip::{
    lemma_decode_encode,
    lemma_decode_extends,
    lemma_encoded_len,
    lemma_prefix_incomplete,
    lemma_round_trip,
    within_cap,
};

verus! {

/// The bytes of a run of frames, one frame after the other.
pub open spec fn encode_all(frames: Seq<Frame>) -> Seq<u8>
    decreases frames.len(),
{
    if frames.len() == 0 {
        Seq::empty()
    } else {
        encode_spec(frames[0]) + encode_all(frames.drop_first())
    }
}

/// The pieces of a stream, joined in order.
pub open spec fn join(chunks: Seq<Seq<u8>>) -> Seq<u8>
    decreases chunks.len(),
{
    if chunks.len() == 0 {
        Seq::empty()
    } else {
        chunks[0] + join(chunks.drop_first())
    }
}

/// Feeds the pieces to a buffer one by one and reads frames after each:
/// the frames read in all, what the buffer holds in the end, and whether
/// reading met malformed bytes, at which it stops.
pub open spec fn feed_all(buffer: Seq<u8>, chunks: Seq<Seq<u8>>) -> Drained
    decreases chunks.len(),
{
    if chunks.len() == 0 {
        Drained { frames: Seq::empty(), rest: buffer, failed: false }
    } else {
        let now = drain_spec(buffer + chunks[0]);
        if now.failed {
            now
        } else {
            let later = feed_all(now.rest, chunks.drop_first());
            Drained { frames: now.frames + later.frames, rest: later.rest, failed: later.failed }
        }
    }
}

/// Whether every frame of a run can be encoded and read back.
pub open spec fn all_readable(frames: Seq<Frame>) -> bool {
    forall|i: int| 0 <= i < frames.len() ==> (#[trigger] frames[i]).wf() && within_cap(frames[i])
}

/// What stays in the buffer after reading is settled: it is the start of
/// an incomplete frame, or of a malformed one where reading failed.
pub proof fn lemma_rest_is_settled(s: Seq<u8>)
    ensures
        drain_spec(s).failed ==> decode_spec(drain_spec(s).rest) is Malformed,
        !drain_spec(s).failed ==> decode_spec(drain_spec(s).rest) is Incomplete,
    decreases s.len(),
{
    match decode_spec(s) {
        Decoded::Complete { frame, consumed } => {
            if 0 < consumed <= s.len() {
                lemma_rest_is_settled(s.skip(consumed));
            } else {
                crate::codec::lemma_consumed_bounds(s);
            }
        },
        _ => {},
    }
}

/// Reading frames off `a` followed by `b` is reading them off `a` and then
/// going on with what `a` left behind, followed by `b`. Where `a` holds
/// malformed bytes, so does `a` followed by `b`.
pub proof fn lemma_drain_append(a: Seq<u8>, b: Seq<u8>)
    ensures
        drain_spec(a).failed ==> drain_spec(a + b) == (Drained {
            frames: drain_spec(a).frames,
            rest: drain_spec(a).rest + b,
            failed: true,
        }),
        !drain_spec(a).failed ==> drain_spec(a + b) == (Drained {
            frames: drain_spec(a).frames + drain_spec(drain_spec(a).rest + b).frames,
            rest: drain_spec(drain_spec(a).rest + b).rest,
            failed: drain_spec(drain_spec(a).rest + b).failed,
        }),
    decreases a.len(),
{
    match decode_spec(a) {
        Decoded::Complete { frame, consumed } => {
            crate::codec::lemma_consumed_bounds(a);
            lemma_decode_extends(a, b);
            assert((a + b).skip(consumed) =~= a.skip(consumed) + b);
            lemma_drain_append(a.skip(consumed), b);
            let tail = drain_spec(a.skip(consumed));
            if !tail.failed {
                let after = drain_spec(tail.rest + b);
                assert(seq![frame] + (tail.frames + after.frames) =~= (seq![frame] + tail.frames)
                    + after.frames);
            }
        },
        Decoded::Incomplete => {
            let after = drain_spec(a + b);
            assert(Seq::<Frame>::empty() + after.frames =~= after.frames);
        },
        Decoded::Malformed => {
            lemma_decode_extends(a, b);
        },
    }
}

/// Reading frames off the bytes of a run of frames yields the run, in
/// order, and leaves nothing behind.
pub proof fn lemma_drain_encode_all(frames: Seq<Frame>)
    requires
        all_readable(frames),
    ensures
        drain_spec(encode_all(frames)) == (Drained {
            frames,
            rest: Seq::empty(),
            failed: false,
        }),
    decreases frames.len(),
{
    if frames.len() == 0 {
        assert(frames =~= Seq::<Frame>::empty());
        assert(decode_spec(encode_all(frames)) is Incomplete);
    } else {
        let first = frames[0];
        let others = frames.drop_first();
        let e = encode_spec(first);
        let s = encode_all(frames);
        assert(first.wf() && within_cap(first));
        assert forall|i: int| 0 <= i < others.len() implies (#[trigger] others[i]).wf()
            && within_cap(others[i]) by {
            assert(others[i] == frames[i + 1]);
        }
        lemma_decode_encode(first, encode_all(others));
        lemma_encoded_len(first);
        assert(s.skip(e.len() as int) =~= encode_all(others));
        lemma_drain_encode_all(others);
        assert(seq![first] + others =~= frames);
        assert(decode_spec(s) == (Decoded::Complete { frame: first, consumed: e.len() as int }));
        assert(0 < e.len() <= s.len());
        assert(drain_spec(s.skip(e.len() as int)) == drain_spec(encode_all(others)));
    }
}

/// Feeding a stream in pieces and reading after each piece yields what
/// reading the whole stream at once yields, where the buffer starts
/// settled and the stream holds no malformed bytes.
pub proof fn lemma_feed_all_is_drain(buffer: Seq<u8>, chunks: Seq<Seq<u8>>)
    requires
        decode_spec(buffer) is Incomplete,
        !drain_spec(buffer + join(chunks)).failed,
    ensures
        feed_all(buffer, chunks) == drain_spec(buffer + join(chunks)),
    decreases chunks.len(),
{
    if chunks.len() == 0 {
        assert(buffer + join(chunks) =~= buffer);
    } else {
        let first = chunks[0];
        let others = chunks.drop_first();
        assert(buffer + join(chunks) =~= (buffer + first) + join(others));
        lemma_drain_append(buffer + first, join(others));
        let now = drain_spec(buffer + first);
        lemma_rest_is_settled(buffer + first);
        lemma_feed_all_is_drain(now.rest, others);
    }
}

/// The streaming decoder returns the frames that were sent: for any run
/// of frames and any way of cutting their bytes into pieces, feeding the
/// pieces in order to an empty buffer yields the frames, in order and with
/// none added, and leaves the buffer empty.
pub proof fn lemma_streaming(frames: Seq<Frame>, chunks: Seq<Seq<u8>>)
    requires
        all_readable(frames),
        join(chunks) == encode_all(frames),
    ensures
        feed_all(Seq::empty(), chunks) == (Drained { frames, rest: Seq::empty(), failed: false }),
{
    lemma_drain_encode_all(frames);
    assert(Seq::<u8>::empty() + join(chunks) =~= join(chunks));
    lemma_feed_all_is_drain(Seq::empty(), chunks);
}

/// A frame that arrives in two parts is read when the second part is
/// there and not before: reading after the first part yields no frame and
/// keeps the part, and reading after the second yields the frame.
pub proof fn lemma_partial_frame(f: Frame, k: int)
    requires
        f.wf(),
        within_cap(f),
        0 <= k < encode_spec(f).len(),
    ensures
        drain_spec(encode_spec(f).subrange(0, k)) == (Drained {
            frames: Seq::empty(),
            rest: encode_spec(f).subrange(0, k),
            failed: false,
        }),
        drain_spec(
            encode_spec(f).subrange(0, k) + encode_spec(f).subrange(
                k,
                encode_spec(f).len() as int,
            ),
        ) == (Drained { frames: seq![f], rest: Seq::empty(), failed: false }),
{
    let e = encode_spec(f);
    lemma_prefix_incomplete(f, k);
    assert(e.subrange(0, k) + e.subrange(k, e.len() as int) =~= e);
    let one = seq![f];
    assert(all_readable(one));
    assert(one.drop_first() =~= Seq::<Frame>::empty());
    assert(encode_all(one.drop_first()) =~= Seq::<u8>::empty());
    assert(encode_all(one) =~= e);
    lemma_drain_encode_all(one);
}

/// Malformed bytes at the front of the buffer make reading fail at once,
/// with no frame read and the buffer as it was.
pub proof fn lemma_malformed_fails(s: Seq<u8>)
    requires
        decode_spec(s) is Malformed,
    ensures
        drain_spec(s) == (Drained { frames: Seq::empty(), rest: s, failed: true }),
{
}

} // verus!
