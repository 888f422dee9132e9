//! The adapter core: turning a raw stream of boundary offsets into word
//! segments, and the laws every resulting segment sequence obeys.
//!
//! A segment is a half-open byte range `(start, end)` into a text of `len`
//! bytes. A boundary source hands back offsets in whatever shape it likes;
//! the adapter keeps only the strictly increasing in-range ones and always
//! restores the `0` and `len` sentinels, so the produced segments partition
//! the whole text.

use vstd::prelude::*;

verus! {

/// What it means for a segment sequence to partition a text of `len` bytes:
/// empty exactly when the text is empty, otherwise starting at 0 and ending
/// at `len`, each segment non-empty and in bounds, and each segment starting
/// where the previous one ended.
pub open spec fn is_partition(segs: Seq<(usize, usize)>, len: usize) -> bool {
    &&& (len == 0 ==> segs.len() == 0)
    &&& (len > 0 ==> segs.len() > 0 && segs[0].0 == 0 && segs[segs.len() - 1].1 == len)
    &&& (forall|i: int|
        0 <= i < segs.len() ==> (#[trigger] segs[i]).0 < segs[i].1 && segs[i].1 <= len)
    &&& (forall|i: int| 0 <= i < segs.len() - 1 ==> (#[trigger] segs[i]).1 == segs[i + 1].0)
}

/// The segments produced from the remaining `offsets` once every boundary up
/// to `prev` has been consumed: an offset is accepted as a cut when it lies
/// strictly beyond the previous cut and within the text, and the final
/// segment always runs to `len`.
pub open spec fn segs_from(offsets: Seq<usize>, prev: usize, len: usize) -> Seq<(usize, usize)>
    decreases offsets.len(),
{
    if offsets.len() == 0 {
        if prev < len {
            seq![(prev, len)]
        } else {
            Seq::empty()
        }
    } else {
        let cut = offsets[0];
        if prev < cut && cut <= len {
            seq![(prev, cut)] + segs_from(offsets.drop_first(), cut, len)
        } else {
            segs_from(offsets.drop_first(), prev, len)
        }
    }
}

/// The exact segment sequence the adapter produces for a text of `len` bytes
/// from a raw offset stream: pair up consecutive accepted cuts, with the
/// implicit `0` and `len` sentinels always restored.
pub open spec fn segments_of(offsets: Seq<usize>, len: usize) -> Seq<(usize, usize)> {
    segs_from(offsets, 0, len)
}

/// The concatenation of the byte ranges a segment sequence denotes in `t`.
pub open spec fn concat_segments(t: Seq<u8>, segs: Seq<(usize, usize)>) -> Seq<u8>
    decreases segs.len(),
{
    if segs.len() == 0 {
        Seq::empty()
    } else {
        t.subrange(segs[0].0 as int, segs[0].1 as int) + concat_segments(t, segs.drop_first())
    }
}

proof fn lemma_segs_from_partition(offsets: Seq<usize>, prev: usize, len: usize)
    requires
        prev <= len,
    ensures
        ({
            let r = segs_from(offsets, prev, len);
            &&& (r.len() == 0 <==> prev == len)
            &&& (prev < len ==> r[0].0 == prev && r[r.len() - 1].1 == len)
            &&& (forall|i: int|
                0 <= i < r.len() ==> prev <= (#[trigger] r[i]).0 && r[i].0 < r[i].1 && r[i].1
                    <= len)
            &&& (forall|i: int| 0 <= i < r.len() - 1 ==> (#[trigger] r[i]).1 == r[i + 1].0)
        }),
    decreases offsets.len(),
{
    if offsets.len() == 0 {
    } else {
        let cut = offsets[0];
        let tail = offsets.drop_first();
        let r = segs_from(offsets, prev, len);
        if prev < cut && cut <= len {
            lemma_segs_from_partition(tail, cut, len);
            let rest = segs_from(tail, cut, len);
            assert(r == seq![(prev, cut)] + rest);
            assert(r[0] == (prev, cut));
            assert(forall|i: int| 1 <= i < r.len() ==> r[i] == rest[i - 1]);
        } else {
            lemma_segs_from_partition(tail, prev, len);
        }
    }
}

/// Law: for every raw offset stream and every text length, the adapted
/// segment sequence partitions the text — segments are in bounds, non-empty,
/// adjacent, start at 0 and end at the text's length, and the sequence is
/// empty exactly when the text is.
pub proof fn lemma_segments_partition(offsets: Seq<usize>, len: usize)
    ensures
        is_partition(segments_of(offsets, len), len),
{
    lemma_segs_from_partition(offsets, 0, len);
}

/// Law: in a partition, adjacent segments never overlap and their start
/// offsets strictly increase left to right.
pub proof fn lemma_partition_ordered(segs: Seq<(usize, usize)>, len: usize)
    requires
        is_partition(segs, len),
    ensures
        forall|i: int| 0 <= i < segs.len() - 1 ==> (#[trigger] segs[i]).1 <= segs[i + 1].0,
        forall|i: int| 0 <= i < segs.len() - 1 ==> (#[trigger] segs[i]).0 < segs[i + 1].0,
{
}

/// Law: an empty text yields the empty segment sequence, whatever offsets
/// the boundary source produced.
pub proof fn lemma_empty_input(offsets: Seq<usize>)
    ensures
        segments_of(offsets, 0).len() == 0,
{
    lemma_segments_partition(offsets, 0);
}

proof fn lemma_segs_from_concat(t: Seq<u8>, offsets: Seq<usize>, prev: usize)
    requires
        prev <= t.len(),
        t.len() <= usize::MAX,
    ensures
        concat_segments(t, segs_from(offsets, prev, t.len() as usize)) == t.subrange(
            prev as int,
            t.len() as int,
        ),
    decreases offsets.len(),
{
    let len = t.len() as usize;
    if offsets.len() == 0 {
        if prev < len {
            let single = seq![(prev, len)];
            assert(single.drop_first() =~= Seq::<(usize, usize)>::empty());
            assert(concat_segments(t, single.drop_first()) == Seq::<u8>::empty());
            assert(concat_segments(t, single) =~= t.subrange(prev as int, len as int));
        } else {
            assert(t.subrange(prev as int, len as int) =~= Seq::<u8>::empty());
        }
    } else {
        let cut = offsets[0];
        let tail = offsets.drop_first();
        if prev < cut && cut <= len {
            lemma_segs_from_concat(t, tail, cut);
            let rest = segs_from(tail, cut, len);
            let whole = seq![(prev, cut)] + rest;
            assert(whole.drop_first() =~= rest);
            assert(whole[0] == (prev, cut));
            assert(concat_segments(t, whole) == t.subrange(prev as int, cut as int)
                + concat_segments(t, rest));
            assert(t.subrange(prev as int, cut as int) + t.subrange(cut as int, len as int) =~= t
                .subrange(prev as int, len as int));
        } else {
            lemma_segs_from_concat(t, tail, prev);
        }
    }
}

/// Law (coverage): for every text and every raw offset stream, concatenating
/// the substrings the adapted segments denote reconstructs the text exactly.
pub proof fn lemma_segments_cover(t: Seq<u8>, offsets: Seq<usize>)
    requires
        t.len() <= usize::MAX,
    ensures
        concat_segments(t, segments_of(offsets, t.len() as usize)) == t,
{
    lemma_segs_from_concat(t, offsets, 0);
    assert(t.subrange(0, t.len() as int) =~= t);
}

/// Law: two calls on the same boundary offsets and the same text length give
/// the same segment sequence — a segmenter whose contract pins its result to
/// `segments_of` of its strategy's boundaries is idempotent across calls.
pub proof fn lemma_repeat_calls_agree(
    r1: Seq<(usize, usize)>,
    r2: Seq<(usize, usize)>,
    offsets: Seq<usize>,
    len: usize,
)
    requires
        r1 == segments_of(offsets, len),
        r2 == segments_of(offsets, len),
    ensures
        r1 == r2,
{
}

/// Adapter core: converts a boundary source's raw offset stream into word
/// segments for a text of `len` bytes. Offsets that are out of range, or not
/// strictly beyond the previous accepted one, are dropped, and the `0` and
/// `len` sentinels are restored, so the result always partitions the text.
pub fn spans_from_offsets(offsets: &Vec<usize>, len: usize) -> (r: Vec<(usize, usize)>)
    ensures
        r@ == segments_of(offsets@, len),
        is_partition(r@, len),
{
    let mut r: Vec<(usize, usize)> = Vec::new();
    let mut prev: usize = 0;
    let mut i: usize = 0;
    proof {
        assert(offsets@.skip(0) =~= offsets@);
    }
    while i < offsets.len()
        invariant
            i <= offsets@.len(),
            prev <= len,
            segments_of(offsets@, len) == r@ + segs_from(offsets@.skip(i as int), prev, len),
        decreases offsets@.len() - i,
    {
        let cut = offsets[i];
        proof {
            assert(offsets@.skip(i as int)[0] == offsets@[i as int]);
            assert(offsets@.skip(i as int).drop_first() =~= offsets@.skip(i as int + 1));
        }
        if prev < cut && cut <= len {
            proof {
                assert(r@ + (seq![(prev, cut)] + segs_from(offsets@.skip(i as int + 1), cut, len))
                    =~= (r@ + seq![(prev, cut)]) + segs_from(
                    offsets@.skip(i as int + 1),
                    cut,
                    len,
                ));
            }
            r.push((prev, cut));
            prev = cut;
        }
        i = i + 1;
    }
    proof {
        assert(offsets@.skip(offsets@.len() as int) =~= Seq::<usize>::empty());
    }
    if prev < len {
        proof {
            assert(r@ + seq![(prev, len)] =~= r@.push((prev, len)));
        }
        r.push((prev, len));
    }
    proof {
        lemma_segments_partition(offsets@, len);
    }
    r
}

} // verus!
