//! The rule-based fallback strategy: cuts at every transition between ASCII
//! whitespace and non-whitespace, so each maximal run of either kind becomes
//! one segment. The registry hands it every (script, language) pair that has
//! no specialized entry.

use crate::segmenter::Segmenter;
use crate::segments::is_partition;
use crate::segments::segments_of;
use crate::segments::spans_from_offsets;
use vstd::prelude::*;

verus! {

/// ASCII whitespace: space, tab, line feed, form feed, carriage return.
pub open spec fn is_space(b: u8) -> bool {
    b == 32 || b == 9 || b == 10 || b == 12 || b == 13
}

/// The cuts of the fallback strategy among the first `n` bytes of `t`: every
/// offset `c` with `0 < c < n` where the byte class (whitespace or not)
/// changes, in increasing order.
pub open spec fn space_cuts_upto(t: Seq<u8>, n: int) -> Seq<usize>
    decreases n,
{
    if n <= 1 {
        Seq::empty()
    } else {
        space_cuts_upto(t, n - 1) + (if is_space(t[n - 2]) != is_space(t[n - 1]) {
            seq![(n - 1) as usize]
        } else {
            Seq::empty()
        })
    }
}

/// The boundary offsets of the fallback strategy for the whole of `t`.
pub open spec fn space_cuts(t: Seq<u8>) -> Seq<usize> {
    space_cuts_upto(t, t.len() as int)
}

/// Generic whitespace segmenter: the documented fallback [`Segmenter`] for
/// every (script, language) pair without a specialized entry. Purely
/// rule-based; needs no dictionary and no initialization.
pub struct WhitespaceSegmenter;

impl WhitespaceSegmenter {
    pub fn new() -> (r: WhitespaceSegmenter) {
        WhitespaceSegmenter
    }
}

fn space_cut_offsets(text: &[u8]) -> (r: Vec<usize>)
    ensures
        r@ == space_cuts(text@),
{
    let mut r: Vec<usize> = Vec::new();
    let mut i: usize = 1;
    while i < text.len()
        invariant
            1 <= i,
            i <= text@.len() || (text@.len() <= 1 && i == 1),
            r@ == space_cuts_upto(text@, i as int),
        decreases text@.len() - i,
    {
        let prev_space = is_space_byte(text[i - 1]);
        let cur_space = is_space_byte(text[i]);
        if prev_space != cur_space {
            r.push(i);
            proof {
                assert(r@ =~= space_cuts_upto(text@, i as int) + seq![i]);
            }
        } else {
            proof {
                assert(r@ =~= space_cuts_upto(text@, i as int) + Seq::<usize>::empty());
            }
        }
        i = i + 1;
    }
    proof {
        if text@.len() <= 1 {
            assert(space_cuts(text@) =~= Seq::<usize>::empty());
            assert(space_cuts_upto(text@, 1) =~= Seq::<usize>::empty());
        }
    }
    r
}

fn is_space_byte(b: u8) -> (r: bool)
    ensures
        r == is_space(b),
{
    b == 32 || b == 9 || b == 10 || b == 12 || b == 13
}

impl Segmenter for WhitespaceSegmenter {
    /// The fallback's boundaries: the byte-class transitions of the text.
    open spec fn boundaries(&self, text: Seq<u8>) -> Seq<usize> {
        space_cuts(text)
    }

    fn segment_bytes(&self, text: &[u8]) -> (r: Vec<(usize, usize)>) {
        let cuts = space_cut_offsets(text);
        spans_from_offsets(&cuts, text.len())
    }
}

} // verus!
