//! The uniform interface every segmentation strategy implements.

use crate::segments::is_partition;
use crate::segments::segments_of;
use vstd::prelude::*;

verus! {

/// A segmentation strategy: one operation turning a text into an ordered
/// sequence of word spans.
///
/// Each strategy names the boundary offsets it stands for as a spec
/// function, and its `segment_bytes` must return exactly the segments the
/// adapter derives from those boundaries. The interface puts no constraint
/// on the algorithm behind `boundaries` — dictionary lookup, fixed rules or
/// anything else — but every implementation returns spans that partition the
/// input left to right, with no gaps or overlaps, and an empty sequence for
/// empty input.
pub trait Segmenter {
    /// The boundary offsets this strategy yields for `text`.
    spec fn boundaries(&self, text: Seq<u8>) -> Seq<usize>;

    /// Splits `text` into word spans `(start, end)`, in strictly increasing
    /// order, covering the whole text. The input text is never mutated; all
    /// spans are byte ranges within it.
    fn segment_bytes(&self, text: &[u8]) -> (r: Vec<(usize, usize)>)
        ensures
            r@ == segments_of(self.boundaries(text@), text@.len() as usize),
            is_partition(r@, text@.len() as usize),
    ;
}

} // verus!
