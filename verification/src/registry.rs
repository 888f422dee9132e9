//! The segmenter registry: routes a (script, language) pair to the strategy
//! designated for it. Built once from a fixed table, read-only thereafter;
//! pairs without a specialized entry get the documented whitespace fallback,
//! so a lookup never fails.

use crate::khmer::KhmerSegmenter;
use crate::khmer::khmer_break_points;
use crate::script::Language;
use crate::script::Script;
use crate::segmenter::Segmenter;
use crate::segments::is_partition;
use crate::segments::segments_of;
use crate::whitespace::WhitespaceSegmenter;
use crate::whitespace::space_cuts;
use vstd::prelude::*;

verus! {

/// Whether the registry's fixed table holds a specialized entry for the
/// pair. The one specialized entry is the Khmer segmenter for Khmer-script
/// Khmer-language text.
pub open spec fn spec_is_specialized(script: Script, language: Language) -> bool {
    script == Script::Khmer && language == Language::Khm
}

/// The boundary offsets the registry's designated strategy yields for
/// `text`: the Khmer dictionary's break points for a specialized pair, the
/// whitespace fallback's cuts for every other pair.
pub open spec fn registry_boundaries(script: Script, language: Language, text: Seq<u8>) -> Seq<
    usize,
> {
    if spec_is_specialized(script, language) {
        khmer_break_points(text)
    } else {
        space_cuts(text)
    }
}

/// The strategy a lookup designated: a reference into the registry's fixed
/// table. Implements [`Segmenter`] by delegating to the referenced strategy.
pub enum SelectedSegmenter<'a> {
    Khmer(&'a KhmerSegmenter),
    Whitespace(&'a WhitespaceSegmenter),
}

impl<'a> Segmenter for SelectedSegmenter<'a> {
    /// The designated strategy's own boundaries.
    open spec fn boundaries(&self, text: Seq<u8>) -> Seq<usize> {
        match self {
            SelectedSegmenter::Khmer(k) => k.boundaries(text),
            SelectedSegmenter::Whitespace(w) => w.boundaries(text),
        }
    }

    fn segment_bytes(&self, text: &[u8]) -> (r: Vec<(usize, usize)>) {
        match self {
            SelectedSegmenter::Khmer(k) => k.segment_bytes(text),
            SelectedSegmenter::Whitespace(w) => w.segment_bytes(text),
        }
    }
}

/// The registry: owns one instance of each registered strategy and maps
/// (script, language) pairs to them. Built once at process start, read-only
/// thereafter — no runtime registration or removal.
pub struct SegmenterRegistry {
    khmer: KhmerSegmenter,
    fallback: WhitespaceSegmenter,
}

impl SegmenterRegistry {
    /// Builds the registry's fixed table. The dictionary behind the Khmer
    /// entry is not loaded here; its strategy loads it on first use.
    pub fn new() -> (r: SegmenterRegistry) {
        SegmenterRegistry { khmer: KhmerSegmenter::new(), fallback: WhitespaceSegmenter::new() }
    }

    /// Selects the strategy designated for the pair: the specialized entry
    /// where the table has one, the documented whitespace fallback for every
    /// other pair. Total — a lookup never fails.
    pub fn lookup(&self, script: Script, language: Language) -> (r: SelectedSegmenter<'_>)
        ensures
            spec_is_specialized(script, language) ==> r is Khmer,
            !spec_is_specialized(script, language) ==> r is Whitespace,
            forall|text: Seq<u8>|
                #[trigger] r.boundaries(text) == registry_boundaries(script, language, text),
    {
        if script == Script::Khmer && language == Language::Khm {
            SelectedSegmenter::Khmer(&self.khmer)
        } else {
            SelectedSegmenter::Whitespace(&self.fallback)
        }
    }

    /// Routes `text` to the strategy designated for the pair and returns its
    /// word spans: byte ranges `(start, end)` into `text`, in strictly
    /// increasing order, partitioning the whole of it, empty exactly when
    /// `text` is empty.
    pub fn segment_bytes(&self, script: Script, language: Language, text: &[u8]) -> (r: Vec<
        (usize, usize),
    >)
        ensures
            r@ == segments_of(
                registry_boundaries(script, language, text@),
                text@.len() as usize,
            ),
            is_partition(r@, text@.len() as usize),
    {
        let selected = self.lookup(script, language);
        selected.segment_bytes(text)
    }
}

} // verus!
