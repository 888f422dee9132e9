//! Khmer specialized [`Segmenter`].
//!
//! Wraps icu's dictionary-based word-boundary engine. The engine is built
//! from icu's compiled dictionary data (a read-only binary resource embedded
//! at build time, which includes the Khmer dictionary) on the first call
//! only; the loaded boundary source is cached in the segmenter instance and
//! shared, unchanged, by all later calls and callers.

use crate::segmenter::Segmenter;
use crate::segments::is_partition;
use crate::segments::segments_of;
use crate::segments::spans_from_offsets;
use icu::segmenter::WordSegmenter;
use once_cell::sync::OnceCell;
use vstd::prelude::*;
use vstd::string::StringSliceAdditionalSpecFns;

verus! {

/// The word-boundary offsets icu's dictionary-based word segmenter yields
/// for a UTF-8 text. A fixed function of the bytes alone: every boundary
/// source this crate builds holds the same compiled dictionary data, and the
/// engine is a deterministic computation over that data and the text.
pub uninterp spec fn khmer_break_points(text: Seq<u8>) -> Seq<usize>;

/// Declares icu's `WordSegmenter` (the external boundary-finding engine) so
/// it can stand in fields; opaque to the proofs.
#[verifier::external_type_specification]
#[verifier::external_body]
pub struct ExWordSegmenter(WordSegmenter);

/// Declares once_cell's synchronized `OnceCell` (the exactly-once
/// construction primitive behind lazy loading); opaque to the proofs.
#[verifier::external_type_specification]
#[verifier::external_body]
#[verifier::reject_recursive_types(T)]
pub struct ExOnceCell<T>(OnceCell<T>);

/// A ready Khmer boundary source. Every value holds the word segmenter that
/// [`load_khmer_source`] builds from icu's compiled dictionary data — the
/// module offers no other way to make one — so the boundaries it yields are
/// a function of the input text alone.
struct KhmerSource {
    engine: WordSegmenter,
}

/// Relies on icu's `WordSegmenter::new_dictionary`: builds the
/// dictionary-based word segmenter from the compiled data embedded in the
/// icu crates, which includes the Khmer dictionary. Infallible; a missing or
/// corrupt dictionary would be a build-time packaging defect, not a runtime
/// input error.
#[verifier::external_body]
fn load_khmer_source() -> (r: KhmerSource) {
    KhmerSource { engine: WordSegmenter::new_dictionary() }
}

/// Builds the boundary source; handed to the lazy cell on first use.
fn build_khmer_source() -> (r: KhmerSource) {
    load_khmer_source()
}

/// Relies on icu's `WordSegmenter::segment_utf8`: yields the word-boundary
/// offsets of `text` under the dictionary held by `source`. Deterministic in
/// the dictionary and the text; since every [`KhmerSource`] holds the same
/// compiled dictionary, the result is named `khmer_break_points` of the text
/// alone. Tolerates ill-formed UTF-8, so it never fails on input content.
#[verifier::external_body]
fn khmer_breaks(source: &KhmerSource, text: &[u8]) -> (r: Vec<usize>)
    ensures
        r@ == khmer_break_points(text@),
{
    source.engine.segment_utf8(text).collect()
}

/// Khmer specialized [`Segmenter`], backed by icu's dictionary-based
/// word-boundary engine.
///
/// The dictionary is loaded lazily: constructing a `KhmerSegmenter` does no
/// work, the first segmentation call builds the boundary source exactly
/// once, and every later call on the instance reuses it unchanged.
pub struct KhmerSegmenter {
    source: OnceCell<KhmerSource>,
}

impl KhmerSegmenter {
    /// A Khmer segmenter whose dictionary is not yet loaded.
    pub fn new() -> (r: KhmerSegmenter) {
        KhmerSegmenter { source: empty_source_cell() }
    }

    /// Splits `text` into word spans, as [`Segmenter::segment_bytes`] does on
    /// its UTF-8 bytes: byte ranges `(start, end)` into `text`, in strictly
    /// increasing order, partitioning the whole of it, empty exactly when
    /// `text` is empty.
    pub fn segment_str(&self, text: &str) -> (r: Vec<(usize, usize)>)
        ensures
            r@ == segments_of(
                khmer_break_points(text.spec_bytes()),
                text.spec_bytes().len() as usize,
            ),
            is_partition(r@, text.spec_bytes().len() as usize),
    {
        self.segment_bytes(text.as_bytes())
    }

    /// Relies on once_cell's `OnceCell::get_or_init`: returns the cached
    /// boundary source, building it on the first call only; under concurrent
    /// first callers exactly one build runs, all callers get that one value,
    /// and the cell never changes again.
    #[verifier::external_body]
    fn source(&self) -> (r: &KhmerSource) {
        self.source.get_or_init(build_khmer_source)
    }
}

/// Relies on once_cell's `OnceCell::new`: a fresh, empty cell.
#[verifier::external_body]
fn empty_source_cell() -> (r: OnceCell<KhmerSource>) {
    OnceCell::new()
}

impl Segmenter for KhmerSegmenter {
    /// The Khmer strategy's boundaries: icu's dictionary-based break points.
    open spec fn boundaries(&self, text: Seq<u8>) -> Seq<usize> {
        khmer_break_points(text)
    }

    fn segment_bytes(&self, text: &[u8]) -> (r: Vec<(usize, usize)>) {
        let source = self.source();
        let cuts = khmer_breaks(source, text);
        spans_from_offsets(&cuts, text.len())
    }
}

} // verus!
