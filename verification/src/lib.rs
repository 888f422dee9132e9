//! Script-aware word segmentation.
//!
//! Splits raw text, tagged with a writing script and a language, into an
//! ordered sequence of word spans. A registry routes each (script, language)
//! pair to a segmentation strategy; dictionary-backed strategies adapt an
//! external boundary-finding engine, turning its raw offset stream into
//! contiguous, non-overlapping spans that cover the whole input.

mod khmer;
mod registry;
mod script;
mod segmenter;
mod segments;
mod whitespace;

pub use khmer::KhmerSegmenter;
pub use khmer::khmer_break_points;
pub use registry::SegmenterRegistry;
pub use registry::SelectedSegmenter;
pub use registry::registry_boundaries;
pub use registry::spec_is_specialized;
pub use script::Language;
pub use script::Script;
pub use segmenter::Segmenter;
pub use whitespace::WhitespaceSegmenter;
pub use whitespace::is_space;
pub use whitespace::space_cuts;
pub use whitespace::space_cuts_upto;
pub use segments::is_partition;
pub use segments::segs_from;
pub use segments::segments_of;
pub use segments::concat_segments;
pub use segments::lemma_segments_partition;
pub use segments::lemma_partition_ordered;
pub use segments::lemma_empty_input;
pub use segments::lemma_segments_cover;
pub use segments::lemma_repeat_calls_agree;
pub use segments::spans_from_offsets;
