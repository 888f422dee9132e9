use script_segmenter::KhmerSegmenter;
use script_segmenter::Segmenter;

const TEXT: &str = "សួស្តីពិភពលោក";
const SEGMENTED: &[&str] = &["សួស្តី", "ពិភពលោក"];

#[test]
fn khmer_example_two_spans() {
    let segmenter = KhmerSegmenter::new();
    let spans = segmenter.segment_str(TEXT);
    assert_eq!(spans.len(), 2);
    assert_eq!(&TEXT[spans[0].0..spans[0].1], SEGMENTED[0]);
    assert_eq!(&TEXT[spans[1].0..spans[1].1], SEGMENTED[1]);
}

#[test]
fn khmer_example_concatenation_reconstructs_input() {
    let segmenter = KhmerSegmenter::new();
    let spans = segmenter.segment_str(TEXT);
    let mut joined = String::new();
    for &(start, end) in &spans {
        joined.push_str(&TEXT[start..end]);
    }
    assert_eq!(joined, TEXT);
}

#[test]
fn khmer_example_spans_ordered_and_adjacent() {
    let segmenter = KhmerSegmenter::new();
    let spans = segmenter.segment_str(TEXT);
    assert_eq!(spans[0].0, 0);
    assert_eq!(spans[spans.len() - 1].1, TEXT.len());
    for window in spans.windows(2) {
        assert!(window[0].1 <= window[1].0);
        assert!(window[0].0 < window[1].0);
        assert_eq!(window[0].1, window[1].0);
    }
    for &(start, end) in &spans {
        assert!(start < end);
    }
}

#[test]
fn khmer_empty_input_yields_no_spans() {
    let segmenter = KhmerSegmenter::new();
    assert!(segmenter.segment_str("").is_empty());
    assert!(segmenter.segment_bytes(b"").is_empty());
}

#[test]
fn khmer_repeat_calls_identical() {
    let segmenter = KhmerSegmenter::new();
    let first = segmenter.segment_str(TEXT);
    for _ in 0..5 {
        assert_eq!(segmenter.segment_str(TEXT), first);
    }
}

#[test]
fn khmer_single_word_one_span() {
    let segmenter = KhmerSegmenter::new();
    let word = "សួស្តី";
    let spans = segmenter.segment_str(word);
    assert_eq!(spans, vec![(0, word.len())]);
}

#[test]
fn khmer_handles_ill_formed_bytes() {
    let segmenter = KhmerSegmenter::new();
    let bytes: &[u8] = &[0xFF, 0xFE, 0x61];
    let spans = segmenter.segment_bytes(bytes);
    assert_eq!(spans[0].0, 0);
    assert_eq!(spans[spans.len() - 1].1, bytes.len());
    for window in spans.windows(2) {
        assert_eq!(window[0].1, window[1].0);
    }
}
