use script_segmenter::spans_from_offsets;

#[test]
fn pairs_consecutive_offsets_with_sentinels_present() {
    let offsets = vec![0, 5, 6, 11];
    assert_eq!(spans_from_offsets(&offsets, 11), vec![(0, 5), (5, 6), (6, 11)]);
}

#[test]
fn restores_missing_start_sentinel() {
    let offsets = vec![3];
    assert_eq!(spans_from_offsets(&offsets, 5), vec![(0, 3), (3, 5)]);
}

#[test]
fn restores_missing_end_sentinel() {
    let offsets = vec![0, 2];
    assert_eq!(spans_from_offsets(&offsets, 5), vec![(0, 2), (2, 5)]);
}

#[test]
fn no_offsets_yield_whole_text_span() {
    let offsets = vec![];
    assert_eq!(spans_from_offsets(&offsets, 4), vec![(0, 4)]);
}

#[test]
fn empty_text_yields_no_spans() {
    assert_eq!(spans_from_offsets(&vec![], 0), vec![]);
    assert_eq!(spans_from_offsets(&vec![0], 0), vec![]);
    assert_eq!(spans_from_offsets(&vec![3, 7], 0), vec![]);
}

#[test]
fn out_of_range_offsets_are_dropped() {
    let offsets = vec![7, 2];
    assert_eq!(spans_from_offsets(&offsets, 5), vec![(0, 2), (2, 5)]);
}

#[test]
fn non_increasing_offsets_are_dropped() {
    let offsets = vec![2, 2, 1, 4];
    assert_eq!(spans_from_offsets(&offsets, 5), vec![(0, 2), (2, 4), (4, 5)]);
}

#[test]
fn single_offset_at_length_gives_one_span() {
    let offsets = vec![5];
    assert_eq!(spans_from_offsets(&offsets, 5), vec![(0, 5)]);
}
