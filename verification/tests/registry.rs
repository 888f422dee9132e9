use script_segmenter::Language;
use script_segmenter::Script;
use script_segmenter::SegmenterRegistry;
use script_segmenter::Segmenter;
use script_segmenter::SelectedSegmenter;

#[test]
fn specialized_pair_gets_khmer_segmenter() {
    let registry = SegmenterRegistry::new();
    let selected = registry.lookup(Script::Khmer, Language::Khm);
    assert!(matches!(selected, SelectedSegmenter::Khmer(_)));
}

#[test]
fn unspecialized_pairs_get_the_fallback() {
    let registry = SegmenterRegistry::new();
    let pairs = [
        (Script::Latin, Language::Eng),
        (Script::Latin, Language::Fra),
        (Script::Cyrillic, Language::Rus),
        (Script::Greek, Language::Ell),
        (Script::Thai, Language::Tha),
        (Script::Khmer, Language::Eng),
        (Script::Latin, Language::Khm),
        (Script::Other, Language::Other),
    ];
    for (script, language) in pairs {
        let selected = registry.lookup(script, language);
        assert!(matches!(selected, SelectedSegmenter::Whitespace(_)));
    }
}

#[test]
fn dispatch_routes_khmer_text_to_the_dictionary() {
    let registry = SegmenterRegistry::new();
    let text = "សួស្តីពិភពលោក";
    let spans = registry.segment_bytes(Script::Khmer, Language::Khm, text.as_bytes());
    assert_eq!(spans.len(), 2);
    assert_eq!(&text[spans[0].0..spans[0].1], "សួស្តី");
    assert_eq!(&text[spans[1].0..spans[1].1], "ពិភពលោក");
}

#[test]
fn dispatch_routes_latin_text_to_the_fallback() {
    let registry = SegmenterRegistry::new();
    let text = "Hello World";
    let spans = registry.segment_bytes(Script::Latin, Language::Eng, text.as_bytes());
    assert_eq!(spans, vec![(0, 5), (5, 6), (6, 11)]);
}

#[test]
fn dispatch_through_selected_segmenter_interface() {
    let registry = SegmenterRegistry::new();
    let selected = registry.lookup(Script::Latin, Language::Eng);
    let spans = selected.segment_bytes(b"a b");
    assert_eq!(spans, vec![(0, 1), (1, 2), (2, 3)]);
}

#[test]
fn dispatch_empty_input_yields_no_spans() {
    let registry = SegmenterRegistry::new();
    assert!(registry.segment_bytes(Script::Khmer, Language::Khm, b"").is_empty());
    assert!(registry.segment_bytes(Script::Latin, Language::Eng, b"").is_empty());
}
