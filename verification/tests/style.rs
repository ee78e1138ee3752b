use dirplayer::style::{string_to_styled_spans, string_to_styled_string, string_to_styled_text};

#[test]
fn string_to_styled_spans_test() {
    assert_eq!(
        string_to_styled_string(&"aaaaaa".to_string(), &vec![1, 3, 4]),
        "a\u{1b}[33m\u{1b}[0ma\u{1b}[33m\u{1b}[0m\u{1b}[33m\u{1b}[0ma"
    );

    assert_eq!(
        string_to_styled_string(&"bb".to_string(), &vec![1, 3, 4]),
        ""
    );

    assert_eq!(
        string_to_styled_string(&"cccccc".to_string(), &vec![]),
        "cccccc"
    );

    assert_eq!(
        string_to_styled_string(&"dddddd".to_string(), &vec![4, 1, 3]),
        "d\u{1b}[33m\u{1b}[0md\u{1b}[33m\u{1b}[0m\u{1b}[33m\u{1b}[0md"
    );
}

fn shape(spans: &[dirplayer::style::StyledSpan]) -> Vec<(String, bool)> {
    spans.iter().map(|span| (span.text.clone(), span.bold)).collect()
}

#[test]
fn styled_spans_cut_at_the_indices() {
    let spans = string_to_styled_spans("abcdef".to_string(), vec![1, 3, 4]);
    assert_eq!(
        shape(&spans),
        vec![
            ("a".to_string(), false),
            ("b".to_string(), true),
            ("c".to_string(), false),
            ("d".to_string(), true),
            ("".to_string(), false),
            ("e".to_string(), true),
            ("f".to_string(), false),
        ]
    );
}

#[test]
fn styled_spans_end_with_the_last_highlight() {
    let spans = string_to_styled_spans("abc".to_string(), vec![2]);
    assert_eq!(
        shape(&spans),
        vec![("ab".to_string(), false), ("c".to_string(), true)]
    );
}

#[test]
fn styled_spans_out_of_bounds_give_one_empty_span() {
    let spans = string_to_styled_spans("bb".to_string(), vec![1, 3, 4]);
    assert_eq!(shape(&spans), vec![("".to_string(), false)]);
}

#[test]
fn styled_spans_of_empty_text() {
    assert_eq!(shape(&string_to_styled_spans(String::new(), vec![])), vec![]);
    assert_eq!(
        shape(&string_to_styled_spans(String::new(), vec![0])),
        vec![("".to_string(), false)]
    );
}

#[test]
fn styled_spans_take_an_index_once() {
    let spans = string_to_styled_spans("abc".to_string(), vec![1, 1]);
    assert_eq!(
        shape(&spans),
        vec![
            ("a".to_string(), false),
            ("b".to_string(), true),
            ("c".to_string(), false),
        ]
    );
}

#[test]
fn styled_text_has_one_span_for_each_character() {
    let line = string_to_styled_text("héllo", &[1, 4]);
    assert_eq!(
        shape(&line),
        vec![
            ("h".to_string(), false),
            ("é".to_string(), true),
            ("l".to_string(), false),
            ("l".to_string(), false),
            ("o".to_string(), true),
        ]
    );
}

#[test]
fn styled_text_takes_the_indices_in_their_sequence() {
    let line = string_to_styled_text("abcd", &[2, 0]);
    assert_eq!(
        shape(&line),
        vec![
            ("a".to_string(), false),
            ("b".to_string(), false),
            ("c".to_string(), true),
            ("d".to_string(), false),
        ]
    );
}
