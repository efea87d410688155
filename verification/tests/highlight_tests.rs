use logr::highlight::{
    compose, highlight_line, line_matches_patterns, pattern_color, MatchRange, Span,
};
use logr::pattern::build_pattern;
use ratatui::style::{Color, Style};

fn patterns_of(texts: &[&str]) -> Vec<logr::pattern::Pattern> {
    texts
        .iter()
        .map(|t| build_pattern(t.to_string(), true).expect("pattern build failed"))
        .collect()
}

fn concat_bytes(spans: &[Span]) -> Vec<u8> {
    let mut out = Vec::new();
    for s in spans {
        out.extend_from_slice(&s.text);
    }
    out
}

#[test]
fn highlight_earlier_pattern_wins_overlap() {
    let patterns = patterns_of(&["aa", "aaa"]);
    let line = b"baaab".to_vec();
    let spans = highlight_line(&line, &patterns);

    assert_eq!(concat_bytes(&spans), b"baaab".to_vec());
    let expected: Vec<(&[u8], Option<usize>)> = vec![
        (b"b", None),
        (b"aa", Some(0)),
        (b"a", Some(1)),
        (b"b", None),
    ];
    assert_eq!(spans.len(), expected.len());
    for (span, (text, color)) in spans.iter().zip(expected.iter()) {
        assert_eq!(span.text.as_slice(), *text);
        assert_eq!(span.color, *color);
    }
}

#[test]
fn highlight_preserves_plain_text() {
    let patterns = patterns_of(&["l+", "o", "nomatch"]);
    let line = b"hello world".to_vec();
    let spans = highlight_line(&line, &patterns);
    assert_eq!(concat_bytes(&spans), b"hello world".to_vec());

    let no_patterns: Vec<logr::pattern::Pattern> = Vec::new();
    let spans = highlight_line(&line, &no_patterns);
    assert_eq!(concat_bytes(&spans), b"hello world".to_vec());
    assert!(spans.iter().all(|s| s.color.is_none()));
}

#[test]
fn highlight_spans_partition_without_overlap() {
    let patterns = patterns_of(&["ell", "lo", "wor"]);
    let line = b"hello world".to_vec();
    let spans = highlight_line(&line, &patterns);

    let total: usize = spans.iter().map(|s| s.text.len()).sum();
    assert_eq!(total, line.len());
    assert_eq!(concat_bytes(&spans), line);
}

#[test]
fn highlight_strips_ansi_escapes_and_keeps_style() {
    let patterns = patterns_of(&["ell"]);
    let line = b"\x1b[31mhello\x1b[0m".to_vec();
    let spans = highlight_line(&line, &patterns);

    assert_eq!(concat_bytes(&spans), b"hello".to_vec());
    assert_eq!(spans[0].text.as_slice(), b"h");
    assert_eq!(spans[0].style, Style::default().fg(Color::Red));
    assert!(spans[0].color.is_none());
    assert_eq!(spans[1].text.as_slice(), b"ell");
    assert_eq!(spans[1].style, Style::default().fg(Color::Red));
    assert_eq!(spans[1].color, Some(0));
    assert_eq!(spans[2].text.as_slice(), b"o");
    assert!(spans[2].color.is_none());
}

#[test]
fn highlight_invalid_utf8_never_panics() {
    let patterns = patterns_of(&["a"]);
    let line = vec![0xff, b'a'];
    let spans = highlight_line(&line, &patterns);
    // The decoder cannot represent undecodable bytes; the line degrades to
    // no visible text rather than failing.
    assert_eq!(concat_bytes(&spans), Vec::<u8>::new());
    assert!(spans.iter().all(|s| s.color.is_none()));
}

#[test]
fn compose_sweeps_sorted_ranges() {
    let base = vec![Span {
        text: b"abcdef".to_vec(),
        style: Style::default(),
        color: None,
    }];
    let ranges = vec![
        MatchRange {
            start: 0,
            end: 3,
            index: 1,
        },
        MatchRange {
            start: 1,
            end: 5,
            index: 0,
        },
    ];
    let out = compose(&base, &ranges, 6);

    let expected: Vec<(&[u8], Option<usize>)> =
        vec![(b"abc", Some(1)), (b"de", Some(0)), (b"f", None)];
    assert_eq!(out.len(), expected.len());
    for (span, (text, color)) in out.iter().zip(expected.iter()) {
        assert_eq!(span.text.as_slice(), *text);
        assert_eq!(span.color, *color);
    }
}

#[test]
fn pattern_color_cycles_through_palette() {
    assert_eq!(pattern_color(0), 0);
    assert_eq!(pattern_color(9), 9);
    assert_eq!(pattern_color(10), 0);
    assert_eq!(pattern_color(12), 2);
}

#[test]
fn line_matches_patterns_filters() {
    let patterns = patterns_of(&["foo", "bar"]);
    assert!(line_matches_patterns(&b"a bar here".to_vec(), &patterns));
    assert!(!line_matches_patterns(&b"nothing else".to_vec(), &patterns));
    let none: Vec<logr::pattern::Pattern> = Vec::new();
    assert!(!line_matches_patterns(&b"anything".to_vec(), &none));
}

#[test]
fn highlight_empty_line_yields_no_cells() {
    let patterns = patterns_of(&["x"]);
    let line = Vec::new();
    let spans = highlight_line(&line, &patterns);
    assert_eq!(concat_bytes(&spans), Vec::<u8>::new());
}
