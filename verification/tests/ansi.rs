use cc_statusline::color::{red, wrap};
use cc_statusline::ansi::{color_for, parse_ansi, span_css, visible_len, xml_escape, Span, Style};

fn texts(spans: &[Span]) -> Vec<String> {
    spans.iter().map(|s| s.text.clone()).collect()
}

#[test]
fn parse_ansi_plain_text_is_one_span() {
    let spans = parse_ansi("hello");
    assert_eq!(texts(&spans), vec!["hello"]);
    assert_eq!(spans[0].style.fg, None);
    assert!(!spans[0].style.bold);
    assert!(parse_ansi("").is_empty());
}

#[test]
fn parse_ansi_reads_colors_and_resets() {
    let spans = parse_ansi("\x1b[1;31mhi\x1b[0m there");
    assert_eq!(texts(&spans), vec!["hi", " there"]);
    assert_eq!(spans[0].style.fg, Some("#cc0000"));
    assert!(spans[0].style.bold);
    assert_eq!(spans[1].style.fg, None);
    assert!(!spans[1].style.bold);
}

#[test]
fn parse_ansi_empty_sequence_resets() {
    let spans = parse_ansi("\x1b[2ma\x1b[mb");
    assert_eq!(texts(&spans), vec!["a", "b"]);
    assert!(spans[0].style.dim);
    assert!(!spans[1].style.dim);
}

#[test]
fn parse_ansi_clears_attributes() {
    let spans = parse_ansi("\x1b[1;2;3;4;92mx\x1b[22;23my\x1b[24;39mz");
    assert_eq!(texts(&spans), vec!["x", "y", "z"]);
    let (x, y, z) = (&spans[0].style, &spans[1].style, &spans[2].style);
    assert!(x.bold && x.dim && x.italic && x.underline);
    assert_eq!(x.fg, Some("#8ae234"));
    assert!(!y.bold && !y.dim && !y.italic && y.underline);
    assert_eq!(y.fg, Some("#8ae234"));
    assert!(!z.underline);
    assert_eq!(z.fg, None);
}

#[test]
fn parse_ansi_skips_unknown_and_junk_parameters() {
    let spans = parse_ansi("\x1b[38;x;33mq");
    assert_eq!(texts(&spans), vec!["q"]);
    assert_eq!(spans[0].style.fg, Some("#c4a000"));
    // A lone escape is text; an unterminated sequence swallows the rest.
    let spans = parse_ansi("a\x1bb\x1b[31");
    assert_eq!(texts(&spans), vec!["a\x1bb"]);
}

#[test]
fn color_for_terminal_codes() {
    assert_eq!(color_for(30), Some("#2e3436"));
    assert_eq!(color_for(37), Some("#d3d7cf"));
    assert_eq!(color_for(90), Some("#555753"));
    assert_eq!(color_for(97), Some("#eeeeec"));
    assert_eq!(color_for(38), None);
    assert_eq!(color_for(0), None);
}

#[test]
fn xml_escape_entities() {
    assert_eq!(xml_escape("a<b>&c"), "a&lt;b&gt;&amp;c");
    assert_eq!(xml_escape("&lt;"), "&amp;lt;");
    assert_eq!(xml_escape("plain"), "plain");
}

#[test]
fn span_css_styles() {
    assert_eq!(span_css(&Style::plain()), "fill:#eeeeec;");
    let st = Style { fg: Some("#cc0000"), bold: true, dim: true, italic: true, underline: true };
    assert_eq!(
        span_css(&st),
        "fill:#cc0000;font-weight:bold;opacity:0.55;font-style:italic;text-decoration:underline;"
    );
}

#[test]
fn visible_len_counts_characters() {
    let spans = parse_ansi("\x1b[31m█▒\x1b[0m ab");
    assert_eq!(visible_len(&spans), Some(5));
    assert_eq!(visible_len(&[]), Some(0));
}

#[test]
fn styled_text_reads_back() {
    let spans = parse_ansi(&red("peak", false));
    assert_eq!(texts(&spans), vec!["peak"]);
    assert_eq!(spans[0].style.fg, Some("#cc0000"));
    let spans = parse_ansi(&wrap("x", "underline", false));
    assert!(spans[0].style.underline);
    assert_eq!(spans.len(), 1);
    assert!(parse_ansi(&wrap("", "bold", false)).is_empty());
}
