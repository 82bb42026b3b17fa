use cc_statusline::bar::{glyph, make_bar, plain_bar, threshold_bar};

#[test]
fn glyph_levels() {
    assert_eq!(glyph(0), "░");
    assert_eq!(glyph(1), "▒");
    assert_eq!(glyph(2), "▓");
    assert_eq!(glyph(3), "█");
    assert_eq!(glyph(-1), "█");
    assert_eq!(glyph(7), "█");
}

#[test]
fn plain_bar_fill_levels() {
    assert_eq!(plain_bar(0, None, true), "░░░░░░░░░░");
    assert_eq!(plain_bar(30, None, true), "██████████");
    assert_eq!(plain_bar(7, None, true), "██▒░░░░░░░");
    assert_eq!(plain_bar(8, None, true), "██▓░░░░░░░");
}

#[test]
fn plain_bar_styles_filled_cells() {
    assert_eq!(
        plain_bar(4, Some("green"), false),
        "\x1b[32m█\x1b[0m\x1b[32m▒\x1b[0m░░░░░░░░"
    );
    assert_eq!(plain_bar(4, Some("green"), true), "█▒░░░░░░░░");
}

#[test]
fn threshold_bar_marks_cells_past_threshold() {
    assert_eq!(threshold_bar(9, 6, true), "███░░░░░░░");
    assert_eq!(
        threshold_bar(9, 6, false),
        "██\x1b[31m█\x1b[0m░░░░░░░"
    );
    assert_eq!(threshold_bar(9, 30, false), "███░░░░░░░");
}

#[test]
fn make_bar_under_curve() {
    // Used 4 units, expected 9, under the curve: partial tip green, then
    // green empty cells up to the expected level.
    assert_eq!(
        make_bar(4, 9, false, false),
        "█\x1b[32m▒\x1b[0m\x1b[32m░\x1b[0m░░░░░░░"
    );
}

#[test]
fn make_bar_over_curve() {
    // Used 8 units, expected 3: everything past the third unit is red.
    assert_eq!(
        make_bar(8, 3, true, false),
        "█\x1b[31m█\x1b[0m\x1b[31m▓\x1b[0m░░░░░░░"
    );
    assert_eq!(make_bar(8, 3, true, true), "██▓░░░░░░░");
}

#[test]
fn bar_partial_and_full_cells() {
    // Five units: one full cell and one two-thirds cell.
    assert_eq!(plain_bar(5, None, true), "█▓░░░░░░░░");
    assert_eq!(plain_bar(30, Some("green"), true), "██████████");
}

#[test]
fn bars_agree_without_color() {
    for units in [0, 4, 17, 30] {
        let plain = plain_bar(units, Some("red"), true);
        assert_eq!(threshold_bar(units, 3, true), plain);
        assert_eq!(make_bar(units, 12, true, true), plain);
        assert_eq!(make_bar(units, 12, false, true), plain);
        assert_eq!(plain.chars().count(), 10);
    }
}

#[test]
fn curve_tip_colour_follows_over() {
    // Over the curve and past the expected level: no green.
    let b = make_bar(10, 7, true, false);
    assert!(!b.contains("\x1b[32m") && b.contains("\x1b[31m"), "{}", b);
    // Under the curve and below the expected level: no red.
    let b = make_bar(7, 10, false, false);
    assert!(!b.contains("\x1b[31m") && b.contains("\x1b[32m"), "{}", b);
}
