use cc_statusline::format::{parse, render_segs, screen_output, tokens_in, Seg};

/// Renders a format line with the given token values, colors off.
fn render(line: &str, vals: &[Option<&str>]) -> Vec<String> {
    let segs = parse(line);
    let vals: Vec<Option<String>> = vals.iter().map(|v| v.map(|s| s.to_string())).collect();
    render_segs(&segs, &vals, true)
}

/// The statusline output of several format lines, each with its token values.
fn screen(lines: &[(&str, &[Option<&str>])]) -> String {
    let mut all = Vec::new();
    for (line, vals) in lines {
        all.extend(render(line, vals));
    }
    screen_output(&all)
}

fn names(segs: &[Seg]) -> Vec<String> {
    tokens_in(segs).into_iter().map(|(n, _)| n).collect()
}

#[test]
fn parse_plain_text_is_one_literal() {
    let segs = parse("hello world");
    assert_eq!(segs.len(), 1);
    match &segs[0] {
        Seg::Lit(s) => assert_eq!(s, "hello world"),
        other => panic!("unexpected {:?}", other),
    }
    assert!(parse("").is_empty());
}

#[test]
fn parse_token_with_styles() {
    let segs = parse("%m:cyan:bold rest");
    assert_eq!(segs.len(), 2);
    match &segs[0] {
        Seg::Tok { name, styles } => {
            assert_eq!(name, "m");
            assert_eq!(styles, &vec!["cyan".to_string(), "bold".to_string()]);
        }
        other => panic!("unexpected {:?}", other),
    }
    match &segs[1] {
        Seg::Lit(s) => assert_eq!(s, " rest"),
        other => panic!("unexpected {:?}", other),
    }
}

#[test]
fn parse_empty_style_ends_chain() {
    // `%m:` consumes the colon and ends the style chain.
    let segs = parse("%m:.x");
    match &segs[0] {
        Seg::Tok { name, styles } => {
            assert_eq!(name, "m");
            assert!(styles.is_empty());
        }
        other => panic!("unexpected {:?}", other),
    }
    match &segs[1] {
        Seg::Lit(s) => assert_eq!(s, ".x"),
        other => panic!("unexpected {:?}", other),
    }
}

#[test]
fn parse_group_word_styles_and_nested_token() {
    let segs = parse("%[dim:italic Label: %m] tail");
    assert_eq!(segs.len(), 2);
    match &segs[0] {
        Seg::Group { styles, inner } => {
            assert_eq!(styles, &vec!["dim".to_string(), "italic".to_string()]);
            assert_eq!(inner.len(), 2);
            match &inner[0] {
                Seg::Lit(s) => assert_eq!(s, "Label: "),
                other => panic!("unexpected {:?}", other),
            }
            match &inner[1] {
                Seg::Tok { name, .. } => assert_eq!(name, "m"),
                other => panic!("unexpected {:?}", other),
            }
        }
        other => panic!("unexpected {:?}", other),
    }
    assert_eq!(names(&segs), vec!["m".to_string()]);
}

#[test]
fn parse_group_colon_styles() {
    let segs = parse("%[:bold:red X]");
    match &segs[0] {
        Seg::Group { styles, inner } => {
            assert_eq!(styles, &vec!["bold".to_string(), "red".to_string()]);
            assert_eq!(inner.len(), 1);
        }
        other => panic!("unexpected {:?}", other),
    }
}

#[test]
fn parse_lone_percent_is_literal() {
    let segs = parse("50% off");
    assert_eq!(segs.len(), 1);
    match &segs[0] {
        Seg::Lit(s) => assert_eq!(s, "50% off"),
        other => panic!("unexpected {:?}", other),
    }
}

#[test]
fn parse_unterminated_group_closes_at_end() {
    let segs = parse("%[bold open");
    assert_eq!(segs.len(), 1);
    match &segs[0] {
        Seg::Group { styles, inner } => {
            assert_eq!(styles, &vec!["bold".to_string()]);
            match &inner[0] {
                Seg::Lit(s) => assert_eq!(s, "open"),
                other => panic!("unexpected {:?}", other),
            }
        }
        other => panic!("unexpected {:?}", other),
    }
}

#[test]
fn model_only() {
    assert_eq!(render("%m", &[Some("Opus 4.7")]), vec!["Opus 4.7".to_string()]);
    assert_eq!(screen(&[("%m", &[Some("Opus 4.7")])]), "Opus 4.7\n");
}

#[test]
fn empty_token_collapses_space() {
    assert_eq!(render("a %vim b", &[None]), vec!["a b".to_string()]);
}

#[test]
fn literal_percent_escape() {
    assert_eq!(render("100%% done", &[]), vec!["100% done".to_string()]);
}

#[test]
fn multiline_backslash_n() {
    assert_eq!(render("one\\ntwo", &[]), vec!["one".to_string(), "two".to_string()]);
    assert_eq!(screen(&[("one\\ntwo", &[])]), "one\ntwo\n");
}

#[test]
fn style_suffix_no_color_passthrough() {
    // With colors off, a styled token shows its bare value.
    assert_eq!(render("%m:red:bold", &[Some("Opus")]), vec!["Opus".to_string()]);
}

#[test]
fn unknown_token_verbatim() {
    // An unknown token resolves to its own text.
    assert_eq!(render("%nope", &[Some("%nope")]), vec!["%nope".to_string()]);
}

#[test]
fn group_span_renders_literal_and_nested_token() {
    assert_eq!(
        render("%[dim Model:] %m", &[Some("Opus")]),
        vec!["Model: Opus".to_string()]
    );
}

#[test]
fn empty_token_between_space_separators_collapses_once() {
    assert_eq!(render("A %vim %c", &[None, Some("$0.10")]), vec!["A $0.10".to_string()]);
}

#[test]
fn zero_args_no_output() {
    // Without format lines nothing is printed.
    assert_eq!(screen(&[]), "");
    assert_eq!(render("", &[]), vec![String::new()]);
}

#[test]
fn trailing_spaces_are_trimmed() {
    assert_eq!(render("a   %vim", &[None]), vec!["a".to_string()]);
    assert_eq!(render("x  \\ny ", &[]), vec!["x".to_string(), "y".to_string()]);
}

#[test]
fn empty_token_drops_all_space_literal() {
    assert_eq!(render("%a   %b", &[Some(""), Some("B")]), vec!["B".to_string()]);
}

#[test]
fn missing_values_count_as_empty() {
    assert_eq!(render("[%a] [%b]", &[Some("A")]), vec!["[A] []".to_string()]);
}

#[test]
fn group_styles_apply_with_color_and_reapply_after_inner_reset() {
    let segs = parse("%[bold x%m]");
    let vals = vec![Some("\x1b[31mR\x1b[0m".to_string())];
    let out = render_segs(&segs, &vals, false);
    assert_eq!(out, vec!["\x1b[1mx\x1b[31mR\x1b[0m\x1b[1m\x1b[0m".to_string()]);
}

#[test]
fn group_joins_inner_lines() {
    let segs = parse("%[bold a\\nb]");
    let out = render_segs(&segs, &[], true);
    assert_eq!(out, vec!["a\nb".to_string()]);
}

#[test]
fn tokens_in_order_of_appearance() {
    let segs = parse("%a %[dim %b:red %c] %d");
    let toks = tokens_in(&segs);
    assert_eq!(
        toks.iter().map(|(n, _)| n.as_str()).collect::<Vec<_>>(),
        vec!["a", "b", "c", "d"]
    );
    assert_eq!(toks[1].1, vec!["red".to_string()]);
}

#[test]
fn line_count_follows_line_breaks() {
    assert_eq!(render("1\\n2\\n3\\n4", &[]).len(), 4);
    assert_eq!(render("%[dim a\\nb]", &[]).len(), 1);
}

#[test]
fn multi_arg_lines() {
    assert_eq!(screen(&[("%m", &[Some("X")]), ("literal", &[])]), "X\nliteral\n");
}

#[test]
fn max_3_lines() {
    assert_eq!(screen(&[("1", &[]), ("2", &[]), ("3", &[]), ("4", &[])]), "1\n2\n3\n");
    assert_eq!(screen(&[("1\\n2\\n3\\n4\\n5", &[])]), "1\n2\n3\n");
}

#[test]
fn lone_percent_and_backslash_stay_literal() {
    let segs = parse("50% off \\t x");
    assert_eq!(segs.len(), 1);
    match &segs[0] {
        Seg::Lit(s) => assert_eq!(s, "50% off \\t x"),
        other => panic!("unexpected {:?}", other),
    }
    assert_eq!(render("100% sure%", &[]), vec!["100% sure%".to_string()]);
}

#[test]
fn parse_never_puts_literals_side_by_side() {
    let segs = parse("a%%b% c\\nd%m:x:y e%[dim f] g");
    for w in segs.windows(2) {
        assert!(!(matches!(w[0], Seg::Lit(_)) && matches!(w[1], Seg::Lit(_))), "{:?}", segs);
    }
    for s in &segs {
        if let Seg::Lit(t) = s {
            assert!(!t.is_empty());
        }
    }
}

#[test]
fn percent_before_space_or_end_is_literal() {
    for text in ["50% off", "a%", "% b", "x%-y"] {
        let segs = parse(text);
        assert_eq!(segs.len(), 1, "{}", text);
        match &segs[0] {
            Seg::Lit(s) => assert_eq!(s, text),
            other => panic!("unexpected {:?}", other),
        }
    }
}
