use argus::types::{FileType, Match, SearchResult, SearchStats};
use argus::ui::{
    create_confidence_bar, display_banner, display_error, display_errors, display_farewell,
    display_filename, display_result, display_results, display_stats, format_duration,
    group_errors, highlight_match, interactive_select, opening_line, select_items, select_prompt,
    split_at_match, truncate_path, type_order, Segment, Tone, PATH_MAX_WIDTH,
};

fn make_result(path: &str, file_type: FileType, matches: usize) -> SearchResult {
    let ms = vec![Match::new("needle".into(), "this line has needle in it".into()); matches];
    SearchResult::new(path.to_string(), file_type, ms, 0.5f64.to_bits())
}

fn text(line: &[Segment]) -> String {
    line.iter().map(|s| s.text.as_str()).collect()
}

fn texts(lines: &[Vec<Segment>]) -> Vec<String> {
    lines.iter().map(|l| text(l)).collect()
}

#[test]
fn create_confidence_bar_respects_width() {
    let bar_zero = text(&create_confidence_bar(0.0f64.to_bits()));
    let bar_full = text(&create_confidence_bar(1.0f64.to_bits()));
    let bar_half = text(&create_confidence_bar(0.5f64.to_bits()));
    assert!(!bar_zero.is_empty());
    assert!(!bar_full.is_empty());
    assert!(!bar_half.is_empty());
    assert_ne!(bar_zero, bar_full);
    assert_eq!(bar_half, "━━━━━─────");
}

#[test]
fn create_confidence_bar_clamps_above_one() {
    let bar = create_confidence_bar(2.5f64.to_bits());
    assert!(!bar.is_empty());
    assert_eq!(text(&bar), "━".repeat(10));
    assert_eq!(text(&create_confidence_bar(f64::NAN.to_bits())), "─".repeat(10));
    assert_eq!(text(&create_confidence_bar((-3.0f64).to_bits())), "─".repeat(10));
    assert_eq!(text(&create_confidence_bar(f64::INFINITY.to_bits())), "━".repeat(10));
}

#[test]
fn truncate_path_keeps_short_paths_intact() {
    let s = "short.txt";
    assert_eq!(truncate_path(s), s);
}

#[test]
fn truncate_path_shortens_long_paths_with_ellipsis() {
    let long = "/".to_string() + &"segment/".repeat(20) + "file.txt";
    let out = truncate_path(&long);
    assert!(out.starts_with("..."));
    assert!(out.ends_with("file.txt"));
    assert!(out.chars().count() <= PATH_MAX_WIDTH);
}

#[test]
fn format_duration_under_one_second() {
    assert_eq!(format_duration(42), "42ms");
}

#[test]
fn ui_format_duration_over_one_second() {
    assert_eq!(format_duration(1500), "1.50s");
}

#[test]
fn highlight_match_finds_pattern_case_insensitive() {
    let out = highlight_match("Hello NEEDLE world", "needle");
    assert!(!out.is_empty());
    assert!(text(&out).contains("NEEDLE"));
    assert_eq!(out[1].text, "NEEDLE");
    assert_eq!(out[1].tone, Some(Tone::Accent));
    assert!(out[1].bold);
}

#[test]
fn highlight_match_pattern_absent_still_returns_text() {
    let out = highlight_match("no match here", "needle");
    assert!(!out.is_empty());
    assert_eq!(text(&out), "no match here");
}

#[test]
fn highlight_match_unicode_pattern() {
    let out = highlight_match("café résumé", "Café");
    assert!(!out.is_empty());
    assert!(text(&out).contains("café"));
}

#[test]
fn split_at_match_splits_at_the_first_match() {
    let (before, matched, after) = split_at_match("An ABC and an abc", "Abc").unwrap();
    assert_eq!((before.as_str(), matched.as_str(), after.as_str()), ("An ", "ABC", " and an abc"));
    assert!(split_at_match("nothing", "xyz").is_none());
    let (before, matched, after) = split_at_match("İ needle here", "NEEDLE").unwrap();
    assert_eq!((before.as_str(), matched.as_str(), after.as_str()), ("İ ", "needle", " here"));
    let (before, matched, after) = split_at_match("abc", "").unwrap();
    assert_eq!((before.as_str(), matched.as_str(), after.as_str()), ("", "", "abc"));
}

#[test]
fn display_banner_does_not_panic() {
    assert!(!display_banner().is_empty());
}

#[test]
fn display_farewell_does_not_panic() {
    assert!(!display_farewell().is_empty());
}

#[test]
fn display_error_does_not_panic() {
    let lines = texts(&display_error("something went wrong"));
    assert!(lines.iter().any(|l| l.contains("something went wrong")));
}

#[test]
fn display_results_empty_prints_no_matches() {
    let stats = SearchStats::new();
    let lines = texts(&display_results(&vec![], &stats, false));
    assert!(lines.iter().any(|l| l.to_lowercase().contains("no matches")));
}

#[test]
fn display_results_with_stats_breakdown() {
    let mut stats = SearchStats::new();
    let r1 = make_result("a.rs", FileType::Code, 3);
    let r2 = make_result("b.pdf", FileType::Pdf, 1);
    stats.inc_scanned();
    stats.inc_scanned();
    stats.add_result(&r1);
    stats.add_result(&r2);
    stats.duration_ms = 42;
    let lines = texts(&display_results(&vec![r1, r2], &stats, true));
    assert!(lines.iter().any(|l| l.contains("42ms")));
    assert!(lines.iter().any(|l| l.contains("a.rs")));
    assert!(lines.iter().any(|l| l.contains("this line has needle in it")));
}

#[test]
fn display_results_duration_over_one_second_formats_seconds() {
    let mut stats = SearchStats::new();
    stats.duration_ms = 1500;
    let lines = texts(&display_results(&vec![], &stats, false));
    assert!(lines.iter().any(|l| l.contains("1.50s")));
}

#[test]
fn display_results_ranks_first_three_distinctly() {
    let rs = vec![
        make_result("top.txt", FileType::Text, 10),
        make_result("two.rs", FileType::Code, 5),
        make_result("three.pdf", FileType::Pdf, 3),
        make_result("four.docx", FileType::Docx, 2),
        make_result("five.png", FileType::Image, 1),
        make_result("six.bin", FileType::Other, 1),
    ];
    let stats = SearchStats::new();
    let lines = display_results(&rs, &stats, true);
    let bold = |name: &str| lines.iter().flatten().any(|s| s.text == name && s.bold);
    assert!(bold("top.txt") && bold("two.rs") && bold("three.pdf"));
    assert!(!bold("four.docx") && !bold("six.bin"));
}

#[test]
fn display_results_long_path_is_truncated() {
    let long = "/".to_string() + &"deep/".repeat(30) + "file.txt";
    let r = make_result(&long, FileType::Text, 1);
    let stats = SearchStats::new();
    let lines = texts(&display_results(&vec![r], &stats, true));
    assert!(lines.iter().any(|l| l.contains(&truncate_path(&long))));
    assert!(!lines.iter().any(|l| l.contains(&long)));
}

#[test]
fn preview_must_not_cut_a_character() {
    let context = "x".repeat(71) + "é" + &"y".repeat(40);
    let ms = vec![Match::new("x".into(), context)];
    let r = SearchResult::new("a.txt".into(), FileType::Text, ms, 0);
    assert!(!r.can_preview(72));
    assert!(r.can_preview(71));
    assert!(!display_result(1, &r, false).is_empty());
}

#[test]
fn interactive_select_empty_returns_none() {
    let none: Vec<SearchResult> = vec![];
    assert!(interactive_select(&none, None).is_none());
    assert!(select_items(&none).len() <= 1);
}

#[test]
fn interactive_select_returns_the_choice() {
    let rs = vec![make_result("a.txt", FileType::Text, 1), make_result("b.txt", FileType::Text, 1)];
    let items = select_items(&rs);
    assert!(items.iter().any(|i| i.contains("b.txt")));
    assert_eq!(interactive_select(&rs, Some(1)).unwrap().path, "b.txt");
    assert!(interactive_select(&rs, None).is_none());
    assert!(!select_prompt().is_empty());
    assert!(text(&opening_line(&rs[0])).contains("a.txt"));
}

#[test]
fn errors_are_grouped_by_reason() {
    let e = |p: &str, r: &str| (p.to_string(), r.to_string());
    let errors = vec![e("a/1.pdf", "bad"), e("2.png", "blurred"), e("3.pdf", "bad")];
    let groups = group_errors(&errors);
    assert_eq!(groups.iter().map(|g| g.count).sum::<usize>(), 3);
    let bad = groups.iter().find(|g| g.reason == "bad").unwrap();
    assert_eq!(bad.count, 2);
    let lines = texts(&display_errors(&errors));
    assert!(lines.iter().any(|l| l.contains("blurred")));
    assert!(display_errors(&vec![]).iter().all(|l| l.is_empty()));
    assert_eq!(display_filename("a/1.pdf"), "1.pdf");
}

#[test]
fn types_are_listed_by_count() {
    let mut stats = SearchStats::new();
    stats.add_result(&make_result("a.rs", FileType::Code, 1));
    stats.add_result(&make_result("b.pdf", FileType::Pdf, 1));
    stats.add_result(&make_result("c.pdf", FileType::Pdf, 1));
    let order = type_order(&stats);
    assert_eq!(stats.by_type.counts[order[0]].0, FileType::Pdf);
    assert_eq!(order.len(), 2);
    assert!(!display_stats(&stats).is_empty());
}

#[test]
fn tones_are_told_apart() {
    let tones = [Tone::Text, Tone::Secondary, Tone::Tertiary, Tone::Accent, Tone::Alert];
    for (i, a) in tones.iter().enumerate() {
        for b in &tones[i + 1..] {
            assert_ne!(a.rgb(), b.rgb());
        }
    }
}

#[test]
fn stats_are_printed_exactly() {
    let mut stats = SearchStats::new();
    for _ in 0..4 {
        stats.inc_scanned();
    }
    stats.add_result(&make_result("a.rs", FileType::Code, 1));
    stats.add_result(&make_result("b.pdf", FileType::Pdf, 1));
    stats.add_result(&make_result("c.pdf", FileType::Pdf, 1));
    stats.duration_ms = 42;
    assert_eq!(
        texts(&display_stats(&stats)),
        ["  stats   scanned 4   matched 3   42ms", "          2 pdf   1 code"]
    );
    stats.inc_skipped();
    stats.errors.push(("/x/y.pdf".into(), "bad".into()));
    stats.duration_ms = 12_345;
    assert_eq!(
        texts(&display_stats(&stats)),
        [
            "  stats   scanned 4   matched 3   skipped 1   12.35s",
            "          2 pdf   1 code",
            "",
            "  skipped files — grouped by reason:",
            "    1× · bad",
            "           y.pdf",
        ]
    );
}

#[test]
fn errors_are_printed_exactly() {
    let mut errors = Vec::new();
    for i in 0..7 {
        errors.push((format!("/x/{i}.pdf"), format!("reason {i}")));
    }
    for i in 0..4 {
        errors.push((format!("/y/{i}.png"), "reason 6".to_string()));
    }
    assert_eq!(
        texts(&display_errors(&errors)),
        [
            "",
            "  skipped files — grouped by reason:",
            "    5× · reason 6",
            "           6.pdf",
            "           0.png",
            "           1.png",
            "    1× · reason 0",
            "           0.pdf",
            "    1× · reason 1",
            "           1.pdf",
            "    1× · reason 2",
            "           2.pdf",
            "    1× · reason 3",
            "           3.pdf",
            "    + 2 more distinct error(s)",
        ]
    );
    let long = "x".repeat(200);
    let groups = group_errors(&vec![("a".into(), long)]);
    assert_eq!(groups[0].reason, "x".repeat(180) + "…");
}

#[test]
fn results_are_printed_exactly() {
    let r = make_result("/d/a.rs", FileType::Code, 3);
    assert_eq!(
        texts(&display_result(1, &r, true)),
        [
            "   1   a.rs",
            "       3 matches   ━━━━━─────    50%",
            "       /d/a.rs",
            "       this line has needle in it",
            "",
        ]
    );
    let lines = texts(&display_results(&vec![r], &SearchStats::new(), false));
    assert_eq!(
        lines,
        [
            "",
            "  stats   scanned 0   matched 0   0ms",
            "",
            "  1 files",
            "",
            "   1   a.rs",
            "       3 matches   ━━━━━─────    50%",
            "       /d/a.rs",
            "",
        ]
    );
    assert_eq!(texts(&display_banner()), ["", "  argus", ""]);
    assert_eq!(texts(&display_farewell()), ["", "  bye", ""]);
    assert_eq!(texts(&display_error("oops")), ["", "  error  oops", ""]);
}

#[test]
fn choices_are_listed_exactly() {
    let rs = vec![make_result("/d/a.rs", FileType::Code, 3)];
    assert_eq!(select_items(&rs), [" 1  a.rs  (3 matches)", "exit"]);
    assert_eq!(
        text(&select_prompt()),
        "  select · ↑↓ to navigate · enter to open · esc to exit"
    );
    assert_eq!(text(&opening_line(&rs[0])), "  opening a.rs");
}
