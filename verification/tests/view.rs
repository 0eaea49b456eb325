use argus::tui::form::Focus;
use argus::tui::geometry::{
    centered_rect, header_areas, help_areas, results_areas, screen_areas, setup_areas, toast_rect,
    Area,
};
use argus::tui::paint::{Hue, Line, Span};
use argus::tui::state::{App, Phase, Prefill};
use argus::tui::view::{
    box_with_title, build_chip_lines, draw_directory_box, draw_extensions_box, draw_flags_box,
    draw_limit_box, draw_max_depth_box, draw_ocr_engine_box, draw_pattern_box, draw_preview_pane,
    draw_results, draw_run_button, draw_searching, draw_stats_bar, extensions_frame, focus_style,
    format_duration, header_lines, help_line, highlight_inline, progress_bar, rule, toast_span,
    truncate_display,
};
use argus::types::{
    FileType, IndexConfig, Match, OcrEngine, SearchResult, SearchStats, VisionLlmConfig,
};
use argus::ui::display_filename;

fn make_app() -> App {
    let prefill = Prefill {
        directory: ".".to_string(),
        case_sensitive: false,
        use_regex: false,
        ocr_enabled: false,
        ocr_engine: OcrEngine::default(),
        vision_llm: VisionLlmConfig::default(),
        limit: 20,
        max_depth: None,
        include_hidden: false,
        extensions: Vec::new(),
        show_preview: false,
    };
    App::new(prefill, IndexConfig::default())
}

fn text(spans: &[Span]) -> String {
    spans.iter().map(|s| s.text.as_str()).collect()
}

fn texts(lines: &[Line]) -> Vec<String> {
    lines.iter().map(|l| text(&l.spans)).collect()
}

fn inside(inner: Area, outer: Area) -> bool {
    inner.x >= outer.x
        && inner.y >= outer.y
        && inner.x + inner.width <= outer.x + outer.width
        && inner.y + inner.height <= outer.y + outer.height
}

#[test]
fn format_duration_sub_second_ms() {
    assert_eq!(format_duration(42), "42ms");
}

#[test]
fn tui_format_duration_over_one_second() {
    assert_eq!(format_duration(1500), "1.5s");
}

#[test]
fn truncate_display_leaves_short_strings_alone() {
    assert_eq!(truncate_display("hi", 10), "hi");
}

#[test]
fn truncate_display_adds_ellipsis_when_too_long() {
    let out = truncate_display("abcdefghij", 5);
    assert!(out.ends_with('…'));
    assert_eq!(out.chars().count(), 6);
}

#[test]
fn display_filename_extracts_trailing_component() {
    assert_eq!(display_filename("/a/b/c.txt"), "c.txt");
    assert_eq!(display_filename("solo.md"), "solo.md");
}

#[test]
fn highlight_inline_marks_the_match() {
    let line = highlight_inline("hello needle world", "needle");
    let has_highlight = line
        .iter()
        .any(|s| s.paint.bg == Some(Hue::Rose) && s.text.contains("needle"));
    assert!(has_highlight);
}

#[test]
fn highlight_inline_handles_empty_pattern() {
    let line = highlight_inline("hello world", "");
    assert!(!line.is_empty());
}

#[test]
fn highlight_inline_unicode_case_insensitive() {
    let line = highlight_inline("Café du Monde", "café");
    let has_match = line.iter().any(|s| s.text.contains("Café"));
    assert!(has_match);
}

#[test]
fn build_chip_lines_highlights_focused_cursor() {
    let chips = vec![("pdf".into(), true), ("md".into(), false)];
    let lines = build_chip_lines(&chips, 0, true, 80);
    let has_cursor = lines
        .iter()
        .any(|line| line.spans.iter().any(|s| s.text == "❮" || s.text == "❯"));
    assert!(has_cursor);
}

#[test]
fn build_chip_lines_wraps_when_narrow() {
    let chips: Vec<(String, bool)> = (0..10).map(|i| (format!("ext{i}"), false)).collect();
    let lines = build_chip_lines(&chips, 0, false, 15);
    assert!(lines.len() >= 2, "expected wrapping, got {lines:?}");
    let all: String = texts(&lines).concat();
    for (name, _) in &chips {
        assert!(all.contains(name.as_str()));
    }
}

#[test]
fn centered_rect_is_contained() {
    let outer = Area { x: 0, y: 0, width: 100, height: 50 };
    let inner = centered_rect(50, 40, outer);
    assert!(inner.x >= outer.x);
    assert!(inner.y >= outer.y);
    assert!(inner.x + inner.width <= outer.x + outer.width);
    assert!(inner.y + inner.height <= outer.y + outer.height);
    assert_eq!(inner, Area { x: 25, y: 15, width: 50, height: 20 });
}

#[test]
fn toast_rect_stays_inside_area() {
    let area = Area { x: 0, y: 0, width: 80, height: 24 };
    let r = toast_rect(area, 20);
    assert!(r.x + r.width <= area.x + area.width);
    assert!(r.y + r.height <= area.y + area.height);
    assert_eq!(r, Area { x: 54, y: 20, width: 24, height: 1 });
}

#[test]
fn screen_is_split_in_three() {
    let screen = Area { x: 0, y: 0, width: 100, height: 40 };
    let areas = screen_areas(screen);
    assert_eq!(areas.header, Area { x: 0, y: 0, width: 100, height: 3 });
    assert_eq!(areas.body, Area { x: 0, y: 3, width: 100, height: 35 });
    assert_eq!(areas.help, Area { x: 0, y: 38, width: 100, height: 2 });
    let header = header_areas(areas.header);
    assert_eq!(header.title, Area { x: 0, y: 0, width: 50, height: 1 });
    assert!(inside(header.rule, areas.header));
    let (line, help) = help_areas(areas.help);
    assert_eq!((line.y, help.y), (38, 39));
    let results = results_areas(areas.body);
    assert_eq!(results.stats, Area { x: 2, y: 3, width: 96, height: 4 });
    assert!(inside(results.list, results.body) && inside(results.preview, results.body));
}

/// Draws the setup form and checks that its boxes stand on the screen.
fn draw_setup(app: &App, width: u16, height: u16) {
    let screen = Area { x: 0, y: 0, width, height };
    let areas = screen_areas(screen);
    let boxes = setup_areas(areas.body);
    for b in [
        boxes.pattern,
        boxes.directory,
        boxes.extensions,
        boxes.flags,
        boxes.engine,
        boxes.depth,
        boxes.limit,
        boxes.run,
    ] {
        assert!(inside(b, screen));
    }
    let (title, phase) = header_lines(app);
    assert!(!title.is_empty() && !phase.is_empty());
    assert!(!help_line(app).is_empty());
    assert!(text(&draw_pattern_box(app).1).contains(&app.pattern));
    assert!(text(&draw_directory_box(app).1).contains(&app.directory));
    assert!(!draw_extensions_box(app, boxes.extensions.width).is_empty());
    assert_eq!(draw_flags_box(app).1.len(), 7);
    assert!(!draw_ocr_engine_box(app).1.is_empty());
    assert!(text(&draw_max_depth_box(app).1).contains("unlimited"));
    assert!(text(&draw_limit_box(app).1).contains("20"));
    assert!(!draw_run_button(app).1.text.is_empty());
    assert!(!extensions_frame(app).title.is_empty());
}

#[test]
fn draw_setup_does_not_panic_on_standard_size() {
    let mut app = make_app();
    app.pattern = "hello".to_string();
    draw_setup(&app, 100, 40);
}

#[test]
fn draw_setup_on_tiny_terminal_does_not_panic() {
    let app = make_app();
    draw_setup(&app, 40, 20);
}

#[test]
fn draw_setup_with_each_focus_variant() {
    for focus in [
        Focus::Pattern,
        Focus::Directory,
        Focus::Extensions,
        Focus::Flags,
        Focus::OcrEnginePicker,
        Focus::MaxDepth,
        Focus::Limit,
        Focus::RunButton,
    ] {
        let mut app = make_app();
        app.focus = focus;
        draw_setup(&app, 100, 40);
        assert_eq!(focus_style(&app, focus).0, Hue::Accent);
        assert_eq!(box_with_title(&app, focus, "title", "hint").border, Hue::Accent);
        assert_eq!(box_with_title(&app, focus.next(), "title", "hint").border, Hue::Dim);
    }
}

#[test]
fn draw_searching_in_both_progress_modes() {
    let mut app = make_app();
    app.pattern = "thing".into();
    app.phase = Phase::Searching { started: 0, tick: 7, show_preview: false };
    let lines = texts(&draw_searching(&app, 60, 0, 0, 10));
    assert!(lines.iter().any(|l| l.contains("thing")));
    assert!(lines.iter().any(|l| l.contains("discovering files…")));

    app.phase = Phase::Searching { started: 0, tick: 12, show_preview: true };
    let lines = texts(&draw_searching(&app, 60, 42, 100, 1500));
    assert!(lines.iter().any(|l| l.contains("42 / 100 files")));
    assert!(lines.iter().any(|l| l.contains("42%")));
}

#[test]
fn progress_bar_fills_in_proportion() {
    let (bar, caption, hue) = progress_bar(10, 3, 1, 4);
    assert_eq!(bar, "━━━───────");
    assert!(caption.starts_with("1 / 4 files"));
    assert_eq!(hue, Hue::Accent);
    let (bar, _, hue) = progress_bar(10, 3, 0, 0);
    assert_eq!(bar.chars().count(), 10);
    assert_eq!(hue, Hue::Dim);
    assert_eq!(progress_bar(0, 3, 0, 0).0, "");
}

#[test]
fn draw_results_empty_and_populated() {
    let mut app = make_app();
    assert!(draw_results(&app).is_none());
    app.pattern = "missing".into();
    app.phase = Phase::Results {
        results: Vec::new(),
        stats: SearchStats::new(),
        show_preview: false,
        selected: None,
    };
    let screen = draw_results(&app).unwrap();
    assert!(texts(&screen.message).iter().any(|l| l.contains("no matches found")));
    assert!(screen.items.is_empty());

    let mut app = make_app();
    app.pattern = "needle".into();
    let matches = vec![Match::new("needle".into(), "line containing needle in context".into()); 3];
    let result = SearchResult::new("/tmp/doc.txt".into(), FileType::Text, matches, 0.5f64.to_bits());
    let mut stats = SearchStats::new();
    stats.add_result(&result);
    stats.duration_ms = 321;
    assert!(!draw_preview_pane(&result).is_empty());
    let (row, breakdown) = draw_stats_bar(&stats, 1, "needle");
    assert!(text(&row).contains("321ms"));
    assert!(!breakdown.is_empty());
    app.phase = Phase::Results {
        results: vec![result],
        stats,
        show_preview: true,
        selected: Some(0),
    };
    let screen = draw_results(&app).unwrap();
    assert!(text(&screen.items[0].spans).contains("doc.txt"));
    assert!(texts(&screen.preview).iter().any(|l| l.contains("line containing needle")));
    assert_eq!(text(&screen.title), " files (1) ");
    assert_eq!(screen.selected, Some(0));
}

#[test]
fn toast_is_drawn_when_set() {
    let mut app = make_app();
    app.set_toast("hello toast".into(), Hue::Sage, 0);
    let (message, hue) = app.toast.as_ref().unwrap();
    let span = toast_span(message, *hue);
    assert!(span.text.contains("hello toast"));
    let area = Area { x: 0, y: 0, width: 100, height: 40 };
    assert!(inside(toast_rect(area, message.len()), area));
}

#[test]
fn rule_is_as_wide_as_asked() {
    assert_eq!(rule(5).text, "─────");
}

#[test]
fn hues_of_the_terminal_have_no_rgb() {
    assert_eq!(Hue::Black.rgb(), None);
    assert_eq!(Hue::Reset.rgb(), None);
    assert_eq!(Hue::Rose.rgb(), Some((244, 114, 182)));
}

#[test]
fn searching_screen_is_drawn_exactly() {
    let mut app = make_app();
    app.pattern = "thing".into();
    app.phase = Phase::Searching { started: 0, tick: 5, show_preview: false };
    assert_eq!(
        texts(&draw_searching(&app, 26, 1, 4, 1500)),
        [
            "",
            "  ◓  searching for “thing”",
            "      in .",
            "",
            "  ━━━━━───────────────",
            "",
            "      1 / 4 files  ·  25%",
            "      elapsed  1.5s",
        ]
    );
    assert_eq!(progress_bar(10, 7, 0, 0).0, "━━━────━━━");
}

#[test]
fn results_screen_is_drawn_exactly() {
    let mut app = make_app();
    app.pattern = "needle".into();
    let matches = vec![Match::new("needle".into(), "  a Needle here ".into()); 10];
    let result = SearchResult::new("/tmp/doc.txt".into(), FileType::Text, matches, 0.5f64.to_bits());
    let mut stats = SearchStats::new();
    stats.inc_scanned();
    stats.add_result(&result);
    stats.duration_ms = 1234;
    app.phase = Phase::Results {
        results: vec![result],
        stats,
        show_preview: true,
        selected: Some(0),
    };
    let screen = draw_results(&app).unwrap();
    assert_eq!(
        text(&screen.stats.0),
        "  query  “needle”     1 scanned   1 matched   10 hits   1 showing   1.2s in   "
    );
    assert_eq!(text(&screen.stats.1), "  by type  1 text   ");
    assert_eq!(texts(&screen.items), [" 1  text   doc.txt  · 10"]);
    let mut expected = vec!["doc.txt", "/tmp/doc.txt", "", "10 matches   50% confidence", ""];
    for _ in 0..8 {
        expected.push("  a Needle here");
    }
    expected.push("");
    expected.push("  … + 2 more matches");
    assert_eq!(texts(&screen.preview), expected);
}

#[test]
fn setup_boxes_are_drawn_exactly() {
    let mut app = make_app();
    app.focus = Focus::MaxDepth;
    assert_eq!(text(&draw_pattern_box(&app).1), "start typing your query…");
    assert_eq!(text(&draw_directory_box(&app).1), ".");
    assert_eq!(text(&draw_max_depth_box(&app).1), "◂ unlimited ▸   1/7");
    assert_eq!(text(&draw_limit_box(&app).1), format!(" 20  {}", "━".repeat(40)));
    assert_eq!(draw_limit_box(&app).1[1].text, "━━━━");
    assert_eq!(draw_run_button(&app).1.text, "  ▶  run search  ");
    assert_eq!(text(&draw_pattern_box(&app).0.title), " search for  what do you want to find? ");
    assert_eq!(text(&extensions_frame(&app).title), " file types  all file types  ·  space to narrow ");
    assert_eq!(texts(&draw_flags_box(&app).1)[0], "  ○  case sensitive");
    assert_eq!(text(&help_line(&app)), "← → adjust   tab next field   ⏎ run");
    let (title, phase) = header_lines(&app);
    assert_eq!(text(&title), "◉ argus  ·  the all-seeing file search");
    assert_eq!(text(&phase), "compose  ");
    app.extensions.chips[0].1 = true;
    assert_eq!(text(&extensions_frame(&app).title), " file types  1 selected  ·  empty = all types ");
    assert_eq!(toast_span("hi", Hue::Sage).text, " hi ");
}
