use argus::index::IndexRead;
use argus::search::WalkedFile;
use argus::tui::form::{Focus, DEPTHS};
use argus::tui::paint::Hue;
use argus::tui::state::{
    shellexpand, Action, App, Key, KeyPress, Phase, Prefill, SearchPoll, TOAST_MS,
};
use argus::types::{
    FileType, IndexConfig, Match, OcrEngine, SearchResult, SearchStats, VisionLlmConfig,
};

fn make_prefill() -> Prefill {
    Prefill {
        directory: ".".to_string(),
        case_sensitive: false,
        use_regex: false,
        ocr_enabled: false,
        ocr_engine: OcrEngine::default(),
        vision_llm: VisionLlmConfig::default(),
        limit: 20,
        max_depth: None,
        include_hidden: false,
        extensions: Vec::new(),
        show_preview: false,
    }
}

fn make_app() -> App {
    App::new(make_prefill(), IndexConfig::default())
}

fn press(app: &mut App, key: Key) -> Action {
    app.handle_key(KeyPress { key, ctrl: false }, 0, None)
}

fn press_ctrl(app: &mut App, key: Key) -> Action {
    app.handle_key(KeyPress { key, ctrl: true }, 0, None)
}

#[test]
fn shellexpand_expands_tilde_slash_and_bare_tilde() {
    let home_str = "/home/someone";
    assert_eq!(shellexpand("~", Some(home_str)), home_str);
    assert!(shellexpand("~/foo", Some(home_str)).starts_with(home_str));
    assert_eq!(shellexpand("~/foo", Some(home_str)), "/home/someone/foo");
    assert_eq!(shellexpand("~", None), "~");
    assert_eq!(shellexpand("~/foo", None), "~/foo");
    assert_eq!(shellexpand("~other", Some(home_str)), "~other");
    assert_eq!(shellexpand("$HOME", Some(home_str)), home_str);
    assert_eq!(shellexpand("$HOME/foo", Some(home_str)), "/home/someone/foo");
    assert_eq!(shellexpand("$HOMELY", Some(home_str)), "$HOMELY");
    assert_eq!(shellexpand("/a/~/$HOME", Some(home_str)), "/a/~/$HOME");
    assert_eq!(shellexpand("$HOME/foo", None), "$HOME/foo");
    assert_eq!(shellexpand("/abs/path", Some(home_str)), "/abs/path");
    assert_eq!(shellexpand("relative/path", Some(home_str)), "relative/path");
}

#[test]
fn handle_key_tab_cycles_focus() {
    let mut app = make_app();
    let start = app.focus;
    press(&mut app, Key::Tab);
    assert_ne!(app.focus, start);
}

#[test]
fn handle_key_backtab_goes_backwards() {
    let mut app = make_app();
    press(&mut app, Key::BackTab);
    assert_eq!(app.focus, Focus::RunButton);
}

#[test]
fn handle_key_esc_in_setup_quits() {
    let mut app = make_app();
    press(&mut app, Key::Esc);
    assert!(app.should_quit);
}

#[test]
fn handle_key_ctrl_c_quits_from_setup() {
    let mut app = make_app();
    press_ctrl(&mut app, Key::Char('c'));
    assert!(app.should_quit);
}

#[test]
fn handle_key_typing_appends_to_pattern() {
    let mut app = make_app();
    app.focus = Focus::Pattern;
    for ch in ['h', 'i'] {
        press(&mut app, Key::Char(ch));
    }
    assert_eq!(app.pattern, "hi");
}

#[test]
fn handle_key_backspace_removes_last_char() {
    let mut app = make_app();
    app.focus = Focus::Pattern;
    app.pattern = "abc".into();
    press(&mut app, Key::Backspace);
    assert_eq!(app.pattern, "ab");
}

#[test]
fn handle_key_ctrl_u_clears_field() {
    let mut app = make_app();
    app.focus = Focus::Pattern;
    app.pattern = "something".into();
    press_ctrl(&mut app, Key::Char('u'));
    assert_eq!(app.pattern, "");
}

#[test]
fn handle_key_space_on_flags_toggles_current() {
    let mut app = make_app();
    app.focus = Focus::Flags;
    let before = app.flags.case_sensitive;
    press(&mut app, Key::Char(' '));
    assert_eq!(app.flags.case_sensitive, !before);
}

#[test]
fn handle_key_updown_on_flags_moves_cursor() {
    let mut app = make_app();
    app.focus = Focus::Flags;
    let start = app.flags.cursor;
    press(&mut app, Key::Down);
    assert_ne!(app.flags.cursor, start);
}

#[test]
fn handle_key_left_right_cycles_ocr_engine() {
    let mut app = make_app();
    app.focus = Focus::OcrEnginePicker;
    let before = app.ocr_engine;
    press(&mut app, Key::Right);
    assert_ne!(app.ocr_engine, before);
    press(&mut app, Key::Left);
    assert_eq!(app.ocr_engine, before);
}

#[test]
fn handle_key_cycles_max_depth_forward_and_back() {
    let mut app = make_app();
    app.focus = Focus::MaxDepth;
    let before = app.max_depth;
    press(&mut app, Key::Right);
    assert_ne!(app.max_depth, before);
    for _ in 1..DEPTHS {
        press(&mut app, Key::Right);
    }
    assert_eq!(app.max_depth, before);
}

#[test]
fn handle_key_adjusts_limit_in_steps_of_five() {
    let mut app = make_app();
    app.focus = Focus::Limit;
    app.limit = 20;
    press(&mut app, Key::Right);
    assert_eq!(app.limit, 25);
    press(&mut app, Key::Left);
    assert_eq!(app.limit, 20);
}

#[test]
fn handle_key_limit_clamps_at_upper_and_lower_bounds() {
    let mut app = make_app();
    app.focus = Focus::Limit;
    app.limit = 498;
    press(&mut app, Key::Right);
    assert!(app.limit <= 500);
    assert_eq!(app.limit, 500);

    app.limit = 2;
    press(&mut app, Key::Left);
    assert!(app.limit >= 1);
    assert_eq!(app.limit, 1);
}

#[test]
fn handle_key_space_on_chips_toggles_selection() {
    let mut app = make_app();
    app.focus = Focus::Extensions;
    let before = app.extensions.chips[0].1;
    press(&mut app, Key::Char(' '));
    assert_eq!(app.extensions.chips[0].1, !before);
}

#[test]
fn handle_key_enter_with_empty_pattern_shows_toast() {
    let mut app = make_app();
    app.pattern.clear();
    app.focus = Focus::Pattern;
    let action = press(&mut app, Key::Enter);
    assert!(app.toast.is_some());
    assert!(matches!(app.phase, Phase::Setup));
    assert!(matches!(action, Action::Nothing));
}

#[test]
fn handle_key_enter_invalid_directory_warns_but_stays_in_setup() {
    let mut app = make_app();
    app.pattern = "needle".into();
    app.directory = "/definitely/not/a/real/directory/xyzzy".into();
    let asked = match press(&mut app, Key::Enter) {
        Action::Search(directory) => directory,
        _ => panic!("expected a search"),
    };
    assert_eq!(asked, "/definitely/not/a/real/directory/xyzzy");
    assert!(app.configure_search(&asked, false, None, 0).is_none());
    assert!(matches!(app.phase, Phase::Setup));
    assert!(app.toast.is_some());
    assert_eq!(app.focus, Focus::Directory);
}

#[test]
fn search_is_configured_by_the_form_and_launched() {
    let mut app = make_app();
    app.pattern = "need+le".into();
    app.flags.use_regex = true;
    app.flags.save_index = true;
    app.flags.show_preview = true;
    app.limit = 35;
    app.max_depth = Some(2);
    let (config, index_config) =
        app.configure_search("/data", true, Some("/real/data".into()), 1).unwrap();
    assert_eq!(config.directory, "/real/data");
    assert_eq!(config.pattern, "need+le");
    assert!(config.use_regex && index_config.save_index && !index_config.use_index);
    assert_eq!((config.limit, config.max_depth), (35, Some(2)));
    let engine = app.launch(config, index_config, IndexRead::Missing, 7, 1).unwrap();
    assert!(engine.quiet);
    assert_eq!(engine.index.as_ref().unwrap().created_at, 7);
    assert_eq!(engine.find_matches("a needdle").len(), 1);
    assert!(matches!(app.phase, Phase::Searching { started: 1, tick: 0, show_preview: true }));
}

#[test]
fn launch_reports_a_pattern_that_is_no_regex() {
    let mut app = make_app();
    app.pattern = "[".into();
    app.flags.use_regex = true;
    app.focus = Focus::RunButton;
    let (config, index_config) = app.configure_search("/data", true, None, 0).unwrap();
    assert_eq!(config.directory, "/data");
    assert!(app.launch(config, index_config, IndexRead::Missing, 0, 0).is_none());
    assert!(matches!(app.phase, Phase::Setup));
    assert_eq!(app.focus, Focus::Pattern);
    assert!(app.toast.as_ref().unwrap().0.starts_with("invalid regex: "));
}

#[test]
fn enter_runs_the_search_from_every_field() {
    let mut app = make_app();
    app.pattern = "needle".into();
    for _ in 0..8 {
        let chips = app.extensions.chips.clone();
        assert!(matches!(press(&mut app, Key::Enter), Action::Search(_)));
        assert_eq!(app.extensions.chips, chips);
        press(&mut app, Key::Tab);
    }
}

fn results_phase_with(count: usize) -> Phase {
    let mut rs = Vec::new();
    for i in 0..count {
        let ms = vec![Match::new("x".into(), format!("ctx {i}"))];
        rs.push(SearchResult::new(format!("f{i}.txt"), FileType::Text, ms, 0));
    }
    Phase::Results {
        results: rs,
        stats: SearchStats::new(),
        show_preview: false,
        selected: if count > 0 { Some(0) } else { None },
    }
}

fn selected(app: &App) -> Option<usize> {
    match &app.phase {
        Phase::Results { selected, .. } => *selected,
        _ => panic!("expected Results phase"),
    }
}

#[test]
fn results_up_down_wraps_around() {
    let mut app = make_app();
    app.phase = results_phase_with(3);
    press(&mut app, Key::Up);
    assert_eq!(selected(&app), Some(2));
    press(&mut app, Key::Down);
    assert_eq!(selected(&app), Some(0));
}

#[test]
fn results_home_end_jump_to_bounds() {
    let mut app = make_app();
    app.phase = results_phase_with(5);
    press(&mut app, Key::End);
    assert_eq!(selected(&app), Some(4));
    press(&mut app, Key::Home);
    assert_eq!(selected(&app), Some(0));
}

#[test]
fn results_b_returns_to_setup_preserving_form() {
    let mut app = make_app();
    app.pattern = "keepme".into();
    app.phase = results_phase_with(2);
    press(&mut app, Key::Char('b'));
    assert!(matches!(app.phase, Phase::Setup));
    assert_eq!(app.pattern, "keepme");
}

#[test]
fn results_n_clears_pattern_and_returns_to_setup() {
    let mut app = make_app();
    app.pattern = "oldquery".into();
    app.phase = results_phase_with(2);
    press(&mut app, Key::Char('n'));
    assert!(matches!(app.phase, Phase::Setup));
    assert_eq!(app.pattern, "");
}

#[test]
fn results_q_quits() {
    let mut app = make_app();
    app.phase = results_phase_with(1);
    press(&mut app, Key::Char('q'));
    assert!(app.should_quit);
}

#[test]
fn results_enter_opens_the_selected_file() {
    let mut app = make_app();
    app.phase = results_phase_with(3);
    press(&mut app, Key::Down);
    match press(&mut app, Key::Enter) {
        Action::Open(path) => assert_eq!(path, "f1.txt"),
        _ => panic!("expected a file to open"),
    }
    app.opened("f1.txt", Err("no program".into()), 10);
    assert!(app.last_error.is_some());
    app.opened("f1.txt", Ok(()), 10);
    assert!(app.toast.as_ref().unwrap().0.contains("f1.txt"));
}

fn searching() -> Phase {
    Phase::Searching { started: 0, tick: 0, show_preview: true }
}

#[test]
fn searching_esc_only_shows_toast_does_not_transition() {
    let mut app = make_app();
    app.phase = searching();
    press(&mut app, Key::Esc);
    assert!(matches!(app.phase, Phase::Searching { .. }));
    assert!(app.toast.is_some());
}

#[test]
fn tick_transitions_to_results_when_search_done_message_arrives() {
    let mut app = make_app();
    app.phase = searching();
    app.tick(SearchPoll::Done { results: Vec::new(), stats: SearchStats::new() }, 0);
    assert!(matches!(app.phase, Phase::Results { .. }));
}

#[test]
fn tick_falls_back_to_setup_when_sender_drops_early() {
    let mut app = make_app();
    app.phase = searching();
    app.tick(SearchPoll::Disconnected, 0);
    assert!(matches!(app.phase, Phase::Setup));
}

#[test]
fn tick_counts_while_the_search_goes_on() {
    let mut app = make_app();
    app.phase = searching();
    app.tick(SearchPoll::Empty, 0);
    app.tick(SearchPoll::Empty, 0);
    assert!(matches!(app.phase, Phase::Searching { tick: 2, .. }));
}

#[test]
fn toast_expires() {
    let mut app = make_app();
    app.set_toast("hello toast".into(), Hue::Sage, 100);
    app.expire_toast(100 + TOAST_MS - 1);
    assert!(app.toast.is_some());
    app.expire_toast(100 + TOAST_MS + 1);
    assert!(app.toast.is_none());
}

#[test]
fn chips_narrow_the_search_and_none_do_not() {
    let admits = |app: &mut App, path: &str| -> bool {
        let (config, index_config) = app.configure_search("/data", true, None, 0).unwrap();
        let engine = app.launch(config, index_config, IndexRead::Missing, 0, 0).unwrap();
        let file = WalkedFile { path: path.into(), canonical: None, binary: false };
        engine.select_file(&file, &None)
    };
    let mut app = make_app();
    assert!(admits(&mut app, "/data/a.odd") && admits(&mut app, "/data/plain"));
    app.extensions.chips[0].1 = true;
    let name = app.extensions.chips[0].0.to_uppercase();
    assert!(admits(&mut app, &format!("/data/a.{name}")));
    assert!(!admits(&mut app, "/data/a.odd") && !admits(&mut app, "/data/plain"));
}
