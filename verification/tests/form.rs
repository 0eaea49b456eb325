use argus::tui::form::{
    max_depth_index, max_depth_label, max_depth_option, ChipList, Flags, Focus, DEPTHS,
};

#[test]
fn focus_next_covers_every_variant_in_order() {
    let order = [
        Focus::Pattern,
        Focus::Directory,
        Focus::Extensions,
        Focus::Flags,
        Focus::OcrEnginePicker,
        Focus::MaxDepth,
        Focus::Limit,
        Focus::RunButton,
    ];
    let mut f = order[0];
    for expected in order.iter().skip(1).chain(order.iter().take(1)) {
        f = f.next();
        assert_eq!(f, *expected);
    }
}

#[test]
fn focus_prev_is_inverse_of_next() {
    let all = [
        Focus::Pattern,
        Focus::Directory,
        Focus::Extensions,
        Focus::Flags,
        Focus::OcrEnginePicker,
        Focus::MaxDepth,
        Focus::Limit,
        Focus::RunButton,
    ];
    for f in all {
        assert_eq!(f.next().prev(), f);
        assert_eq!(f.prev().next(), f);
    }
}

#[test]
fn chiplist_preseeds_user_supplied_extensions_as_on() {
    let list = ChipList::new(&vec!["pdf".into(), "RS".into()]);
    assert!(list.chips.iter().any(|(n, on)| n == "pdf" && *on));
    assert!(list.chips.iter().any(|(n, on)| n == "rs" && *on));
    assert!(list.chips.iter().any(|(n, on)| n == "txt" && !*on));
}

#[test]
fn chiplist_adds_unknown_user_extension() {
    let list = ChipList::new(&vec!["exotic".into()]);
    assert!(list.chips.iter().any(|(n, on)| n == "exotic" && *on));
}

#[test]
fn chiplist_adds_each_unknown_extension_once() {
    let list = ChipList::new(&vec![".exotic".into(), "pdf".into(), "EXOTIC".into(), "odd".into()]);
    assert_eq!(list.chips.len(), 24);
    assert_eq!(list.chips[22], ("exotic".to_string(), true));
    assert_eq!(list.chips[23], ("odd".to_string(), true));
}

#[test]
fn chiplist_toggle_current_flips_single_chip() {
    let mut list = ChipList::new(&vec![]);
    let before = list.chips[0].1;
    list.toggle_current();
    assert_eq!(list.chips[0].1, !before);
    list.toggle_current();
    assert_eq!(list.chips[0].1, before);
}

#[test]
fn chiplist_move_cursor_wraps() {
    let mut list = ChipList::new(&vec![]);
    list.cursor = 0;
    list.move_cursor(-1);
    assert_eq!(list.cursor, list.chips.len() - 1);
    list.move_cursor(1);
    assert_eq!(list.cursor, 0);
    list.move_cursor(-6);
    assert_eq!(list.cursor, 16);
    list.move_cursor(50);
    assert_eq!(list.cursor, 0);
    list.move_cursor(-23);
    assert_eq!(list.cursor, 21);
}

#[test]
fn chiplist_move_cursor_is_a_noop_on_empty() {
    let mut list = ChipList { chips: Vec::new(), cursor: 0 };
    list.move_cursor(5);
    assert_eq!(list.cursor, 0);
}

#[test]
fn chiplist_selected_returns_only_enabled_chips() {
    let list = ChipList::new(&vec!["pdf".into(), "md".into()]);
    let selected = list.selected();
    assert!(selected.contains(&"pdf".to_string()));
    assert!(selected.contains(&"md".to_string()));
    assert!(!selected.contains(&"rs".to_string()));
    assert_eq!(list.active_count(), 2);
}

fn blank_flags() -> Flags {
    Flags {
        case_sensitive: false,
        use_regex: false,
        ocr: false,
        include_hidden: false,
        show_preview: false,
        use_index: false,
        save_index: false,
        cursor: 0,
    }
}

#[test]
fn flags_entries_len_matches_const() {
    let flags = blank_flags();
    assert_eq!(flags.entries().len(), Flags::LEN);
    assert_eq!(flags.entries()[2].0, "OCR on images");
}

#[test]
fn flags_toggle_current_flips_each_slot() {
    let mut flags = blank_flags();
    for i in 0..Flags::LEN {
        flags.cursor = i;
        flags.toggle_current();
    }
    assert!(flags.case_sensitive);
    assert!(flags.use_regex);
    assert!(flags.ocr);
    assert!(flags.include_hidden);
    assert!(flags.show_preview);
    assert!(flags.use_index);
    assert!(flags.save_index);
}

#[test]
fn flags_move_cursor_wraps_both_ways() {
    let mut flags = blank_flags();
    flags.move_cursor(-1);
    assert_eq!(flags.cursor, Flags::LEN - 1);
    flags.move_cursor(1);
    assert_eq!(flags.cursor, 0);
}

#[test]
fn max_depth_index_defaults_to_zero_when_not_in_catalog() {
    assert_eq!(max_depth_index(Some(999)), 0);
    assert_eq!(max_depth_index(None), 0);
    assert_eq!(max_depth_index(Some(3)), 3);
}

#[test]
fn max_depth_options_are_found_in_their_places() {
    for i in 0..DEPTHS {
        assert_eq!(max_depth_index(max_depth_option(i)), i);
    }
    assert_eq!(max_depth_option(4), Some(5));
}

#[test]
fn max_depth_label_shapes() {
    assert_eq!(max_depth_label(None), "unlimited");
    assert_eq!(max_depth_label(Some(5)), "5 levels");
}
