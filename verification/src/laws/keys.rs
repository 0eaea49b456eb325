//! What the keys do in the interface.

use crate::tui::form::{Flags, Focus};
use crate::tui::paint::Hue;
use crate::tui::state::{ActionView, App, AppView, Key, KeyPress, PhaseView, SearchPoll};
use crate::types::OcrEngine;
use vstd::prelude::*;

verus! {

// ---- What can be seen -----------------------------------------------------

/// What can be seen of the interface is what its fields hold.
pub proof fn law_what_can_be_seen(app: App)
    ensures
        app@.pattern == app.pattern@,
        app@.directory == app.directory@,
        app@.flags == app.flags,
        app@.limit == app.limit,
        app@.ocr_engine == app.ocr_engine,
        app@.max_depth == app.max_depth,
        app@.focus == app.focus,
        app@.toast_until == app.toast_until,
        app@.should_quit == app.should_quit,
        app@.chip_cursor == app.extensions.cursor,
        app@.chips.len() == app.extensions.chips@.len(),
        forall|i: int|
            0 <= i < app@.chips.len() ==> (#[trigger] app@.chips[i]) == (
                app.extensions.chips@[i].0@,
                app.extensions.chips@[i].1,
            ),
        app.toast is None <==> app@.toast is None,
        app.toast matches Some((text, hue)) ==> app@.toast == Some((text@, hue)),
        app.last_error is None <==> app@.last_error is None,
        app.last_error matches Some(error) ==> app@.last_error == Some(error@),
        app.phase is Setup <==> app@.phase is Setup,
        app.phase matches crate::tui::state::Phase::Searching { started, tick, show_preview }
            ==> app@.phase == (PhaseView::Searching { started, tick, show_preview }),
        app.phase matches crate::tui::state::Phase::Results {
            results,
            stats,
            show_preview,
            selected,
        } ==> app@.phase == (PhaseView::Results {
            results: results@,
            stats,
            show_preview,
            selected,
        }),
{
}

// ---- Text fields ----------------------------------------------------------

/// Pressing a character without Ctrl while the query has the focus appends it to the
/// query, whatever character it is, and changes nothing else; so it does in the
/// directory.
pub proof fn law_typed_character_is_appended(
    v: AppView,
    c: char,
    now: u64,
    home: Option<Seq<char>>,
)
    requires
        v.phase is Setup,
    ensures
        v.focus == Focus::Pattern ==> crate::tui::state::key_step(
            v,
            KeyPress { key: Key::Char(c), ctrl: false },
            now,
            home,
        ) == (AppView { pattern: v.pattern.push(c), ..v }, ActionView::Nothing),
        v.focus == Focus::Directory ==> crate::tui::state::key_step(
            v,
            KeyPress { key: Key::Char(c), ctrl: false },
            now,
            home,
        ) == (AppView { directory: v.directory.push(c), ..v }, ActionView::Nothing),
{
}

/// Typing the characters of a text one after the other puts the text behind what
/// stands in the field: an empty field then holds the text.
pub proof fn law_typed_text_stands_in_the_field(
    v: AppView,
    text: Seq<char>,
    now: u64,
    home: Option<Seq<char>>,
)
    requires
        v.phase is Setup,
    ensures
        ({
            let typed = text.fold_left(
                v,
                |s: AppView, c: char|
                    crate::tui::state::key_step(
                        s,
                        KeyPress { key: Key::Char(c), ctrl: false },
                        now,
                        home,
                    ).0,
            );
            &&& v.focus == Focus::Pattern ==> typed == (AppView { pattern: v.pattern + text, ..v })
            &&& v.focus == Focus::Directory ==> typed == (AppView {
                directory: v.directory + text,
                ..v
            })
            &&& v.focus == Focus::Pattern && v.pattern.len() == 0 ==> typed.pattern == text
            &&& v.focus == Focus::Directory && v.directory.len() == 0 ==> typed.directory == text
        }),
    decreases text.len(),
{
    let step = |s: AppView, c: char|
        crate::tui::state::key_step(s, KeyPress { key: Key::Char(c), ctrl: false }, now, home).0;
    let typed = text.fold_left(v, step);
    if text.len() == 0 {
        assert(v.pattern + text =~= v.pattern);
        assert(v.directory + text =~= v.directory);
    } else {
        let before = text.drop_last();
        law_typed_text_stands_in_the_field(v, before, now, home);
        let so_far = before.fold_left(v, step);
        assert(typed == step(so_far, text.last()));
        assert((v.pattern + before).push(text.last()) =~= v.pattern + text);
        assert((v.directory + before).push(text.last()) =~= v.directory + text);
    }
    if v.pattern.len() == 0 {
        assert(v.pattern + text =~= text);
    }
    if v.directory.len() == 0 {
        assert(v.directory + text =~= text);
    }
}

/// Backspace takes back the last character of the field: after a character it leaves
/// everything as it was, and in an empty field it does nothing. Ctrl+U empties the
/// field. No other key with Ctrl, and no key without a character, changes it.
pub proof fn law_taking_text_back(
    v: AppView,
    c: char,
    ctrl: bool,
    now: u64,
    home: Option<Seq<char>>,
)
    requires
        v.phase is Setup,
        v.focus == Focus::Pattern || v.focus == Focus::Directory,
    ensures
        ({
            let typed = crate::tui::state::key_step(
                v,
                KeyPress { key: Key::Char(c), ctrl: false },
                now,
                home,
            ).0;
            crate::tui::state::key_step(
                typed,
                KeyPress { key: Key::Backspace, ctrl },
                now,
                home,
            ).0 == v
        }),
        v.focus == Focus::Pattern ==> crate::tui::state::key_step(
            AppView { pattern: Seq::empty(), ..v },
            KeyPress { key: Key::Backspace, ctrl },
            now,
            home,
        ).0 == (AppView { pattern: Seq::empty(), ..v }),
        v.focus == Focus::Directory ==> crate::tui::state::key_step(
            AppView { directory: Seq::empty(), ..v },
            KeyPress { key: Key::Backspace, ctrl },
            now,
            home,
        ).0 == (AppView { directory: Seq::empty(), ..v }),
        crate::tui::state::key_step(
            v,
            KeyPress { key: Key::Char('u'), ctrl: true },
            now,
            home,
        ).0 == (if v.focus == Focus::Pattern {
            AppView { pattern: Seq::empty(), ..v }
        } else {
            AppView { directory: Seq::empty(), ..v }
        }),
        c != 'c' && c != 'u' ==> crate::tui::state::key_step(
            v,
            KeyPress { key: Key::Char(c), ctrl: true },
            now,
            home,
        ) == (v, ActionView::Nothing),
        forall|key: Key|
            key == Key::Left || key == Key::Right || key == Key::Up || key == Key::Down || key
                == Key::Home || key == Key::End || key == Key::Other
                ==> #[trigger] crate::tui::state::key_step(
                v,
                KeyPress { key, ctrl },
                now,
                home,
            ) == (v, ActionView::Nothing),
{
    assert(v.pattern.push(c).drop_last() =~= v.pattern);
    assert(v.directory.push(c).drop_last() =~= v.directory);
}

// ---- Moving between the fields --------------------------------------------

/// Tab goes through the eight fields in their order and from the last to the first,
/// and Shift+Tab goes back; nothing but the focus changes.
pub proof fn law_tab_goes_through_the_fields(
    v: AppView,
    ctrl: bool,
    now: u64,
    home: Option<Seq<char>>,
    i: int,
)
    requires
        v.phase is Setup,
        0 <= i < 8,
    ensures
        ({
            let order = seq![
                Focus::Pattern,
                Focus::Directory,
                Focus::Extensions,
                Focus::Flags,
                Focus::OcrEnginePicker,
                Focus::MaxDepth,
                Focus::Limit,
                Focus::RunButton,
            ];
            let here = AppView { focus: order[i], ..v };
            let next = AppView { focus: order[(i + 1) % 8], ..v };
            &&& crate::tui::state::key_step(here, KeyPress { key: Key::Tab, ctrl }, now, home) == (
                next,
                ActionView::Nothing,
            )
            &&& crate::tui::state::key_step(next, KeyPress { key: Key::BackTab, ctrl }, now, home)
                == (here, ActionView::Nothing)
        }),
{
}

/// Escape in the form ends the program.
pub proof fn law_escape_leaves_the_form(
    v: AppView,
    ctrl: bool,
    now: u64,
    home: Option<Seq<char>>,
)
    requires
        v.phase is Setup,
    ensures
        crate::tui::state::key_step(v, KeyPress { key: Key::Esc, ctrl }, now, home) == (
            AppView { should_quit: true, ..v },
            ActionView::Nothing,
        ),
{
}

// ---- Asking for a search --------------------------------------------------

/// Enter in every field, and the space bar on the button, ask for the search in the
/// directory of the form. Without a query, or with one of nothing but white space,
/// the query is asked for, for three seconds, and gets the focus.
pub proof fn law_asking_for_a_search(v: AppView, ctrl: bool, now: u64, home: Option<Seq<char>>)
    requires
        v.phase is Setup,
    ensures
        ({
            let asked = crate::tui::state::key_step(
                v,
                KeyPress { key: Key::Enter, ctrl },
                now,
                home,
            );
            let blank = forall|i: int|
                0 <= i < v.pattern.len() ==> crate::text::white_space(#[trigger] v.pattern[i]);
            let until: u64 = if now > u64::MAX - 3000 {
                u64::MAX
            } else {
                (now + 3000) as u64
            };
            &&& blank ==> asked == (
                AppView {
                    focus: Focus::Pattern,
                    toast: Some(("enter a search query first"@, Hue::Alert)),
                    toast_until: Some(until),
                    ..v
                },
                ActionView::Nothing,
            )
            &&& !blank ==> asked.0 == v && asked.1 is Search
            &&& !blank && home is None ==> asked.1 == ActionView::Search(v.directory)
            &&& v.focus == Focus::RunButton ==> crate::tui::state::key_step(
                v,
                KeyPress { key: Key::Char(' '), ctrl },
                now,
                home,
            ) == asked
        }),
{
    lemma_blank(v.pattern);
}

/// Nothing is left of a text when it is trimmed exactly if it is all white space.
proof fn lemma_blank(text: Seq<char>)
    ensures
        crate::text::trimmed(text).len() == 0 <==> forall|i: int|
            0 <= i < text.len() ==> crate::text::white_space(#[trigger] text[i]),
    decreases text.len(),
{
    let none = Seq::<char>::empty();
    if forall|i: int| 0 <= i < text.len() ==> crate::text::white_space(#[trigger] text[i]) {
        crate::laws::texts::law_trimmed(text, none, none);
        assert(text + none + none =~= text);
    } else {
        let at = choose|i: int|
            0 <= i < text.len() && !crate::text::white_space(#[trigger] text[i]);
        lemma_start_keeps(text, at);
        let start = crate::text::trimmed_start(text);
        let j = choose|j: int|
            0 <= j < start.len() && !crate::text::white_space(#[trigger] start[j]);
        lemma_end_keeps(start, j);
    }
}

proof fn lemma_start_keeps(text: Seq<char>, at: int)
    requires
        0 <= at < text.len(),
        !crate::text::white_space(text[at]),
    ensures
        exists|j: int|
            0 <= j < crate::text::trimmed_start(text).len() && !crate::text::white_space(
                #[trigger] crate::text::trimmed_start(text)[j],
            ),
    decreases text.len(),
{
    if crate::text::white_space(text[0]) {
        assert(text.drop_first()[at - 1] == text[at]);
        lemma_start_keeps(text.drop_first(), at - 1);
        let rest = crate::text::trimmed_start(text.drop_first());
        let j = choose|j: int|
            0 <= j < rest.len() && !crate::text::white_space(#[trigger] rest[j]);
        assert(crate::text::trimmed_start(text)[j] == rest[j]);
    } else {
        assert(crate::text::trimmed_start(text)[at] == text[at]);
    }
}

proof fn lemma_end_keeps(text: Seq<char>, at: int)
    requires
        0 <= at < text.len(),
        !crate::text::white_space(text[at]),
    ensures
        crate::text::trimmed_end(text).len() > 0,
    decreases text.len(),
{
    if crate::text::white_space(text.last()) {
        assert(text.drop_last()[at] == text[at]);
        lemma_end_keeps(text.drop_last(), at);
    }
}

/// The home directory stands for a tilde and for `$HOME`, alone or before a slash;
/// any other directory stands for itself, and so does every one where the home
/// directory is not known.
pub proof fn law_home_directory(home: Seq<char>, rest: Seq<char>)
    ensures
        crate::tui::state::expanded("~"@, Some(home)) == home,
        crate::tui::state::expanded("$HOME"@, Some(home)) == home,
        crate::tui::state::expanded("~/"@ + rest, Some(home)) == crate::paths::joined_path(
            home,
            rest,
        ),
        crate::tui::state::expanded("$HOME/"@ + rest, Some(home)) == crate::paths::joined_path(
            home,
            rest,
        ),
        rest.len() == 0 || (rest[0] != '~' && rest[0] != '$') ==> crate::tui::state::expanded(
            rest,
            Some(home),
        ) == rest,
        rest.len() > 1 && rest[0] == '~' && rest[1] != '/' ==> crate::tui::state::expanded(
            rest,
            Some(home),
        ) == rest,
        crate::tui::state::expanded(rest, None) == rest,
{
    reveal_strlit("~");
    reveal_strlit("~/");
    reveal_strlit("$HOME");
    reveal_strlit("$HOME/");
    let a = "~/"@ + rest;
    let b = "$HOME/"@ + rest;
    assert(a.skip(2) =~= rest);
    assert(b.skip(6) =~= rest);
    assert("~/"@.is_prefix_of(a)) by {
        assert(a.subrange(0, 2) =~= "~/"@);
    }
    assert("$HOME/"@.is_prefix_of(b)) by {
        assert(b.subrange(0, 6) =~= "$HOME/"@);
    }
    assert(a[0] == '~' && a[1] == '/');
    assert(b[0] == '$' && b[5] == '/' && b.len() >= 6);
    assert("$HOME"@.len() != "~"@.len());
    if "~/"@.is_prefix_of(rest) {
        assert(rest.subrange(0, 2)[0] == '~' && rest.subrange(0, 2)[1] == '/');
    }
    if "$HOME/"@.is_prefix_of(rest) {
        assert(rest.subrange(0, 6)[0] == '$');
    }
    if "~/"@.is_prefix_of(b) {
        assert(b.subrange(0, 2)[0] == '~');
    }
    assert("~"@[0] == '~' && "$HOME"@[0] == '$');
}

// ---- Chips, flags and pickers ---------------------------------------------

/// On the chips the arrow keys, or `h`, `l`, `k` and `j`, move the cursor by one or by
/// six in the ring of chips, and the space bar switches the chip under the cursor and
/// no other. Nothing else changes.
pub proof fn law_keys_on_the_chips(
    v: AppView,
    key: Key,
    ctrl: bool,
    now: u64,
    home: Option<Seq<char>>,
    i: int,
)
    requires
        v.phase is Setup,
        !(ctrl && key == Key::Char('c')),
        v.focus == Focus::Extensions,
        0 <= v.chip_cursor < v.chips.len(),
        0 <= i < v.chips.len(),
    ensures
        ({
            let (after, action) = crate::tui::state::key_step(
                v,
                KeyPress { key, ctrl },
                now,
                home,
            );
            let n = v.chips.len() as int;
            let delta: int = if key == Key::Left || key == Key::Char('h') {
                -1
            } else if key == Key::Right || key == Key::Char('l') {
                1
            } else if key == Key::Up || key == Key::Char('k') {
                -6
            } else {
                6
            };
            &&& key == Key::Left || key == Key::Char('h') || key == Key::Right || key == Key::Char(
                'l',
            ) || key == Key::Up || key == Key::Char('k') || key == Key::Down || key == Key::Char(
                'j',
            ) ==> after == (AppView { chip_cursor: (v.chip_cursor + delta) % n, ..v }) && action
                == ActionView::Nothing
            &&& key == Key::Char(' ') ==> {
                &&& after == (AppView { chips: after.chips, ..v })
                &&& action == ActionView::Nothing
                &&& after.chips.len() == v.chips.len()
                &&& after.chips[i].0 == v.chips[i].0
                &&& i == v.chip_cursor ==> after.chips[i].1 == !v.chips[i].1
                &&& i != v.chip_cursor ==> after.chips[i].1 == v.chips[i].1
            }
        }),
{
}

/// On the flags the arrow keys up and down, or `k` and `j`, move the cursor in the
/// ring of seven, and the space bar switches the flag under the cursor and no other.
/// Nothing else changes.
pub proof fn law_keys_on_the_flags(
    v: AppView,
    key: Key,
    ctrl: bool,
    now: u64,
    home: Option<Seq<char>>,
)
    requires
        v.phase is Setup,
        !(ctrl && key == Key::Char('c')),
        v.focus == Focus::Flags,
        v.flags.cursor < 7,
    ensures
        ({
            let f = v.flags;
            let (after, action) = crate::tui::state::key_step(
                v,
                KeyPress { key, ctrl },
                now,
                home,
            );
            &&& key == Key::Up || key == Key::Char('k') || key == Key::Down || key == Key::Char(
                'j',
            ) || key == Key::Char(' ') ==> after == (AppView { flags: after.flags, ..v })
                && action == ActionView::Nothing
            &&& key == Key::Down || key == Key::Char('j') ==> after.flags == (Flags {
                cursor: if f.cursor == 6 {
                    0
                } else {
                    (f.cursor + 1) as usize
                },
                ..f
            })
            &&& key == Key::Up || key == Key::Char('k') ==> after.flags == (Flags {
                cursor: if f.cursor == 0 {
                    6
                } else {
                    (f.cursor - 1) as usize
                },
                ..f
            })
            &&& key == Key::Char(' ') ==> {
                &&& f.cursor == 0 ==> after.flags == (Flags {
                    case_sensitive: !f.case_sensitive,
                    ..f
                })
                &&& f.cursor == 1 ==> after.flags == (Flags { use_regex: !f.use_regex, ..f })
                &&& f.cursor == 2 ==> after.flags == (Flags { ocr: !f.ocr, ..f })
                &&& f.cursor == 3 ==> after.flags == (Flags {
                    include_hidden: !f.include_hidden,
                    ..f
                })
                &&& f.cursor == 4 ==> after.flags == (Flags { show_preview: !f.show_preview, ..f })
                &&& f.cursor == 5 ==> after.flags == (Flags { use_index: !f.use_index, ..f })
                &&& f.cursor == 6 ==> after.flags == (Flags { save_index: !f.save_index, ..f })
            }
        }),
{
}

/// On the engines the arrow keys left and right, `h`, `l` and the space bar change
/// between the two engines that can be picked; from the vision model they lead to the
/// first of them.
pub proof fn law_keys_on_the_engines(
    v: AppView,
    key: Key,
    ctrl: bool,
    now: u64,
    home: Option<Seq<char>>,
)
    requires
        v.phase is Setup,
        !(ctrl && key == Key::Char('c')),
        v.focus == Focus::OcrEnginePicker,
        key == Key::Left || key == Key::Right || key == Key::Char(' ') || key == Key::Char('h')
            || key == Key::Char('l'),
    ensures
        crate::tui::state::key_step(v, KeyPress { key, ctrl }, now, home) == (
            AppView {
                ocr_engine: if v.ocr_engine == OcrEngine::Tesseract {
                    OcrEngine::Ocrs
                } else {
                    OcrEngine::Tesseract
                },
                ..v
            },
            ActionView::Nothing,
        ),
{
}

/// On the depth the keys go through no limit, 1, 2, 3, 5, 10 and 20 levels and from the
/// last to the first, or back. A depth that is none of these counts as no limit.
pub proof fn law_keys_on_the_depth(
    v: AppView,
    key: Key,
    ctrl: bool,
    now: u64,
    home: Option<Seq<char>>,
    i: int,
)
    requires
        v.phase is Setup,
        !(ctrl && key == Key::Char('c')),
        v.focus == Focus::MaxDepth,
        0 <= i < 7,
    ensures
        ({
            let choices = seq![
                None,
                Some(1usize),
                Some(2usize),
                Some(3usize),
                Some(5usize),
                Some(10usize),
                Some(20usize),
            ];
            let (after, action) = crate::tui::state::key_step(
                v,
                KeyPress { key, ctrl },
                now,
                home,
            );
            let forth = key == Key::Right || key == Key::Up || key == Key::Char('l') || key
                == Key::Char('k');
            let back = key == Key::Left || key == Key::Down || key == Key::Char('h') || key
                == Key::Char('j');
            &&& forth || back ==> after == (AppView { max_depth: after.max_depth, ..v }) && action
                == ActionView::Nothing
            &&& v.max_depth == choices[i] && forth ==> after.max_depth == choices[(i + 1) % 7]
            &&& v.max_depth == choices[i] && back ==> after.max_depth == choices[(i + 6) % 7]
            &&& !choices.contains(v.max_depth) && forth ==> after.max_depth == Some(1usize)
            &&& !choices.contains(v.max_depth) && back ==> after.max_depth == Some(20usize)
        }),
{
    let choices = seq![
        None,
        Some(1usize),
        Some(2usize),
        Some(3usize),
        Some(5usize),
        Some(10usize),
        Some(20usize),
    ];
    assert(choices[0] == None::<usize>);
    assert(choices[1] == Some(1usize));
    assert(choices[2] == Some(2usize));
    assert(choices[3] == Some(3usize));
    assert(choices[4] == Some(5usize));
    assert(choices[5] == Some(10usize));
    assert(choices[6] == Some(20usize));
}

/// On the limit the keys go up or down by five, to no more than 500 and to no less
/// than 1.
pub proof fn law_keys_on_the_limit(
    v: AppView,
    key: Key,
    ctrl: bool,
    now: u64,
    home: Option<Seq<char>>,
)
    requires
        v.phase is Setup,
        !(ctrl && key == Key::Char('c')),
        v.focus == Focus::Limit,
    ensures
        ({
            let (after, action) = crate::tui::state::key_step(
                v,
                KeyPress { key, ctrl },
                now,
                home,
            );
            let up = key == Key::Up || key == Key::Right || key == Key::Char('k') || key
                == Key::Char('l');
            let down = key == Key::Down || key == Key::Left || key == Key::Char('j') || key
                == Key::Char('h');
            &&& up || down ==> after == (AppView { limit: after.limit, ..v }) && action
                == ActionView::Nothing
            &&& up && v.limit <= 495 ==> after.limit == v.limit + 5
            &&& up && v.limit > 495 ==> after.limit == 500
            &&& down && v.limit > 5 ==> after.limit == v.limit - 5
            &&& down && v.limit <= 5 ==> after.limit == 1
        }),
{
}

/// Every other key in a field of the form does nothing.
pub proof fn law_other_keys_do_nothing(
    v: AppView,
    key: Key,
    ctrl: bool,
    now: u64,
    home: Option<Seq<char>>,
)
    requires
        v.phase is Setup,
        !(ctrl && key == Key::Char('c')),
        key == Key::Home || key == Key::End || key == Key::Other || ((key == Key::Backspace || (
        key matches Key::Char(c) && c != ' ' && c != 'h' && c != 'j' && c != 'k' && c != 'l'))
            && v.focus != Focus::Pattern && v.focus != Focus::Directory) || ((key == Key::Left || key
            == Key::Right || key == Key::Char('h') || key == Key::Char('l')) && (v.focus
            == Focus::Flags || v.focus == Focus::RunButton)) || ((key == Key::Up || key == Key::Down
            || key == Key::Char('k') || key == Key::Char('j')) && (v.focus
            == Focus::OcrEnginePicker || v.focus == Focus::RunButton)) || (key == Key::Char(' ') && (
        v.focus == Focus::MaxDepth || v.focus == Focus::Limit)),
    ensures
        crate::tui::state::key_step(v, KeyPress { key, ctrl }, now, home) == (
            v,
            ActionView::Nothing,
        ),
{
}

// ---- The results ----------------------------------------------------------

/// Among the results the keys move the selection: up and down in the ring of results,
/// to the first, and to the last. Enter and `o` open the file of the selected result,
/// or of the first where none is selected. Nothing else changes.
pub proof fn law_keys_on_the_results(
    v: AppView,
    key: Key,
    ctrl: bool,
    now: u64,
    home: Option<Seq<char>>,
)
    requires
        v.phase is Results,
        0 < v.phase->results.len() <= usize::MAX,
        v.phase->selected matches Some(at) ==> at < v.phase->results.len(),
        !(ctrl && key == Key::Char('c')),
    ensures
        ({
            let n = v.phase->results.len() as int;
            let at: int = match v.phase->selected {
                Some(at) => at as int,
                None => 0,
            };
            let (after, action) = crate::tui::state::key_step(
                v,
                KeyPress { key, ctrl },
                now,
                home,
            );
            let moves = key == Key::Up || key == Key::Char('k') || key == Key::Down || key
                == Key::Char('j') || key == Key::Home || key == Key::Char('g') || key == Key::End
                || key == Key::Char('G');
            let to: int = if key == Key::Up || key == Key::Char('k') {
                if at == 0 {
                    n - 1
                } else {
                    at - 1
                }
            } else if key == Key::Down || key == Key::Char('j') {
                if at == n - 1 {
                    0
                } else {
                    at + 1
                }
            } else if key == Key::Home || key == Key::Char('g') {
                0
            } else {
                n - 1
            };
            &&& moves ==> action == ActionView::Nothing && after == (AppView {
                phase: PhaseView::Results {
                    results: v.phase->results,
                    stats: v.phase->stats,
                    show_preview: v.phase->Results_show_preview,
                    selected: Some(to as usize),
                },
                ..v
            })
            &&& key == Key::Enter || key == Key::Char('o') ==> after == v && action
                == ActionView::Open(v.phase->results[at].path@)
        }),
{
    let n = v.phase->results.len() as int;
    let at: int = match v.phase->selected {
        Some(at) => at as int,
        None => 0,
    };
    if at + 1 < n {
        vstd::arithmetic::div_mod::lemma_small_mod((at + 1) as nat, n as nat);
    } else {
        vstd::arithmetic::div_mod::lemma_mod_self_0(n);
    }
}

/// From the results `q` ends the program, Escape and `b` lead back to the form as it was
/// left, and `n` to the form with an empty query; no other key than those that move the
/// selection or open a file does anything, and without results those do nothing either.
pub proof fn law_leaving_the_results(
    v: AppView,
    key: Key,
    ctrl: bool,
    now: u64,
    home: Option<Seq<char>>,
)
    requires
        v.phase is Results,
        !(ctrl && key == Key::Char('c')),
    ensures
        ({
            let (after, action) = crate::tui::state::key_step(
                v,
                KeyPress { key, ctrl },
                now,
                home,
            );
            let moves = key == Key::Up || key == Key::Char('k') || key == Key::Down || key
                == Key::Char('j') || key == Key::Home || key == Key::Char('g') || key == Key::End
                || key == Key::Char('G');
            let opens = key == Key::Enter || key == Key::Char('o');
            let back = key == Key::Esc || key == Key::Char('b');
            &&& key == Key::Char('q') ==> after == (AppView { should_quit: true, ..v }) && action
                == ActionView::Nothing
            &&& back ==> after == (AppView {
                phase: PhaseView::Setup,
                focus: Focus::Pattern,
                ..v
            }) && action == ActionView::Nothing
            &&& key == Key::Char('n') ==> after == (AppView {
                phase: PhaseView::Setup,
                focus: Focus::Pattern,
                pattern: Seq::empty(),
                ..v
            }) && action == ActionView::Nothing
            &&& v.phase->results.len() == 0 && (moves || opens) ==> after == v && action
                == ActionView::Nothing
            &&& !moves && !opens && !back && key != Key::Char('q') && key != Key::Char('n')
                ==> after == v && action == ActionView::Nothing
        }),
{
}

/// While a search runs, Escape says for three seconds how to abort it, and every other
/// key but Ctrl+C does nothing.
pub proof fn law_keys_during_a_search(
    v: AppView,
    press: KeyPress,
    now: u64,
    home: Option<Seq<char>>,
)
    requires
        v.phase is Searching,
        !(press.ctrl && press.key == Key::Char('c')),
    ensures
        ({
            let until: u64 = if now > u64::MAX - 3000 {
                u64::MAX
            } else {
                (now + 3000) as u64
            };
            crate::tui::state::key_step(v, press, now, home) == (
                if press.key == Key::Esc {
                    AppView {
                        toast: Some(
                            ("still searching \u{2014} press Ctrl+C to abort"@, Hue::Muted),
                        ),
                        toast_until: Some(until),
                        ..v
                    }
                } else {
                    v
                },
                ActionView::Nothing,
            )
        }),
{
}

/// When a search is done, its results are shown as they came, the first of them
/// selected. Until then only the animation goes on; a search that is gone leads back
/// to the form. Nothing happens while no search runs.
pub proof fn law_what_a_tick_does(v: AppView, poll: SearchPoll, now: u64)
    ensures
        v.phase !is Searching ==> crate::tui::state::tick_step(v, poll, now) == v,
        v.phase matches PhaseView::Searching { started, tick, show_preview } ==> {
            &&& poll matches SearchPoll::Done { results, stats } ==> crate::tui::state::tick_step(
                v,
                poll,
                now,
            ) == (AppView {
                phase: PhaseView::Results {
                    results: results@,
                    stats,
                    show_preview,
                    selected: if results@.len() == 0 {
                        None
                    } else {
                        Some(0usize)
                    },
                },
                ..v
            })
            &&& poll is Empty && tick < usize::MAX ==> crate::tui::state::tick_step(v, poll, now)
                == (AppView {
                phase: PhaseView::Searching { started, tick: (tick + 1) as usize, show_preview },
                ..v
            })
            &&& poll is Disconnected ==> crate::tui::state::tick_step(v, poll, now) == (AppView {
                phase: PhaseView::Setup,
                toast: Some(("search thread died"@, Hue::Alert)),
                toast_until: Some(
                    if now > u64::MAX - 3000 {
                        u64::MAX
                    } else {
                        (now + 3000) as u64
                    },
                ),
                ..v
            })
        },
{
}

} // verus!
