//! The state of the interface, and how keys, search results and time change it.

use crate::index::IndexRead;
use crate::paths::join;
use crate::search::SearchEngine;
use crate::text::{chars_of, copied, is_blank, joined, same_text, string_of};
use crate::tui::form::{max_depth_index, max_depth_option, ChipList, Flags, Focus, DEPTHS};
use crate::tui::paint::Hue;
use crate::types::{
    IndexConfig, OcrConfig, OcrEngine, SearchConfig, SearchResult, SearchStats, VisionLlmConfig,
};
use crate::ui::display_filename;
use vstd::prelude::*;

verus! {

/// Values that fill in the form at the start. The interface owns all subsequent
/// edits.
#[derive(Debug, Clone)]
pub struct Prefill {
    pub directory: String,
    pub case_sensitive: bool,
    pub use_regex: bool,
    pub ocr_enabled: bool,
    pub ocr_engine: OcrEngine,
    pub vision_llm: VisionLlmConfig,
    pub limit: usize,
    pub max_depth: Option<usize>,
    pub include_hidden: bool,
    pub extensions: Vec<String>,
    pub show_preview: bool,
}

/// The keys that mean something.
#[derive(Clone, Copy, Debug, PartialEq, Eq, Structural)]
pub enum Key {
    Char(char),
    Enter,
    Esc,
    Tab,
    BackTab,
    Left,
    Right,
    Up,
    Down,
    Home,
    End,
    Backspace,
    Other,
}

/// A key that was pressed, and whether Ctrl was held.
#[derive(Clone, Copy, Debug, PartialEq, Eq, Structural)]
pub struct KeyPress {
    pub key: Key,
    pub ctrl: bool,
}

/// What the interface is doing.
pub enum Phase {
    /// A search is composed.
    Setup,
    /// A search runs since the time `started`.
    Searching { started: u64, tick: usize, show_preview: bool },
    /// The results of a search are shown.
    Results {
        results: Vec<SearchResult>,
        stats: SearchStats,
        show_preview: bool,
        selected: Option<usize>,
    },
}

/// What has to be done outside.
pub enum Action {
    /// Nothing.
    Nothing,
    /// A search is wanted in this directory.
    Search(String),
    /// A file is to be opened.
    Open(String),
}

/// What the search has said since it was last asked.
pub enum SearchPoll {
    /// It is done.
    Done { results: Vec<SearchResult>, stats: SearchStats },
    /// Nothing.
    Empty,
    /// It is gone.
    Disconnected,
}

/// The state of the interface.
pub struct App {
    pub phase: Phase,
    // Form state
    pub pattern: String,
    pub directory: String,
    pub extensions: ChipList,
    pub flags: Flags,
    pub limit: usize,
    pub ocr_engine: OcrEngine,
    pub vision_llm: VisionLlmConfig,
    pub max_depth: Option<usize>,
    pub focus: Focus,
    // Shared
    pub index_config: IndexConfig,
    pub toast: Option<(String, Hue)>,
    pub toast_until: Option<u64>,
    pub should_quit: bool,
    // Last opened file's error, if any
    pub last_error: Option<String>,
}

// ---- The model ------------------------------------------------------------

pub enum PhaseView {
    Setup,
    Searching { started: u64, tick: usize, show_preview: bool },
    Results {
        results: Seq<SearchResult>,
        stats: SearchStats,
        show_preview: bool,
        selected: Option<usize>,
    },
}

impl View for Phase {
    type V = PhaseView;

    open spec fn view(&self) -> PhaseView {
        match *self {
            Phase::Setup => PhaseView::Setup,
            Phase::Searching { started, tick, show_preview } => PhaseView::Searching {
                started,
                tick,
                show_preview,
            },
            Phase::Results { results, stats, show_preview, selected } => PhaseView::Results {
                results: results@,
                stats,
                show_preview,
                selected,
            },
        }
    }
}

/// What can be seen of the state.
#[verifier::ext_equal]
pub struct AppView {
    pub phase: PhaseView,
    pub pattern: Seq<char>,
    pub directory: Seq<char>,
    pub chips: Seq<(Seq<char>, bool)>,
    pub chip_cursor: int,
    pub flags: Flags,
    pub limit: int,
    pub ocr_engine: OcrEngine,
    pub max_depth: Option<usize>,
    pub focus: Focus,
    pub toast: Option<(Seq<char>, Hue)>,
    pub toast_until: Option<u64>,
    pub should_quit: bool,
    pub last_error: Option<Seq<char>>,
}

/// The chips as names and switches.
pub open spec fn chip_views(chips: Seq<(String, bool)>) -> Seq<(Seq<char>, bool)> {
    chips.map_values(|c: (String, bool)| (c.0@, c.1))
}

impl View for App {
    type V = AppView;

    open spec fn view(&self) -> AppView {
        AppView {
            phase: self.phase@,
            pattern: self.pattern@,
            directory: self.directory@,
            chips: chip_views(self.extensions.chips@),
            chip_cursor: self.extensions.cursor as int,
            flags: self.flags,
            limit: self.limit as int,
            ocr_engine: self.ocr_engine,
            max_depth: self.max_depth,
            focus: self.focus,
            toast: match self.toast {
                Some((text, hue)) => Some((text@, hue)),
                None => None,
            },
            toast_until: self.toast_until,
            should_quit: self.should_quit,
            last_error: crate::paths::opt_view(self.last_error),
        }
    }
}

pub enum ActionView {
    Nothing,
    Search(Seq<char>),
    Open(Seq<char>),
}

impl View for Action {
    type V = ActionView;

    open spec fn view(&self) -> ActionView {
        match *self {
            Action::Nothing => ActionView::Nothing,
            Action::Search(directory) => ActionView::Search(directory@),
            Action::Open(path) => ActionView::Open(path@),
        }
    }
}

/// How long a toast is shown, in milliseconds.
pub const TOAST_MS: u64 = 3000;

/// The time until which a toast is shown.
pub open spec fn toast_end(now: u64) -> u64 {
    if now > u64::MAX - TOAST_MS {
        u64::MAX
    } else {
        (now + TOAST_MS) as u64
    }
}

/// The state with a toast.
pub open spec fn with_toast(v: AppView, text: Seq<char>, hue: Hue, now: u64) -> AppView {
    AppView { toast: Some((text, hue)), toast_until: Some(toast_end(now)), ..v }
}

/// A directory with the home directory in place of a tilde or of `$HOME`, where
/// that is its first component.
pub open spec fn expanded(s: Seq<char>, home: Option<Seq<char>>) -> Seq<char> {
    match home {
        None => s,
        Some(h) => if s == "~"@ || s == "$HOME"@ {
            h
        } else if "~/"@.is_prefix_of(s) {
            crate::paths::joined_path(h, s.skip(2))
        } else if "$HOME/"@.is_prefix_of(s) {
            crate::paths::joined_path(h, s.skip(6))
        } else {
            s
        },
    }
}

/// Asking for a search: a query is needed first.
pub open spec fn search_asked(v: AppView, now: u64, home: Option<Seq<char>>) -> (
    AppView,
    ActionView,
) {
    if crate::text::trimmed(v.pattern).len() == 0 {
        (
            AppView {
                focus: Focus::Pattern,
                ..with_toast(v, "enter a search query first"@, Hue::Alert, now)
            },
            ActionView::Nothing,
        )
    } else {
        (v, ActionView::Search(expanded(v.directory, home)))
    }
}

/// Editing a text: characters are appended, backspace removes the last one, and
/// Ctrl+U all of them.
pub open spec fn edited(text: Seq<char>, press: KeyPress) -> Seq<char> {
    match press.key {
        Key::Char(c) => if press.ctrl {
            if c == 'u' {
                Seq::empty()
            } else {
                text
            }
        } else {
            text.push(c)
        },
        Key::Backspace => if text.len() > 0 {
            text.drop_last()
        } else {
            text
        },
        _ => text,
    }
}

/// The state with the chip cursor moved.
pub open spec fn chips_moved(v: AppView, delta: int) -> AppView {
    AppView {
        chip_cursor: if v.chips.len() == 0 {
            0
        } else {
            (v.chip_cursor + delta) % (v.chips.len() as int)
        },
        ..v
    }
}

/// The state with the chip under the cursor switched.
pub open spec fn chip_switched(v: AppView) -> AppView {
    if 0 <= v.chip_cursor < v.chips.len() {
        let chip = v.chips[v.chip_cursor];
        AppView { chips: v.chips.update(v.chip_cursor, (chip.0, !chip.1)), ..v }
    } else {
        v
    }
}

/// The flags with one of them switched.
pub open spec fn switched(flags: Flags) -> Flags {
    let at = flags.cursor;
    Flags {
        case_sensitive: flags.case_sensitive != (at == 0),
        use_regex: flags.use_regex != (at == 1),
        ocr: flags.ocr != (at == 2),
        include_hidden: flags.include_hidden != (at == 3),
        show_preview: flags.show_preview != (at == 4),
        use_index: flags.use_index != (at == 5),
        save_index: flags.save_index != (at == 6),
        cursor: at,
    }
}

/// The other OCR engine that can be picked.
pub open spec fn other_engine(engine: OcrEngine) -> OcrEngine {
    match engine {
        OcrEngine::Tesseract => OcrEngine::Ocrs,
        _ => OcrEngine::Tesseract,
    }
}

/// The limit one step up.
pub open spec fn limit_up(limit: int) -> int {
    if limit + 5 < 500 {
        limit + 5
    } else {
        500
    }
}

/// The limit one step down.
pub open spec fn limit_down(limit: int) -> int {
    if limit > 5 {
        limit - 5
    } else {
        1
    }
}

/// What a key does on the chips.
pub open spec fn chips_step(v: AppView, key: Key) -> AppView {
    match key {
        Key::Left | Key::Char('h') => chips_moved(v, -1),
        Key::Right | Key::Char('l') => chips_moved(v, 1),
        Key::Up | Key::Char('k') => chips_moved(v, -6),
        Key::Down | Key::Char('j') => chips_moved(v, 6),
        Key::Char(' ') => chip_switched(v),
        _ => v,
    }
}

/// What a key does on the flags.
pub open spec fn flags_step(flags: Flags, key: Key) -> Flags {
    match key {
        Key::Up | Key::Char('k') => Flags { cursor: ((flags.cursor + 6) % 7) as usize, ..flags },
        Key::Down | Key::Char('j') => Flags { cursor: ((flags.cursor + 1) % 7) as usize, ..flags },
        Key::Char(' ') => switched(flags),
        _ => flags,
    }
}

/// What a key does on the OCR engines.
pub open spec fn engine_step(engine: OcrEngine, key: Key) -> OcrEngine {
    match key {
        Key::Left | Key::Right | Key::Char(' ') | Key::Char('h') | Key::Char('l') => other_engine(
            engine,
        ),
        _ => engine,
    }
}

/// What a key does on the search depth.
pub open spec fn depth_step(depth: Option<usize>, key: Key) -> Option<usize> {
    match key {
        Key::Right | Key::Up | Key::Char('l') | Key::Char('k') => crate::tui::form::depth_option(
            (crate::tui::form::depth_place(depth) + 1) % DEPTHS as int,
        ),
        Key::Left | Key::Down | Key::Char('h') | Key::Char('j') => crate::tui::form::depth_option(
            (crate::tui::form::depth_place(depth) + DEPTHS - 1) % DEPTHS as int,
        ),
        _ => depth,
    }
}

/// What a key does on the limit.
pub open spec fn limit_step(limit: int, key: Key) -> int {
    match key {
        Key::Up | Key::Right | Key::Char('k') | Key::Char('l') => limit_up(limit),
        Key::Down | Key::Left | Key::Char('j') | Key::Char('h') => limit_down(limit),
        _ => limit,
    }
}

/// What a key does in the field that has the focus.
pub open spec fn field_step(v: AppView, press: KeyPress, now: u64, home: Option<Seq<char>>) -> (
    AppView,
    ActionView,
) {
    match v.focus {
        Focus::Pattern => (
            AppView { pattern: edited(v.pattern, press), ..v },
            ActionView::Nothing,
        ),
        Focus::Directory => (
            AppView { directory: edited(v.directory, press), ..v },
            ActionView::Nothing,
        ),
        Focus::Extensions => (chips_step(v, press.key), ActionView::Nothing),
        Focus::Flags => (
            AppView { flags: flags_step(v.flags, press.key), ..v },
            ActionView::Nothing,
        ),
        Focus::OcrEnginePicker => (
            AppView { ocr_engine: engine_step(v.ocr_engine, press.key), ..v },
            ActionView::Nothing,
        ),
        Focus::MaxDepth => (
            AppView { max_depth: depth_step(v.max_depth, press.key), ..v },
            ActionView::Nothing,
        ),
        Focus::Limit => (
            AppView { limit: limit_step(v.limit, press.key), ..v },
            ActionView::Nothing,
        ),
        Focus::RunButton => match press.key {
            Key::Char(' ') => search_asked(v, now, home),
            _ => (v, ActionView::Nothing),
        },
    }
}

/// The field after another one.
pub open spec fn field_after(f: Focus) -> Focus {
    match f {
        Focus::Pattern => Focus::Directory,
        Focus::Directory => Focus::Extensions,
        Focus::Extensions => Focus::Flags,
        Focus::Flags => Focus::OcrEnginePicker,
        Focus::OcrEnginePicker => Focus::MaxDepth,
        Focus::MaxDepth => Focus::Limit,
        Focus::Limit => Focus::RunButton,
        Focus::RunButton => Focus::Pattern,
    }
}

/// The field before another one.
pub open spec fn field_before(f: Focus) -> Focus {
    match f {
        Focus::Pattern => Focus::RunButton,
        Focus::Directory => Focus::Pattern,
        Focus::Extensions => Focus::Directory,
        Focus::Flags => Focus::Extensions,
        Focus::OcrEnginePicker => Focus::Flags,
        Focus::MaxDepth => Focus::OcrEnginePicker,
        Focus::Limit => Focus::MaxDepth,
        Focus::RunButton => Focus::Limit,
    }
}

/// What a key does while a search is composed. Escape quits, tab moves the
/// focus, and Enter asks for the search from every field.
pub open spec fn setup_step(v: AppView, press: KeyPress, now: u64, home: Option<Seq<char>>) -> (
    AppView,
    ActionView,
) {
    match press.key {
        Key::Esc => (AppView { should_quit: true, ..v }, ActionView::Nothing),
        Key::Tab => (AppView { focus: field_after(v.focus), ..v }, ActionView::Nothing),
        Key::BackTab => (AppView { focus: field_before(v.focus), ..v }, ActionView::Nothing),
        Key::Enter => search_asked(v, now, home),
        _ => field_step(v, press, now, home),
    }
}

/// The state with another result selected.
pub open spec fn with_selected(v: AppView, at: int) -> AppView {
    match v.phase {
        PhaseView::Results { results, stats, show_preview, selected } => if results.len() > 0 {
            AppView {
                phase: PhaseView::Results {
                    results,
                    stats,
                    show_preview,
                    selected: Some(at as usize),
                },
                ..v
            }
        } else {
            v
        },
        _ => v,
    }
}

/// The place of the selected result, the first one where none is selected.
pub open spec fn place_of(selected: Option<usize>) -> int {
    match selected {
        Some(at) => at as int,
        None => 0,
    }
}

/// What a key does while results are shown.
pub open spec fn results_step(v: AppView, press: KeyPress) -> (AppView, ActionView) {
    match v.phase {
        PhaseView::Results { results, stats, show_preview, selected } => {
            let at = place_of(selected);
            let n = results.len() as int;
            match press.key {
                Key::Esc | Key::Char('b') => (
                    AppView { phase: PhaseView::Setup, focus: Focus::Pattern, ..v },
                    ActionView::Nothing,
                ),
                Key::Char('q') => (AppView { should_quit: true, ..v }, ActionView::Nothing),
                Key::Char('n') => (
                    AppView {
                        pattern: Seq::empty(),
                        phase: PhaseView::Setup,
                        focus: Focus::Pattern,
                        ..v
                    },
                    ActionView::Nothing,
                ),
                Key::Up | Key::Char('k') => (
                    with_selected(
                        v,
                        if at == 0 {
                            n - 1
                        } else {
                            at - 1
                        },
                    ),
                    ActionView::Nothing,
                ),
                Key::Down | Key::Char('j') => (
                    with_selected(
                        v,
                        if n == 0 {
                            0
                        } else {
                            (at + 1) % n
                        },
                    ),
                    ActionView::Nothing,
                ),
                Key::Home | Key::Char('g') => (with_selected(v, 0), ActionView::Nothing),
                Key::End | Key::Char('G') => (with_selected(v, n - 1), ActionView::Nothing),
                Key::Enter | Key::Char('o') => (
                    v,
                    if at < n {
                        ActionView::Open(results[at].path@)
                    } else {
                        ActionView::Nothing
                    },
                ),
                _ => (v, ActionView::Nothing),
            }
        },
        _ => (v, ActionView::Nothing),
    }
}

/// What a key does. Ctrl+C quits from everywhere.
pub open spec fn key_step(v: AppView, press: KeyPress, now: u64, home: Option<Seq<char>>) -> (
    AppView,
    ActionView,
) {
    if press.ctrl && press.key == Key::Char('c') {
        (AppView { should_quit: true, ..v }, ActionView::Nothing)
    } else {
        match v.phase {
            PhaseView::Setup => setup_step(v, press, now, home),
            PhaseView::Searching { .. } => if press.key == Key::Esc {
                (
                    with_toast(
                        v,
                        "still searching \u{2014} press Ctrl+C to abort"@,
                        Hue::Muted,
                        now,
                    ),
                    ActionView::Nothing,
                )
            } else {
                (v, ActionView::Nothing)
            },
            PhaseView::Results { .. } => results_step(v, press),
        }
    }
}

// ---- The transitions ------------------------------------------------------

/// The state of an interface that was filled in.
pub open spec fn start_view(prefill: Prefill, index_config: IndexConfig, chips: ChipList) -> AppView {
    AppView {
        phase: PhaseView::Setup,
        pattern: Seq::empty(),
        directory: prefill.directory@,
        chips: chip_views(chips.chips@),
        chip_cursor: 0,
        flags: Flags {
            case_sensitive: prefill.case_sensitive,
            use_regex: prefill.use_regex,
            ocr: prefill.ocr_enabled,
            include_hidden: prefill.include_hidden,
            show_preview: prefill.show_preview,
            use_index: index_config.use_index,
            save_index: index_config.save_index,
            cursor: 0,
        },
        limit: if prefill.limit == 0 {
            20
        } else {
            prefill.limit as int
        },
        ocr_engine: prefill.ocr_engine,
        max_depth: prefill.max_depth,
        focus: Focus::Pattern,
        toast: None,
        toast_until: None,
        should_quit: false,
        last_error: None,
    }
}

/// What follows a prefix of a text.
fn after_prefix(s: &str, prefix: &str) -> (r: Option<String>)
    ensures
        match r {
            Some(rest) => prefix@.is_prefix_of(s@) && rest@ == s@.skip(prefix@.len() as int),
            None => !prefix@.is_prefix_of(s@),
        },
{
    let v = chars_of(s);
    let p = chars_of(prefix);
    let n = p.len();
    if v.len() < n {
        return None;
    }
    let mut i: usize = 0;
    while i < n
        invariant
            i <= n,
            n == p@.len(),
            n <= v@.len(),
            v@ == s@,
            p@ == prefix@,
            forall|k: int| 0 <= k < i ==> (#[trigger] v@[k]) == p@[k],
        decreases n - i,
    {
        if v[i] != p[i] {
            proof {
                assert(s@[i as int] != prefix@[i as int]);
            }
            return None;
        }
        i += 1;
    }
    let rest = string_of(&v, n, v.len());
    proof {
        assert(prefix@ =~= s@.subrange(0, n as int));
        assert(rest@ =~= s@.skip(n as int));
    }
    Some(rest)
}

/// The home directory in place of a tilde or of `$HOME` at the start of a
/// directory.
pub fn shellexpand(s: &str, home: Option<&str>) -> (r: String)
    ensures
        r@ == expanded(
            s@,
            match home {
                Some(h) => Some(h@),
                None => None,
            },
        ),
{
    proof {
        reveal_strlit("~/");
        reveal_strlit("$HOME/");
    }
    match home {
        None => copied(s),
        Some(h) => {
            if same_text(s, "~") || same_text(s, "$HOME") {
                return copied(h);
            }
            if let Some(rest) = after_prefix(s, "~/") {
                return join(h, rest.as_str());
            }
            if let Some(rest) = after_prefix(s, "$HOME/") {
                return join(h, rest.as_str());
            }
            copied(s)
        },
    }
}

/// The view of a home directory.
pub open spec fn home_view(home: Option<&str>) -> Option<Seq<char>> {
    match home {
        Some(h) => Some(h@),
        None => None,
    }
}

impl App {
    /// The cursors stand on something, and so does the selection.
    pub open spec fn wf(self) -> bool {
        &&& self.extensions.wf()
        &&& self.flags.wf()
        &&& match self.phase {
            Phase::Results { results, selected: Some(at), .. } => at < results@.len(),
            _ => true,
        }
    }

    /// Nothing but what can be seen has changed.
    pub open spec fn same_setting(self, before: App) -> bool {
        self.index_config == before.index_config && self.vision_llm == before.vision_llm
    }

    /// An interface that is filled in.
    pub fn new(prefill: Prefill, index_config: IndexConfig) -> (r: App)
        ensures
            r.wf(),
            exists|chips: ChipList|
                call_ensures(ChipList::new, (&prefill.extensions,), chips) && r@
                    == #[trigger] start_view(prefill, index_config, chips),
            r.index_config == index_config,
            r.vision_llm == prefill.vision_llm,
    {
        let limit = if prefill.limit == 0 {
            20
        } else {
            prefill.limit
        };
        let extensions = ChipList::new(&prefill.extensions);
        let flags = Flags {
            case_sensitive: prefill.case_sensitive,
            use_regex: prefill.use_regex,
            ocr: prefill.ocr_enabled,
            include_hidden: prefill.include_hidden,
            show_preview: prefill.show_preview,
            use_index: index_config.use_index,
            save_index: index_config.save_index,
            cursor: 0,
        };
        let r = App {
            phase: Phase::Setup,
            pattern: String::new(),
            directory: prefill.directory,
            extensions,
            flags,
            limit,
            ocr_engine: prefill.ocr_engine,
            vision_llm: prefill.vision_llm,
            max_depth: prefill.max_depth,
            focus: Focus::Pattern,
            index_config,
            toast: None,
            toast_until: None,
            should_quit: false,
            last_error: None,
        };
        proof {
            assert(r@ =~= start_view(prefill, index_config, extensions));
        }
        r
    }

    /// Shows a toast.
    pub fn set_toast(&mut self, text: String, hue: Hue, now: u64)
        ensures
            final(self)@ == with_toast(old(self)@, text@, hue, now),
            old(self).wf() ==> final(self).wf(),
            final(self).same_setting(*old(self)),
            final(self).phase == old(self).phase,
    {
        self.toast = Some((text, hue));
        self.toast_until = Some(
            if now > u64::MAX - TOAST_MS {
                u64::MAX
            } else {
                now + TOAST_MS
            },
        );
    }

    /// Takes the toast away when its time is over.
    pub fn expire_toast(&mut self, now: u64)
        ensures
            final(self)@ == (match old(self)@.toast_until {
                Some(until) if now >= until => AppView {
                    toast: None,
                    toast_until: None,
                    ..old(self)@
                },
                _ => old(self)@,
            }),
            old(self).wf() ==> final(self).wf(),
            final(self).same_setting(*old(self)),
    {
        match self.toast_until {
            Some(until) => {
                if now >= until {
                    self.toast = None;
                    self.toast_until = None;
                }
            },
            None => {},
        }
    }

    /// Asks for a search, which needs a query.
    pub fn start_search(&mut self, now: u64, home: Option<&str>) -> (r: Action)
        requires
            old(self).wf(),
        ensures
            (final(self)@, r@) == search_asked(old(self)@, now, home_view(home)),
            final(self).wf(),
            final(self).same_setting(*old(self)),
    {
        if is_blank(self.pattern.as_str()) {
            self.set_toast(copied("enter a search query first"), Hue::Alert, now);
            self.focus = Focus::Pattern;
            Action::Nothing
        } else {
            Action::Search(shellexpand(self.directory.as_str(), home))
        }
    }

    /// Edits the pattern or, where `directory` says so, the directory.
    pub fn handle_text_edit_key(&mut self, press: KeyPress, directory: bool)
        requires
            old(self).wf(),
        ensures
            final(self)@ == (if directory {
                AppView { directory: edited(old(self)@.directory, press), ..old(self)@ }
            } else {
                AppView { pattern: edited(old(self)@.pattern, press), ..old(self)@ }
            }),
            final(self).wf(),
            final(self).same_setting(*old(self)),
    {
        let text = if directory {
            edit(self.directory.as_str(), press)
        } else {
            edit(self.pattern.as_str(), press)
        };
        if directory {
            self.directory = text;
        } else {
            self.pattern = text;
        }
    }

    /// Moves the chip cursor.
    fn move_chips(&mut self, delta: isize)
        requires
            old(self).wf(),
        ensures
            final(self)@ == chips_moved(old(self)@, delta as int),
            final(self).wf(),
            final(self).same_setting(*old(self)),
    {
        self.extensions.move_cursor(delta);
        proof {
            assert(chip_views(self.extensions.chips@).len() == self.extensions.chips@.len());
        }
    }

    /// Switches the chip under the cursor.
    fn switch_chip(&mut self)
        requires
            old(self).wf(),
        ensures
            final(self)@ == chip_switched(old(self)@),
            final(self).wf(),
            final(self).same_setting(*old(self)),
    {
        self.extensions.toggle_current();
        proof {
            let before = chip_views(old(self).extensions.chips@);
            let after = chip_views(self.extensions.chips@);
            let at = old(self).extensions.cursor as int;
            if at < before.len() {
                assert forall|i: int| 0 <= i < after.len() implies #[trigger] after[i]
                    == before.update(at, (before[at].0, !before[at].1))[i] by {
                    assert(self.extensions.chips@[i].0@ == old(self).extensions.chips@[i].0@);
                }
                assert(after =~= before.update(at, (before[at].0, !before[at].1)));
            } else {
                assert(after =~= before);
            }
        }
    }

    /// What a key does on the chips.
    fn handle_chips_key(&mut self, key: Key)
        requires
            old(self).wf(),
        ensures
            final(self)@ == chips_step(old(self)@, key),
            final(self).wf(),
            final(self).same_setting(*old(self)),
    {
        match key {
            Key::Left | Key::Char('h') => {
                self.move_chips(-1);
            },
            Key::Right | Key::Char('l') => {
                self.move_chips(1);
            },
            Key::Up | Key::Char('k') => {
                self.move_chips(-6);
            },
            Key::Down | Key::Char('j') => {
                self.move_chips(6);
            },
            Key::Char(' ') => {
                self.switch_chip();
            },
            _ => {},
        }
    }

    /// What a key does in the field that has the focus.
    fn handle_field_key(&mut self, press: KeyPress, now: u64, home: Option<&str>) -> (r: Action)
        requires
            old(self).wf(),
        ensures
            (final(self)@, r@) == field_step(old(self)@, press, now, home_view(home)),
            final(self).wf(),
            final(self).same_setting(*old(self)),
    {
        match self.focus {
            Focus::Pattern => {
                self.handle_text_edit_key(press, false);
            },
            Focus::Directory => {
                self.handle_text_edit_key(press, true);
            },
            Focus::Extensions => {
                self.handle_chips_key(press.key);
            },
            Focus::Flags => {
                self.flags = flags_after(self.flags, press.key);
            },
            Focus::OcrEnginePicker => {
                self.ocr_engine = engine_after(self.ocr_engine, press.key);
            },
            Focus::MaxDepth => {
                self.max_depth = depth_after(self.max_depth, press.key);
            },
            Focus::Limit => {
                self.limit = limit_after(self.limit, press.key);
            },
            Focus::RunButton => match press.key {
                Key::Char(' ') => {
                    return self.start_search(now, home);
                },
                _ => {},
            },
        }
        Action::Nothing
    }

    /// What a key does while a search is composed.
    pub fn handle_setup_key(&mut self, press: KeyPress, now: u64, home: Option<&str>) -> (r: Action)
        requires
            old(self).wf(),
        ensures
            (final(self)@, r@) == setup_step(old(self)@, press, now, home_view(home)),
            final(self).wf(),
            final(self).same_setting(*old(self)),
    {
        match press.key {
            Key::Esc => {
                self.should_quit = true;
                Action::Nothing
            },
            Key::Tab => {
                self.focus = self.focus.next();
                Action::Nothing
            },
            Key::BackTab => {
                self.focus = self.focus.prev();
                Action::Nothing
            },
            Key::Enter => self.start_search(now, home),
            _ => self.handle_field_key(press, now, home),
        }
    }

    /// Selects a result, if there are results.
    fn select(&mut self, at: usize)
        requires
            old(self).wf(),
            old(self).phase matches Phase::Results { results, .. } && (results@.len() > 0 ==> at
                < results@.len()),
        ensures
            final(self)@ == with_selected(old(self)@, at as int),
            final(self).wf(),
            final(self).same_setting(*old(self)),
    {
        match &mut self.phase {
            Phase::Results { results, stats: _, show_preview: _, selected } => {
                if results.len() > 0 {
                    *selected = Some(at);
                }
            },
            _ => {},
        }
    }

    /// The path of the selected result, if there is one.
    pub fn open_selected(&self) -> (r: Action)
        ensures
            r@ == (match self@.phase {
                PhaseView::Results { results, selected, .. } => if place_of(selected)
                    < results.len() {
                    ActionView::Open(results[place_of(selected)].path@)
                } else {
                    ActionView::Nothing
                },
                _ => ActionView::Nothing,
            }),
    {
        match &self.phase {
            Phase::Results { results, stats: _, show_preview: _, selected } => {
                let at: usize = match selected {
                    Some(at) => *at,
                    None => 0,
                };
                if at < results.len() {
                    Action::Open(copied(results[at].path.as_str()))
                } else {
                    Action::Nothing
                }
            },
            _ => Action::Nothing,
        }
    }

    /// What a key does while results are shown.
    pub fn handle_results_key(&mut self, press: KeyPress) -> (r: Action)
        requires
            old(self).wf(),
        ensures
            (final(self)@, r@) == results_step(old(self)@, press),
            final(self).wf(),
            final(self).same_setting(*old(self)),
    {
        let (count, at): (usize, usize) = match &self.phase {
            Phase::Results { results, stats: _, show_preview: _, selected } => (
                results.len(),
                match selected {
                    Some(at) => *at,
                    None => 0,
                },
            ),
            _ => {
                return Action::Nothing;
            },
        };
        match press.key {
            Key::Esc | Key::Char('b') => {
                self.phase = Phase::Setup;
                self.focus = Focus::Pattern;
            },
            Key::Char('q') => {
                self.should_quit = true;
            },
            Key::Char('n') => {
                self.pattern = String::new();
                self.phase = Phase::Setup;
                self.focus = Focus::Pattern;
            },
            Key::Up | Key::Char('k') => {
                if count > 0 {
                    let next = if at == 0 {
                        count - 1
                    } else {
                        at - 1
                    };
                    self.select(next);
                }
            },
            Key::Down | Key::Char('j') => {
                if count > 0 {
                    let next = if at + 1 == count {
                        0
                    } else {
                        at + 1
                    };
                    proof {
                        if at + 1 < count {
                            vstd::arithmetic::div_mod::lemma_small_mod(
                                (at + 1) as nat,
                                count as nat,
                            );
                        } else {
                            vstd::arithmetic::div_mod::lemma_mod_self_0(count as int);
                        }
                    }
                    self.select(next);
                }
            },
            Key::Home | Key::Char('g') => {
                if count > 0 {
                    self.select(0);
                }
            },
            Key::End | Key::Char('G') => {
                if count > 0 {
                    self.select(count - 1);
                }
            },
            Key::Enter | Key::Char('o') => {
                return self.open_selected();
            },
            _ => {},
        }
        Action::Nothing
    }

    /// What a key does.
    pub fn handle_key(&mut self, press: KeyPress, now: u64, home: Option<&str>) -> (r: Action)
        requires
            old(self).wf(),
        ensures
            (final(self)@, r@) == key_step(old(self)@, press, now, home_view(home)),
            final(self).wf(),
            final(self).same_setting(*old(self)),
    {
        if press.ctrl && press.key == Key::Char('c') {
            self.should_quit = true;
            return Action::Nothing;
        }
        match &self.phase {
            Phase::Setup => self.handle_setup_key(press, now, home),
            Phase::Searching { .. } => {
                if press.key == Key::Esc {
                    self.set_toast(
                        copied("still searching \u{2014} press Ctrl+C to abort"),
                        Hue::Muted,
                        now,
                    );
                }
                Action::Nothing
            },
            Phase::Results { .. } => self.handle_results_key(press),
        }
    }
}

/// The flags after a key.
fn flags_after(flags: Flags, key: Key) -> (r: Flags)
    requires
        flags.wf(),
    ensures
        r == flags_step(flags, key),
        r.wf(),
{
    let mut r = flags;
    match key {
        Key::Up | Key::Char('k') => {
            r.move_cursor(-1);
            proof {
                vstd::arithmetic::div_mod::lemma_mod_multiples_vanish(1, flags.cursor - 1, 7);
            }
        },
        Key::Down | Key::Char('j') => {
            r.move_cursor(1);
        },
        Key::Char(' ') => {
            r.toggle_current();
            proof {
                let b = switched(flags);
                assert forall|i: int| 0 <= i < 7 implies #[trigger] r.flag(i) == b.flag(i) by {
                    assert(flags.flag(i) == flags.flag(i));
                }
                crate::tui::form::law_flags_by_place(r, b);
            }
        },
        _ => {},
    }
    r
}

/// The OCR engine after a key.
fn engine_after(engine: OcrEngine, key: Key) -> (r: OcrEngine)
    ensures
        r == engine_step(engine, key),
{
    match key {
        Key::Left | Key::Right | Key::Char(' ') | Key::Char('h') | Key::Char('l') => match engine {
            OcrEngine::Tesseract => OcrEngine::Ocrs,
            OcrEngine::Ocrs | OcrEngine::VisionLlm => OcrEngine::Tesseract,
        },
        _ => engine,
    }
}

/// The search depth after a key.
fn depth_after(depth: Option<usize>, key: Key) -> (r: Option<usize>)
    ensures
        r == depth_step(depth, key),
{
    match key {
        Key::Right | Key::Up | Key::Char('l') | Key::Char('k') => {
            let at = max_depth_index(depth);
            max_depth_option((at + 1) % DEPTHS)
        },
        Key::Left | Key::Down | Key::Char('h') | Key::Char('j') => {
            let at = max_depth_index(depth);
            max_depth_option((at + DEPTHS - 1) % DEPTHS)
        },
        _ => depth,
    }
}

/// The limit after a key.
fn limit_after(limit: usize, key: Key) -> (r: usize)
    ensures
        r == limit_step(limit as int, key),
{
    match key {
        Key::Up | Key::Right | Key::Char('k') | Key::Char('l') => {
            if limit < 495 {
                limit + 5
            } else {
                500
            }
        },
        Key::Down | Key::Left | Key::Char('j') | Key::Char('h') => {
            if limit > 5 {
                limit - 5
            } else {
                1
            }
        },
        _ => limit,
    }
}

/// A text after a key.
fn edit(text: &str, press: KeyPress) -> (r: String)
    ensures
        r@ == edited(text@, press),
{
    let mut out = copied(text);
    match press.key {
        Key::Char(c) => {
            if press.ctrl {
                if c == 'u' {
                    let none = String::new();
                    proof {
                        assert(none@ =~= Seq::<char>::empty());
                    }
                    return none;
                }
            } else {
                out.push(c);
            }
        },
        Key::Backspace => {
            let _last = out.pop();
        },
        _ => {},
    }
    out
}

// ---- Running a search -----------------------------------------------------

/// The configuration is that of the form, for a directory.
pub open spec fn is_config_of(app: App, directory: Seq<char>, config: SearchConfig) -> bool {
    &&& config.directory@ == directory
    &&& config.pattern@ == app.pattern@
    &&& config.case_sensitive == app.flags.case_sensitive
    &&& config.use_regex == app.flags.use_regex
    &&& config.ocr.enabled == app.flags.ocr
    &&& config.ocr.engine == app.ocr_engine
    &&& config.ocr.vision_llm.same(app.vision_llm)
    &&& config.ocr.language@ == "eng"@
    &&& config.ocr.psm is None
    &&& config.ocr.oem is None
    &&& config.ocr.dpi is None
    &&& config.ocr.whitelist is None
    &&& config.ocr.max_image_dimension is None
    &&& !config.ocr.fast_mode
    &&& config.limit == app.limit
    &&& config.max_depth == app.max_depth
    &&& config.include_hidden == app.flags.include_hidden
    &&& crate::text::views(config.extensions@) == app.extensions.names_on()
    &&& config.show_preview == app.flags.show_preview
}

/// The flags decide whether the index is used and saved; its file is the one
/// that was given at the start.
pub open spec fn is_index_config_of(app: App, config: IndexConfig) -> bool {
    &&& config.save_index == app.flags.save_index
    &&& config.use_index == app.flags.use_index
    &&& crate::paths::opt_view(config.index_file) == crate::paths::opt_view(
        app.index_config.index_file,
    )
}

impl App {
    /// The configurations for the search that was asked for. `is_dir` says whether
    /// the directory is one, and `canonical` is its canonical path, if that can be
    /// had.
    pub fn configure_search(
        &mut self,
        directory: &str,
        is_dir: bool,
        canonical: Option<String>,
        now: u64,
    ) -> (r: Option<(SearchConfig, IndexConfig)>)
        requires
            old(self).wf(),
        ensures
            final(self).wf(),
            final(self).same_setting(*old(self)),
            r is Some <==> is_dir,
            r matches Some((config, index_config)) ==> {
                &&& final(self)@ == old(self)@
                &&& is_config_of(
                    *old(self),
                    match canonical {
                        Some(path) => path@,
                        None => directory@,
                    },
                    config,
                )
                &&& is_index_config_of(*old(self), index_config)
            },
            r is None ==> final(self)@ == (AppView {
                focus: Focus::Directory,
                ..with_toast(old(self)@, "not a directory: "@ + directory@, Hue::Alert, now)
            }),
    {
        if !is_dir {
            self.set_toast(joined("not a directory: ", directory), Hue::Alert, now);
            self.focus = Focus::Directory;
            return None;
        }
        let mut ocr = OcrConfig::default();
        ocr.enabled = self.flags.ocr;
        ocr.engine = self.ocr_engine;
        ocr.vision_llm = self.vision_llm.duplicate();
        let config = SearchConfig {
            directory: match canonical {
                Some(path) => path,
                None => copied(directory),
            },
            pattern: copied(self.pattern.as_str()),
            case_sensitive: self.flags.case_sensitive,
            use_regex: self.flags.use_regex,
            ocr,
            limit: self.limit,
            max_depth: self.max_depth,
            include_hidden: self.flags.include_hidden,
            extensions: self.extensions.selected(),
            show_preview: self.flags.show_preview,
        };
        let index_config = IndexConfig {
            save_index: self.flags.save_index,
            use_index: self.flags.use_index,
            index_file: match &self.index_config.index_file {
                Some(path) => Some(copied(path.as_str())),
                None => None,
            },
        };
        Some((config, index_config))
    }

    /// Makes the engine for a search and starts to show its progress. `read` is
    /// what came of reading the index file, `clock` the time in seconds and `now`
    /// the time in milliseconds. A pattern that cannot be searched for is
    /// reported.
    pub fn launch(
        &mut self,
        config: SearchConfig,
        index_config: IndexConfig,
        read: IndexRead,
        clock: u64,
        now: u64,
    ) -> (r: Option<SearchEngine>)
        requires
            old(self).wf(),
            read matches IndexRead::Parsed(index) ==> index.wf(),
        ensures
            final(self).wf(),
            final(self).same_setting(*old(self)),
            r matches Some(engine) ==> {
                &&& engine.made_from(config, index_config, read, clock)
                &&& engine.quiet
                &&& final(self)@ == (AppView {
                    phase: PhaseView::Searching {
                        started: now,
                        tick: 0,
                        show_preview: old(self).flags.show_preview,
                    },
                    ..old(self)@
                })
            },
            r is None ==> exists|message: Seq<char>|
                crate::matching::refused_with(
                    config.pattern@,
                    config.use_regex,
                    config.case_sensitive,
                    message,
                ) && final(self)@ == #[trigger] regex_refused(old(self)@, message, now),
    {
        match SearchEngine::new(config, index_config, read, clock) {
            Err(e) => {
                self.set_toast(joined("invalid regex: ", e.message.as_str()), Hue::Alert, now);
                self.focus = Focus::Pattern;
                proof {
                    assert(self@ == regex_refused(old(self)@, e.message@, now));
                }
                None
            },
            Ok(mut engine) => {
                engine.set_quiet(true);
                let show_preview = self.flags.show_preview;
                self.phase = Phase::Searching { started: now, tick: 0, show_preview };
                Some(engine)
            },
        }
    }

    /// Drives the animation of a search, and takes its results when it is done.
    pub fn tick(&mut self, poll: SearchPoll, now: u64)
        requires
            old(self).wf(),
        ensures
            final(self).wf(),
            final(self).same_setting(*old(self)),
            final(self)@ == tick_step(old(self)@, poll, now),
    {
        let (started, ticks, preview): (u64, usize, bool) = match &self.phase {
            Phase::Searching { started, tick, show_preview } => (*started, *tick, *show_preview),
            _ => {
                return ;
            },
        };
        match poll {
            SearchPoll::Done { results, stats } => {
                let selected = if results.len() > 0 {
                    Some(0)
                } else {
                    None
                };
                self.phase = Phase::Results { results, stats, show_preview: preview, selected };
            },
            SearchPoll::Empty => {
                self.phase = Phase::Searching {
                    started,
                    tick: ticks.wrapping_add(1),
                    show_preview: preview,
                };
            },
            SearchPoll::Disconnected => {
                self.phase = Phase::Setup;
                self.set_toast(copied("search thread died"), Hue::Alert, now);
            },
        }
    }

    /// Reports what came of opening a file.
    pub fn opened(&mut self, path: &str, result: Result<(), String>, now: u64)
        requires
            old(self).wf(),
        ensures
            final(self).wf(),
            final(self).same_setting(*old(self)),
            final(self)@ == (match result {
                Ok(_) => with_toast(
                    old(self)@,
                    "opened "@ + crate::ui::shown_name(path@),
                    Hue::Sage,
                    now,
                ),
                Err(e) => AppView {
                    last_error: Some(e@),
                    ..with_toast(old(self)@, "could not open: "@ + e@, Hue::Alert, now)
                },
            }),
    {
        match result {
            Ok(_) => {
                self.set_toast(
                    joined("opened ", display_filename(path).as_str()),
                    Hue::Sage,
                    now,
                );
            },
            Err(e) => {
                self.set_toast(joined("could not open: ", e.as_str()), Hue::Alert, now);
                self.last_error = Some(e);
            },
        }
    }
}

/// The state after a pattern that cannot be searched for.
pub open spec fn regex_refused(v: AppView, message: Seq<char>, now: u64) -> AppView {
    AppView {
        focus: Focus::Pattern,
        ..with_toast(v, "invalid regex: "@ + message, Hue::Alert, now)
    }
}

/// What a tick does: nothing but while a search runs.
pub open spec fn tick_step(v: AppView, poll: SearchPoll, now: u64) -> AppView {
    match v.phase {
        PhaseView::Searching { started, tick, show_preview } => match poll {
            SearchPoll::Done { results, stats } => AppView {
                phase: PhaseView::Results {
                    results: results@,
                    stats,
                    show_preview,
                    selected: if results@.len() > 0 {
                        Some(0usize)
                    } else {
                        None
                    },
                },
                ..v
            },
            SearchPoll::Empty => AppView {
                phase: PhaseView::Searching {
                    started,
                    tick: if tick == usize::MAX {
                        0
                    } else {
                        (tick + 1) as usize
                    },
                    show_preview,
                },
                ..v
            },
            SearchPoll::Disconnected => with_toast(
                AppView { phase: PhaseView::Setup, ..v },
                "search thread died"@,
                Hue::Alert,
                now,
            ),
        },
        _ => v,
    }
}

// ---- Laws -----------------------------------------------------------------

/// Ctrl+C quits, whatever is going on.
pub proof fn law_ctrl_c_quits(v: AppView, now: u64, home: Option<Seq<char>>)
    ensures
        key_step(v, KeyPress { key: Key::Char('c'), ctrl: true }, now, home) == (
            AppView { should_quit: true, ..v },
            ActionView::Nothing,
        ),
{
}

/// Enter asks for the search from every field, whatever is held down with it.
pub proof fn law_enter_searches_from_every_field(
    v: AppView,
    ctrl: bool,
    now: u64,
    home: Option<Seq<char>>,
)
    requires
        v.phase is Setup,
    ensures
        key_step(v, KeyPress { key: Key::Enter, ctrl }, now, home) == search_asked(v, now, home),
        crate::text::trimmed(v.pattern).len() > 0 ==> key_step(
            v,
            KeyPress { key: Key::Enter, ctrl },
            now,
            home,
        ) == (v, ActionView::Search(expanded(v.directory, home))),
{
}

/// Going back from the results keeps the form: nothing changes but the phase and
/// the focus. A new search clears the query, too, and keeps the filters.
pub proof fn law_back_keeps_the_form(v: AppView, now: u64, home: Option<Seq<char>>, key: Key)
    requires
        v.phase is Results,
        key == Key::Esc || key == Key::Char('b') || key == Key::Char('n'),
    ensures
        key_step(v, KeyPress { key, ctrl: false }, now, home).0 == (AppView {
            phase: PhaseView::Setup,
            focus: Focus::Pattern,
            pattern: if key == Key::Char('n') {
                Seq::empty()
            } else {
                v.pattern
            },
            ..v
        }),
{
}

/// While a search runs, a key can end the program or show a toast, and nothing
/// else.
pub proof fn law_keys_do_not_disturb_a_search(
    v: AppView,
    press: KeyPress,
    now: u64,
    home: Option<Seq<char>>,
)
    requires
        v.phase is Searching,
    ensures
        ({
            let (after, action) = key_step(v, press, now, home);
            &&& action is Nothing
            &&& after == (AppView {
                should_quit: after.should_quit,
                toast: after.toast,
                toast_until: after.toast_until,
                ..v
            })
        }),
{
}

/// The limit stays between 1 and 500, and a step up and a step down lead back
/// where neither bound is in the way.
pub proof fn law_limit_stays_in_bounds(limit: int, key: Key)
    requires
        1 <= limit <= 500,
    ensures
        1 <= limit_step(limit, key) <= 500,
        limit <= 495 ==> limit_down(limit_up(limit)) == limit,
{
}

/// The selection is a ring: going up and down again, or down and up again, leads
/// to the same result.
pub proof fn law_selection_is_a_ring(v: AppView, now: u64, home: Option<Seq<char>>)
    requires
        v.phase matches PhaseView::Results { results, selected: Some(at), .. } && at
            < results.len() <= usize::MAX,
    ensures
        ({
            let up = KeyPress { key: Key::Up, ctrl: false };
            let down = KeyPress { key: Key::Down, ctrl: false };
            &&& key_step(key_step(v, up, now, home).0, down, now, home).0 == v
            &&& key_step(key_step(v, down, now, home).0, up, now, home).0 == v
        }),
{
    match v.phase {
        PhaseView::Results { results, selected: Some(at), .. } => {
            let n = results.len();
            let i = at as int;
            vstd::arithmetic::div_mod::lemma_mod_self_0(n as int);
            if i + 1 < n {
                vstd::arithmetic::div_mod::lemma_small_mod((i + 1) as nat, n);
            }
            vstd::arithmetic::div_mod::lemma_small_mod(i as nat, n);
        },
        _ => {},
    }
}

/// Switching between the two engines that can be picked leads back.
pub proof fn law_engines_alternate(engine: OcrEngine)
    ensures
        engine != OcrEngine::VisionLlm ==> other_engine(other_engine(engine)) == engine
            && other_engine(engine) != engine,
{
}

/// With every chip off, a search that the form configures leaves no file out for
/// its extension.
pub proof fn law_no_chips_mean_every_extension(
    app: App,
    directory: Seq<char>,
    engine: SearchEngine,
    path: Seq<char>,
)
    requires
        forall|i: int| 0 <= i < app.extensions.chips@.len() ==> !(#[trigger] app.extensions.chips@[i]).1,
        is_config_of(app, directory, engine.config),
    ensures
        engine.extension_admitted(path),
{
    let on = |c: (String, bool)| c.1;
    let chips = app.extensions.chips@;
    lemma_none_pass(chips, on);
    assert(app.extensions.names_on().len() == 0);
    assert(crate::text::views(engine.config.extensions@).len() == engine.config.extensions@.len());
}

/// Nothing is left of a sequence that a filter lets nothing of pass.
proof fn lemma_none_pass(chips: Seq<(String, bool)>, on: spec_fn((String, bool)) -> bool)
    requires
        forall|i: int| 0 <= i < chips.len() ==> !on(#[trigger] chips[i]),
    ensures
        chips.filter(on).len() == 0,
    decreases chips.len(),
{
    reveal(Seq::filter);
    if chips.len() > 0 {
        let init = chips.drop_last();
        assert forall|i: int| 0 <= i < init.len() implies !on(#[trigger] init[i]) by {
            assert(init[i] == chips[i]);
        }
        lemma_none_pass(init, on);
        assert(chips.last() == chips[chips.len() - 1]);
    }
}

} // verus!
