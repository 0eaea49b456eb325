//! What the functions that change the interface do to it.

use crate::index::IndexRead;
use crate::search::SearchEngine;
use crate::tui::form::{ChipList, Focus};
use crate::tui::paint::Hue;
use crate::tui::state::{
    Action, App, AppView, Key, KeyPress, PhaseView, Prefill, SearchPoll,
};
use crate::types::{IndexConfig, SearchConfig};
use vstd::prelude::*;

verus! {

// ---- Typing ---------------------------------------------------------------

/// A character that is typed without Ctrl stands at the end of the query, or of the
/// directory, whichever has the focus, and nothing is asked for.
pub proof fn law_a_key_types(app: &mut App, c: char, now: u64, home: Option<&str>, r: Action)
    requires
        old(app).wf(),
        old(app).phase is Setup,
        old(app).focus == Focus::Pattern || old(app).focus == Focus::Directory,
        call_ensures(
            App::handle_key,
            (app, KeyPress { key: Key::Char(c), ctrl: false }, now, home),
            r,
        ),
    ensures
        r is Nothing,
        final(app).phase is Setup,
        final(app).focus == old(app).focus,
        old(app).focus == Focus::Pattern ==> final(app).pattern@ == old(app).pattern@.push(c)
            && final(app).directory@ == old(app).directory@,
        old(app).focus == Focus::Directory ==> final(app).directory@ == old(app).directory@.push(c)
            && final(app).pattern@ == old(app).pattern@,
{
    crate::laws::keys::law_what_can_be_seen(*old(app));
    crate::laws::keys::law_what_can_be_seen(*final(app));
    assert(r@ == crate::tui::state::ActionView::Nothing);
}

/// A key does what is said of keys to all that can be seen, and asks for what it says;
/// the rest of the interface stays.
pub proof fn law_a_key_does_its_step(
    app: &mut App,
    press: KeyPress,
    now: u64,
    home: Option<&str>,
    r: Action,
)
    requires
        old(app).wf(),
        call_ensures(App::handle_key, (app, press, now, home), r),
    ensures
        ({
            let from = match home {
                Some(h) => Some(h@),
                None => None,
            };
            let (after, action) = crate::tui::state::key_step(old(app)@, press, now, from);
            &&& final(app)@ == after
            &&& action is Nothing <==> r is Nothing
            &&& r matches Action::Search(directory) ==> action
                == crate::tui::state::ActionView::Search(directory@)
            &&& r matches Action::Open(path) ==> action == crate::tui::state::ActionView::Open(path@)
        }),
        final(app).index_config == old(app).index_config,
        final(app).vision_llm == old(app).vision_llm,
        final(app).wf(),
{
}

// ---- Toasts ---------------------------------------------------------------

/// A toast shows its text in its color for three seconds; nothing else changes.
pub proof fn law_toast_is_shown(app: &mut App, text: String, hue: Hue, now: u64)
    requires
        now <= u64::MAX - 3000,
        call_ensures(App::set_toast, (app, text, hue, now), ()),
    ensures
        final(app)@ == (AppView {
            toast: Some((text@, hue)),
            toast_until: Some((now + 3000) as u64),
            ..old(app)@
        }),
{
}

/// A toast goes when its time is over, and not before; nothing else changes.
pub proof fn law_toast_goes_in_time(app: &mut App, now: u64)
    requires
        call_ensures(App::expire_toast, (app, now), ()),
    ensures
        old(app).toast_until is None ==> final(app)@ == old(app)@,
        old(app).toast_until matches Some(until) ==> {
            &&& now < until ==> final(app)@ == old(app)@
            &&& now >= until ==> final(app)@ == (AppView {
                toast: None,
                toast_until: None,
                ..old(app)@
            })
        },
{
}

/// A file that was opened is named in a toast, and why one could not be is told and kept.
pub proof fn law_opened_file_is_named(
    app: &mut App,
    path: &str,
    result: Result<(), String>,
    now: u64,
)
    requires
        old(app).wf(),
        now <= u64::MAX - 3000,
        call_ensures(App::opened, (app, path, result, now), ()),
    ensures
        result is Ok ==> final(app)@ == (AppView {
            toast: Some(
                (
                    "opened "@ + (match crate::paths::file_name_of(path@) {
                        Some(name) => name,
                        None => path@,
                    }),
                    Hue::Sage,
                ),
            ),
            toast_until: Some((now + 3000) as u64),
            ..old(app)@
        }),
        result matches Err(why) ==> final(app)@ == (AppView {
            toast: Some(("could not open: "@ + why@, Hue::Alert)),
            toast_until: Some((now + 3000) as u64),
            last_error: Some(why@),
            ..old(app)@
        }),
{
}

// ---- Searches -------------------------------------------------------------

/// A search is configured exactly if its directory is one; the canonical path of it is
/// searched, where that is known. Else the directory is named in a toast and gets the
/// focus.
pub proof fn law_search_needs_a_directory(
    app: &mut App,
    directory: &str,
    is_dir: bool,
    canonical: Option<String>,
    now: u64,
    r: Option<(SearchConfig, IndexConfig)>,
)
    requires
        old(app).wf(),
        now <= u64::MAX - 3000,
        call_ensures(App::configure_search, (app, directory, is_dir, canonical, now), r),
    ensures
        r is Some <==> is_dir,
        r is Some ==> final(app)@ == old(app)@,
        r matches Some((config, index_config)) ==> {
            let form = *old(app);
            &&& canonical is Some ==> config.directory@ == canonical->0@
            &&& canonical is None ==> config.directory@ == directory@
            &&& config.pattern@ == form.pattern@
            &&& config.limit == form.limit
            &&& config.max_depth == form.max_depth
            &&& config.case_sensitive == form.flags.case_sensitive
            &&& config.use_regex == form.flags.use_regex
            &&& config.include_hidden == form.flags.include_hidden
            &&& config.show_preview == form.flags.show_preview
            &&& config.ocr.enabled == form.flags.ocr
            &&& config.ocr.engine == form.ocr_engine
            &&& index_config.use_index == form.flags.use_index
            &&& index_config.save_index == form.flags.save_index
        },
        r is None ==> final(app)@ == (AppView {
            focus: Focus::Directory,
            toast: Some(("not a directory: "@ + directory@, Hue::Alert)),
            toast_until: Some((now + 3000) as u64),
            ..old(app)@
        }),
{
}

/// A search that starts shows its progress from the first tick on, and prints nothing.
/// A query that cannot be searched for gets the focus, and what is wrong with it is told.
pub proof fn law_search_starts(
    app: &mut App,
    config: SearchConfig,
    index_config: IndexConfig,
    read: IndexRead,
    clock: u64,
    now: u64,
    r: Option<SearchEngine>,
)
    requires
        old(app).wf(),
        now <= u64::MAX - 3000,
        read matches IndexRead::Parsed(index) ==> index.wf(),
        call_ensures(App::launch, (app, config, index_config, read, clock, now), r),
    ensures
        r is Some ==> final(app)@ == (AppView {
            phase: PhaseView::Searching {
                started: now,
                tick: 0,
                show_preview: old(app).flags.show_preview,
            },
            ..old(app)@
        }) && r->0.quiet && r->0.config == config && r->0.index_config == index_config,
        !config.use_regex ==> r is Some,
        r is None ==> final(app)@ == (AppView {
            focus: Focus::Pattern,
            toast: final(app)@.toast,
            toast_until: Some((now + 3000) as u64),
            ..old(app)@
        }),
        r is None ==> (final(app)@.toast matches Some((told, hue)) && hue == Hue::Alert
            && "invalid regex: "@.is_prefix_of(told)),
{
    if r is None {
        let message = choose|message: Seq<char>|
            crate::matching::refused_with(
                config.pattern@,
                config.use_regex,
                config.case_sensitive,
                message,
            ) && final(app)@ == #[trigger] crate::tui::state::regex_refused(
                old(app)@,
                message,
                now,
            );
        let told = "invalid regex: "@ + message;
        assert(told.subrange(0, "invalid regex: "@.len() as int) =~= "invalid regex: "@);
    }
}

/// When a search is done its results are shown, the first of them selected; until then
/// only the animation goes on.
pub proof fn law_search_ends(app: &mut App, poll: SearchPoll, now: u64)
    requires
        old(app).wf(),
        old(app).phase is Searching,
        call_ensures(App::tick, (app, poll, now), ()),
    ensures
        poll matches SearchPoll::Done { results, stats } ==> final(app)@ == (AppView {
            phase: PhaseView::Results {
                results: results@,
                stats,
                show_preview: old(app)@.phase->Searching_show_preview,
                selected: if results@.len() > 0 {
                    Some(0usize)
                } else {
                    None
                },
            },
            ..old(app)@
        }),
        poll is Empty ==> final(app).phase is Searching && final(app)@ == (AppView {
            phase: final(app)@.phase,
            ..old(app)@
        }),
        poll is Disconnected ==> final(app).phase is Setup,
{
}

/// A new interface shows the form, filled in with what was given, and the query empty.
pub proof fn law_new_interface(prefill: Prefill, index_config: IndexConfig, r: App)
    requires
        call_ensures(App::new, (prefill, index_config), r),
    ensures
        r.phase is Setup,
        r.pattern@.len() == 0,
        r.directory@ == prefill.directory@,
        r.focus == Focus::Pattern,
        r.flags.case_sensitive == prefill.case_sensitive,
        r.flags.use_regex == prefill.use_regex,
        r.flags.ocr == prefill.ocr_enabled,
        r.flags.include_hidden == prefill.include_hidden,
        r.flags.show_preview == prefill.show_preview,
        r.flags.use_index == index_config.use_index,
        r.flags.save_index == index_config.save_index,
        prefill.limit > 0 ==> r.limit == prefill.limit,
        prefill.limit == 0 ==> r.limit == 20,
        r.max_depth == prefill.max_depth,
        r.ocr_engine == prefill.ocr_engine,
        r.vision_llm == prefill.vision_llm,
        r.index_config == index_config,
        !r.should_quit,
{
    let chips = choose|chips: ChipList|
        call_ensures(ChipList::new, (&prefill.extensions,), chips) && r@
            == #[trigger] crate::tui::state::start_view(prefill, index_config, chips);
    crate::laws::keys::law_what_can_be_seen(r);
}

} // verus!
