//! What the functions that print and draw hand out.

use crate::index::{Index, IndexEntry};
use crate::tui::form::Focus;
use crate::tui::paint::{Hue, Line, Span};
use crate::tui::state::{App, Phase};
use crate::tui::view::Frame;
use crate::types::{SearchResult, SearchStats};
use crate::ui::{ErrorGroup, Segment, SegmentView};
use vstd::prelude::*;

verus! {

proof fn lemma_spans(spans: Seq<Span>)
    ensures
        crate::tui::paint::span_views(spans).len() == spans.len(),
        forall|i: int|
            0 <= i < spans.len() ==> (#[trigger] spans[i]).text@ == crate::tui::paint::span_views(
                spans,
            )[i].text,
{
    assert forall|i: int| 0 <= i < spans.len() implies (#[trigger] spans[i]).text@
        == crate::tui::paint::span_views(spans)[i].text by {
        assert(crate::tui::paint::span_views(spans)[i] == spans[i]@);
    }
}

// ---- The form -------------------------------------------------------------

/// The box of the query has its title and shows the query.
pub proof fn law_query_box(app: App, r: (Frame, Vec<Span>))
    requires
        call_ensures(crate::tui::view::draw_pattern_box, (&app,), r),
    ensures
        r.0.title@.len() == 5,
        r.0.title@[1].text@ == "search for"@,
        app.focus == Focus::Pattern <==> r.0.border == Hue::Accent,
        app.focus == Focus::Pattern || app.pattern@.len() > 0 ==> r.1@.len() == 2
            && r.1@[0].text@ == app.pattern@,
        app.focus == Focus::Pattern ==> r.1@[1].text@ == "\u{258d}"@,
{
    lemma_spans(r.0.title@);
    lemma_spans(r.1@);
}

/// The box of the directory has its title and shows the directory.
pub proof fn law_directory_box(app: App, r: (Frame, Vec<Span>))
    requires
        call_ensures(crate::tui::view::draw_directory_box, (&app,), r),
    ensures
        r.0.title@.len() == 5,
        r.0.title@[1].text@ == "in folder"@,
        app.focus == Focus::Directory <==> r.0.border == Hue::Accent,
        r.1@.len() == 2,
        r.1@[0].text@ == app.directory@,
        app.focus == Focus::Directory ==> r.1@[1].text@ == "\u{258d}"@,
        app.focus != Focus::Directory ==> r.1@[1].text@ == ""@,
{
    lemma_spans(r.0.title@);
    lemma_spans(r.1@);
}

/// The box of the chips has its title, and says how many are on.
pub proof fn law_chips_box(app: App, r: Frame)
    requires
        call_ensures(crate::tui::view::extensions_frame, (&app,), r),
    ensures
        r.title@.len() == 5,
        r.title@[1].text@ == "file types"@,
        r.title@[3].text@ == crate::tui::view::extensions_hint(
            app.extensions.chips@.filter(|c: (String, bool)| c.1).len(),
        ),
        app.focus == Focus::Extensions <==> r.border == Hue::Accent,
{
    lemma_spans(r.title@);
    assert(app.extensions.names_on().len() == app.extensions.chips@.filter(
        |c: (String, bool)| c.1,
    ).len());
}

/// The box of the depth has its title and shows the depth.
pub proof fn law_depth_box(app: App, r: (Frame, Vec<Span>))
    requires
        call_ensures(crate::tui::view::draw_max_depth_box, (&app,), r),
    ensures
        r.0.title@.len() == 5,
        r.0.title@[1].text@ == "max depth"@,
        app.focus == Focus::MaxDepth <==> r.0.border == Hue::Accent,
        app.max_depth is None ==> r.1@[1].text@ == "unlimited"@,
        app.max_depth matches Some(n) ==> r.1@[1].text@ == crate::text::decimal_of(n as nat)
            + " levels"@,
{
    lemma_spans(r.0.title@);
    lemma_spans(r.1@);
}

/// The box of the limit has its title and shows the limit.
pub proof fn law_limit_box(app: App, r: (Frame, Vec<Span>))
    requires
        call_ensures(crate::tui::view::draw_limit_box, (&app,), r),
    ensures
        r.0.title@.len() == 5,
        r.0.title@[1].text@ == "result limit"@,
        app.focus == Focus::Limit <==> r.0.border == Hue::Accent,
        r.1@.len() == 3,
        r.1@[0].text@ == crate::text::right_aligned(crate::text::decimal_of(app.limit as nat), 3)
            + "  "@,
        r.1@[1].text@.len() + r.1@[2].text@.len() == 40,
{
    lemma_spans(r.0.title@);
    lemma_spans(r.1@);
    crate::laws::screen::law_shown_limit(app.limit as nat, app.focus == Focus::Limit);
}

/// The button names what it does, and stands out where it has the focus.
pub proof fn law_run_button(app: App, r: (Hue, Span))
    requires
        call_ensures(crate::tui::view::draw_run_button, (&app,), r),
    ensures
        r.1.text@ == "  \u{25b6}  run search  "@,
        app.focus == Focus::RunButton <==> r.0 == Hue::Rose,
{
    assert(r.1@.text == r.1.text@);
}

/// The title bar shows the title of the program and the name of the phase.
pub proof fn law_title_bar(app: App, r: (Vec<Span>, Vec<Span>))
    requires
        call_ensures(crate::tui::view::header_lines, (&app,), r),
    ensures
        r.0@.len() == 4,
        r.0@[1].text@ == "argus"@,
        r.1@.len() == 2,
        app.phase is Setup ==> r.1@[0].text@ == "compose"@,
        app.phase is Searching ==> r.1@[0].text@ == "searching"@,
        app.phase is Results ==> r.1@[0].text@ == "results"@,
{
    lemma_spans(r.0@);
    lemma_spans(r.1@);
}

/// The help line shows each key that means something, with what it does.
pub proof fn law_help_line(app: App, r: Vec<Span>, k: int)
    requires
        call_ensures(crate::tui::view::help_line, (&app,), r),
        0 <= k < crate::tui::view::help_pairs(app).len(),
    ensures
        ({
            let pairs = crate::tui::view::help_pairs(app);
            &&& r@.len() == 4 * pairs.len() - 1
            &&& r@[4 * k].text@ == pairs[k].0@
            &&& r@[4 * k + 2].text@ == pairs[k].1@
        }),
{
    lemma_spans(r@);
    crate::laws::details::law_shown_help(crate::tui::view::help_pairs(app), k);
}

/// A search that runs is shown with its query, its directory, how far it is and how long
/// it has taken; nothing is drawn of one that does not run.
pub proof fn law_search_box(
    app: App,
    box_width: u16,
    current: usize,
    total: usize,
    elapsed_ms: u64,
    r: Vec<Line>,
)
    requires
        call_ensures(
            crate::tui::view::draw_searching,
            (&app, box_width, current, total, elapsed_ms),
            r,
        ),
    ensures
        app.phase !is Searching ==> r@.len() == 0,
        app.phase matches Phase::Searching { started, tick, show_preview } ==> {
            &&& r@.len() == 8
            &&& crate::tui::paint::line_views(r@) == crate::tui::view::searching_view(
                app.pattern@,
                app.directory@,
                tick as nat,
                elapsed_ms as nat,
                crate::tui::view::progress_view(
                    if box_width >= 6 {
                        (box_width - 6) as nat
                    } else {
                        0
                    },
                    tick as nat,
                    current as nat,
                    total as nat,
                ),
            )
        },
{
    assert(crate::tui::paint::line_views(r@).len() == r@.len());
}

// ---- Printed lines --------------------------------------------------------

/// The results are printed behind the statistics, with an empty line before and behind
/// these.
pub proof fn law_printed_results(
    results: Vec<SearchResult>,
    stats: SearchStats,
    show_preview: bool,
    r: Vec<Vec<Segment>>,
)
    requires
        forall|i: int|
            0 <= i < results@.len() ==> crate::ui::displayable(
                #[trigger] results@[i],
                show_preview,
            ),
        call_ensures(crate::ui::display_results, (&results, &stats, show_preview), r),
    ensures
        exists|middle: Seq<Seq<SegmentView>>| #[trigger]
            crate::ui::shows_stats(stats, middle) && crate::ui::lines_view(r@) == seq![
                Seq::<SegmentView>::empty(),
            ] + middle + seq![Seq::<SegmentView>::empty()] + crate::ui::list_view(
                results@,
                show_preview,
            ),
{
}

/// The errors are printed by their groups, the largest first.
pub proof fn law_printed_errors(errors: Vec<(String, String)>, r: Vec<Vec<Segment>>)
    requires
        call_ensures(crate::ui::display_errors, (&errors,), r),
    ensures
        exists|groups: Seq<ErrorGroup>, order: Seq<usize>| #[trigger]
            crate::ui::errors_arranged(errors@, groups, order) && crate::ui::lines_view(r@)
                == crate::ui::errors_view(groups, order),
        errors@.len() == 0 ==> r@.len() == 0,
{
    let (groups, order) = choose|groups: Seq<ErrorGroup>, order: Seq<usize>| #[trigger]
        crate::ui::errors_arranged(errors@, groups, order) && crate::ui::lines_view(r@)
            == crate::ui::errors_view(groups, order);
    assert(crate::ui::lines_view(r@).len() == r@.len());
}

/// The groups that are made of errors are those of their reasons.
pub proof fn law_grouped_errors(errors: Vec<(String, String)>, r: Vec<ErrorGroup>)
    requires
        call_ensures(crate::ui::group_errors, (&errors,), r),
    ensures
        crate::ui::are_groups(errors@, r@),
{
}

/// One result is printed under its rank.
pub proof fn law_printed_result(
    rank: usize,
    result: SearchResult,
    show_preview: bool,
    r: Vec<Vec<Segment>>,
)
    requires
        crate::ui::displayable(result, show_preview),
        call_ensures(crate::ui::display_result, (rank, &result, show_preview), r),
    ensures
        crate::ui::lines_view(r@) == crate::ui::result_view(rank as nat, result, show_preview),
{
}

/// A path is printed short.
pub proof fn law_printed_path(path: &str, r: String)
    requires
        call_ensures(crate::ui::truncate_path, (path,), r),
    ensures
        path@.len() <= 68 ==> r@ == path@,
        path@.len() > 68 ==> r@ == seq!['.', '.', '.'] + path@.subrange(
            path@.len() - 65,
            path@.len() as int,
        ),
{
    crate::laws::printed::law_long_path(path@);
}

// ---- Listed indexes -------------------------------------------------------

/// An index that is made of a list has, for every path, the last entry that is listed for
/// it.
pub proof fn law_index_of_a_list(
    version: u32,
    directory: String,
    created_at: u64,
    updated_at: u64,
    entries: Vec<(String, IndexEntry)>,
    r: Index,
    path: Seq<char>,
    i: int,
)
    requires
        call_ensures(
            Index::from_entries,
            (version, directory, created_at, updated_at, entries),
            r,
        ),
        0 <= i < entries@.len(),
        crate::paths::components_of(entries@[i].0@) == crate::paths::components_of(path),
        forall|j: int|
            i < j < entries@.len() ==> crate::paths::components_of((#[trigger] entries@[j]).0@)
                != crate::paths::components_of(path),
    ensures
        r.entry_for(path) == Some(entries@[i].1),
        r.version == version,
        r.directory == directory,
        r.created_at == created_at,
        r.updated_at == updated_at,
{
    crate::laws::cache::law_last_listed_entry_counts(entries@, path, i);
}

/// The models lie in a directory of their own in the cache of the user.
pub proof fn law_cache_of_the_models(user_cache: &str, r: String)
    requires
        call_ensures(crate::ocr_models::model_cache_dir, (user_cache,), r),
    ensures
        r@ == crate::paths::joined_path(user_cache@, "ocrs-models"@),
{
}

} // verus!
