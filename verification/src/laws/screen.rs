//! What the interface shows.

use crate::tui::form::Flags;
use crate::tui::geometry::Area;
use crate::tui::paint::{Hue, Paint, SpanView};
use crate::tui::view::ResultsScreen;
use crate::types::{FileType, SearchResult, SearchStats};
use vstd::prelude::*;

verus! {

// ---- The form -------------------------------------------------------------

/// The query is shown as it stands, with the caret behind it where it has the focus;
/// where it is empty and has not, one is invited to type.
pub proof fn law_shown_query(pattern: Seq<char>, focused: bool)
    ensures
        ({
            let shown = crate::tui::view::pattern_view(pattern, focused);
            &&& pattern.len() > 0 || focused ==> shown.len() == 2 && shown[0].text == pattern
            &&& focused ==> shown[1].text == "\u{258d}"@
            &&& pattern.len() > 0 && !focused ==> shown[1].text == ""@
            &&& pattern.len() == 0 && !focused ==> shown.len() == 1 && shown[0].text
                == "start typing your query\u{2026}"@
        }),
{
}

/// A chip shows its name, bold where it is on, between brackets where the cursor is on
/// it.
pub proof fn law_shown_chip(name: Seq<char>, on: bool, cursor: bool)
    ensures
        ({
            let shown = crate::tui::view::chip_view(name, on, cursor);
            &&& shown.len() == 4
            &&& shown[1].text == name
            &&& shown[1].paint.bold == on
            &&& cursor ==> shown[0].text == "\u{276e}"@ && shown[2].text == "\u{276f}"@
            &&& !cursor ==> shown[0].text == " "@ && shown[2].text == " "@
            &&& shown[3].text == " "@
        }),
{
}

/// How many characters some pieces have.
pub open spec fn text_len(spans: Seq<SpanView>) -> nat {
    spans.fold_left(0nat, |n: nat, s: SpanView| n + s.text.len())
}

proof fn lemma_text_len_add(a: Seq<SpanView>, b: Seq<SpanView>)
    ensures
        text_len(a + b) == text_len(a) + text_len(b),
    decreases b.len(),
{
    if b.len() > 0 {
        lemma_text_len_add(a, b.drop_last());
        assert((a + b).drop_last() =~= a + b.drop_last());
        assert((a + b).last() == b.last());
    } else {
        assert(a + b =~= a);
    }
}

proof fn lemma_chip_len(name: Seq<char>, on: bool, cursor: bool)
    ensures
        text_len(crate::tui::view::chip_view(name, on, cursor)) == name.len() + 3,
{
    reveal_strlit("\u{276e}");
    reveal_strlit("\u{276f}");
    reveal_strlit(" ");
    let shown = crate::tui::view::chip_view(name, on, cursor);
    reveal_with_fuel(Seq::fold_left, 5);
    assert(shown.drop_last().drop_last().drop_last().drop_last() =~= Seq::<SpanView>::empty());
}

/// No row of chips is wider than it may be, unless a single chip is.
pub proof fn law_chip_rows_fit(
    chips: Seq<(String, bool)>,
    cursor: int,
    focused: bool,
    max_width: nat,
    n: nat,
)
    ensures
        ({
            let rows = crate::tui::view::chip_rows(chips, cursor, focused, max_width, n).0;
            &&& forall|i: int|
                0 <= i < rows.len() ==> text_len(#[trigger] rows[i]) <= max_width || rows[i].len()
                    == 4
            &&& rows.len() <= n
            &&& n > 0 ==> rows.len() > 0 && crate::tui::view::chip_rows(
                chips,
                cursor,
                focused,
                max_width,
                n,
            ).1 == text_len(rows.last())
        }),
    decreases n,
{
    if n > 0 {
        law_chip_rows_fit(chips, cursor, focused, max_width, (n - 1) as nat);
        let (rows, width) = crate::tui::view::chip_rows(
            chips,
            cursor,
            focused,
            max_width,
            (n - 1) as nat,
        );
        let chip = chips[n - 1];
        let view = crate::tui::view::chip_view(chip.0@, chip.1, focused && n - 1 == cursor);
        lemma_chip_len(chip.0@, chip.1, focused && n - 1 == cursor);
        let after = crate::tui::view::chip_rows(chips, cursor, focused, max_width, n).0;
        if rows.len() == 0 || width + chip.0@.len() + 3 > max_width {
            assert(after == rows.push(view));
            assert forall|i: int| 0 <= i < after.len() implies text_len(#[trigger] after[i])
                <= max_width || after[i].len() == 4 by {
                if i < rows.len() {
                    assert(after[i] == rows[i]);
                }
            }
        } else {
            lemma_text_len_add(rows.last(), view);
            assert(after == rows.drop_last().push(rows.last() + view));
            assert forall|i: int| 0 <= i < after.len() implies text_len(#[trigger] after[i])
                <= max_width || after[i].len() == 4 by {
                if i < rows.len() - 1 {
                    assert(after[i] == rows[i]);
                }
            }
        }
    }
}

/// A chip that still fits into the last row stands there, and one that does not opens a
/// row: no row is left while the next chip fits.
pub proof fn law_chip_rows_are_filled(
    chips: Seq<(String, bool)>,
    cursor: int,
    focused: bool,
    max_width: nat,
    n: nat,
)
    requires
        n > 0,
    ensures
        ({
            let before = crate::tui::view::chip_rows(chips, cursor, focused, max_width, n).0;
            let after = crate::tui::view::chip_rows(chips, cursor, focused, max_width, n + 1).0;
            let fits = text_len(before.last()) + chips[n as int].0@.len() + 3 <= max_width;
            &&& fits ==> after.len() == before.len()
            &&& !fits ==> after.len() == before.len() + 1
        }),
{
    law_chip_rows_fit(chips, cursor, focused, max_width, n);
}

proof fn lemma_chips(chips: Seq<(String, bool)>, cursor: int, focused: bool, n: nat)
    requires
        n <= chips.len(),
    ensures
        crate::tui::view::chips_in_order(chips, cursor, focused, n) == Seq::new(
            n,
            |i: int| i,
        ).flat_map(
            |i: int| crate::tui::view::chip_view(chips[i].0@, chips[i].1, focused && i == cursor),
        ),
    decreases n,
{
    let f = |i: int|
        crate::tui::view::chip_view(chips[i].0@, chips[i].1, focused && i == cursor);
    let places = Seq::new(n, |i: int| i);
    if n > 0 {
        let fewer = Seq::new((n - 1) as nat, |i: int| i);
        lemma_chips(chips, cursor, focused, (n - 1) as nat);
        fewer.lemma_flat_map_push(f, n - 1);
        assert(fewer.push(n - 1) =~= places);
    } else {
        assert(places.flat_map(f) =~= Seq::empty());
    }
}

/// Every chip is shown, in order, with the cursor on the one that has it.
pub proof fn law_every_chip_is_shown(
    chips: Seq<(String, bool)>,
    cursor: int,
    focused: bool,
    max_width: nat,
)
    ensures
        crate::tui::view::chip_rows(chips, cursor, focused, max_width, chips.len()).0.flatten()
            == Seq::new(chips.len(), |i: int| i).flat_map(
            |i: int| crate::tui::view::chip_view(chips[i].0@, chips[i].1, focused && i == cursor),
        ),
{
    crate::tui::view::law_rows_hold_every_chip(chips, cursor, focused, max_width, chips.len());
    lemma_chips(chips, cursor, focused, chips.len());
}

/// The flags stand in their order under their places.
pub proof fn law_places_of_the_flags(flags: Flags)
    ensures
        flags.flag(0) == flags.case_sensitive,
        flags.flag(1) == flags.use_regex,
        flags.flag(2) == flags.ocr,
        flags.flag(3) == flags.include_hidden,
        flags.flag(4) == flags.show_preview,
        flags.flag(5) == flags.use_index,
        flags.flag(6) == flags.save_index,
{
}

/// A flag that is on has a full dot before its label, and one that is off an empty one.
pub proof fn law_shown_flag(label: Seq<char>, on: bool, selected: bool)
    ensures
        ({
            let shown = crate::tui::view::flag_view(label, on, selected);
            &&& shown.len() == 4
            &&& shown[3].text == label
            &&& shown[3].paint.bold == selected
            &&& on ==> shown[1].text == "\u{25cf}"@
            &&& !on ==> shown[1].text == "\u{25cb}"@
            &&& selected ==> shown[0].text == "\u{25b8} "@
            &&& !selected ==> shown[0].text == "  "@
        }),
{
}

/// An engine that is selected has a full dot before its label.
pub proof fn law_shown_engine(label: Seq<char>, selected: bool, enabled: bool)
    ensures
        ({
            let shown = crate::tui::view::engine_view(label, selected, enabled);
            &&& shown.len() == 3
            &&& shown[2].text == label
            &&& selected ==> shown[0].text == "\u{25cf}"@
            &&& !selected ==> shown[0].text == "\u{25cb}"@
            &&& !enabled ==> shown[0].paint.fg == Some(Hue::Dim) && shown[2].paint.fg == Some(
                Hue::Dim,
            )
        }),
{
}

/// The depth is shown by its name: the number of levels, or that there is no limit.
pub proof fn law_shown_depth(depth: Option<usize>, focused: bool)
    ensures
        ({
            let shown = crate::tui::view::depth_view(depth, focused);
            &&& depth is None ==> shown[1].text == "unlimited"@
            &&& depth matches Some(n) ==> shown[1].text == crate::text::decimal_of(n as nat)
                + " levels"@
        }),
{
}

/// The limit is shown as a number and as a bar of forty places, of which at least one is
/// filled; 200 and more fill it.
pub proof fn law_shown_limit(limit: nat, focused: bool)
    ensures
        ({
            let shown = crate::tui::view::limit_view(limit, focused);
            let filled = shown[1].text.len();
            &&& shown.len() == 3
            &&& shown[0].text == crate::text::right_aligned(crate::text::decimal_of(limit), 3)
                + "  "@
            &&& 1 <= filled <= 40
            &&& shown[1].text.len() + shown[2].text.len() == 40
            &&& limit <= 200 && filled > 1 ==> filled * 5 < limit + 5
            &&& limit <= 200 ==> limit < filled * 5 + 5
        }),
{
    if limit <= 200 {
        crate::doubles::law_progress(limit, 200, 40);
    }
}

// ---- A search that runs ---------------------------------------------------

/// The spinner turns: it is the same every four ticks, and never the same on two ticks
/// in between.
pub proof fn law_spinner(a: nat, b: nat)
    ensures
        crate::tui::view::spinner(a) == crate::tui::view::spinner(b) <==> a % 4 == b % 4,
{
    reveal_strlit("\u{25d0}");
    reveal_strlit("\u{25d1}");
    reveal_strlit("\u{25d2}");
    reveal_strlit("\u{25d3}");
    assert("\u{25d0}"@[0] == '\u{25d0}' && "\u{25d1}"@[0] == '\u{25d1}' && "\u{25d2}"@[0]
        == '\u{25d2}' && "\u{25d3}"@[0] == '\u{25d3}');
}

/// While files are discovered, the first six places of the bar are lit at the start, and
/// with every tick the lit places wander on by one, round and round.
pub proof fn law_wandering_bar(width: nat, tick: nat, i: int)
    requires
        0 <= i < width,
    ensures
        crate::tui::view::wandering_bar(width, 0)[i] == (if i < 6 {
            '\u{2501}'
        } else {
            '\u{2500}'
        }),
        crate::tui::view::wandering_bar(width, tick + 1)[(i + 1) % width as int]
            == crate::tui::view::wandering_bar(width, tick)[i],
        crate::tui::view::wandering_bar(width, tick).len() == width,
{
    let w = width as int;
    vstd::arithmetic::div_mod::lemma_small_mod(0, width);
    vstd::arithmetic::div_mod::lemma_mod_multiples_vanish(1, i, w);
    vstd::arithmetic::div_mod::lemma_small_mod(i as nat, width);
    assert((i + width - 0) % w == i);
    let t = tick as int;
    let j = (i + 1) % w;
    vstd::arithmetic::div_mod::lemma_mod_bound(i + 1, w);
    // both places have the same distance to the lit ones
    vstd::arithmetic::div_mod::lemma_sub_mod_noop(i + w, t, w);
    vstd::arithmetic::div_mod::lemma_sub_mod_noop(i + w, t % w, w);
    vstd::arithmetic::div_mod::lemma_mod_twice(t, w);
    vstd::arithmetic::div_mod::lemma_sub_mod_noop(j + w, t + 1, w);
    vstd::arithmetic::div_mod::lemma_sub_mod_noop(j + w, (t + 1) % w, w);
    vstd::arithmetic::div_mod::lemma_mod_twice(t + 1, w);
    vstd::arithmetic::div_mod::lemma_mod_multiples_vanish(1, i + 1, w);
    vstd::arithmetic::div_mod::lemma_mod_multiples_vanish(1, j, w);
    vstd::arithmetic::div_mod::lemma_mod_twice(i + 1, w);
    vstd::arithmetic::div_mod::lemma_sub_mod_noop(i + 1 + w, t + 1, w);
    assert((i + w - t % w) % w == (i + w - t) % w);
    assert((j + w - (t + 1) % w) % w == (j + w - (t + 1)) % w);
    assert((j + w) % w == (i + 1 + w) % w);
    assert((j + w - (t + 1)) % w == (i + 1 + w - (t + 1)) % w);
}

/// When the files are known, the bar is as wide as it may be, filled from the left by the
/// share of the files that are done, give or take less than one place, and the caption
/// holds both numbers.
pub proof fn law_shown_progress(width: nat, tick: nat, current: nat, total: nat)
    requires
        0 < total < 0x20_0000_0000_0000,
        current <= total,
        1 <= width <= 0x1_0000,
    ensures
        ({
            let (bar, caption, hue) = crate::tui::view::progress_view(width, tick, current, total);
            let filled = crate::tui::view::bar_filled(current, total, width);
            let percent = crate::tui::view::percent_done(current, total);
            &&& bar.len() == width
            &&& forall|i: int|
                0 <= i < width ==> (#[trigger] bar[i]) == (if i < filled {
                    '\u{2501}'
                } else {
                    '\u{2500}'
                })
            &&& filled * total < current * width + total
            &&& filled < width ==> current * width < filled * total + total
            &&& caption == crate::text::decimal_of(current) + " / "@ + crate::text::decimal_of(
                total,
            ) + " files  \u{b7}  "@ + crate::text::decimal_of(percent) + "%"@
            &&& percent * total < current * 100 + total
            &&& current * 100 < percent * total + total
        }),
{
    crate::doubles::law_progress(current, total, width);
    crate::doubles::law_progress(current, total, 100);
    let parts = crate::doubles::progress_parts(current, total, width);
    if parts > width {
        assert(width * total <= parts * total) by (nonlinear_arith)
            requires
                width <= parts,
        ;
    }
    let percent = crate::doubles::progress_parts(current, total, 100);
    assert(percent <= 100) by (nonlinear_arith)
        requires
            percent * total < current * 100 + total,
            current <= total,
            total > 0,
    ;
}

/// The searching screen shows the query, the directory, the bar with its caption, and
/// the time.
pub proof fn law_searching_screen(
    pattern: Seq<char>,
    directory: Seq<char>,
    tick: nat,
    elapsed_ms: nat,
    progress: (Seq<char>, Seq<char>, Hue),
)
    ensures
        ({
            let lines = crate::tui::view::searching_view(
                pattern,
                directory,
                tick,
                elapsed_ms,
                progress,
            );
            &&& lines.len() == 8
            &&& lines[1].spans[0].text == "  "@ + crate::tui::view::spinner(tick) + "  "@
            &&& lines[1].spans[1].text == "searching for \u{201c}"@ + pattern + "\u{201d}"@
            &&& lines[2].spans[0].text == "      in "@ + directory
            &&& lines[4].spans[0].text == "  "@ + progress.0
            &&& lines[6].spans[0].text == "      "@ + progress.1
            &&& lines[7].spans[0].text == "      elapsed  "@ + crate::doubles::duration_text(
                elapsed_ms,
                1,
            )
        }),
{
}

// ---- Results --------------------------------------------------------------

/// The line of statistics shows the query and the numbers.
pub proof fn law_shown_statistics(stats: SearchStats, shown: nat, query: Seq<char>)
    ensures
        ({
            let row = crate::tui::view::stats_row(stats, shown, query);
            &&& row.len() == 13
            &&& row[1].text == "\u{201c}"@ + query + "\u{201d}"@
            &&& row[3].text == crate::text::decimal_of(stats.files_scanned as nat)
            &&& row[5].text == crate::text::decimal_of(stats.files_matched as nat)
            &&& row[7].text == crate::text::decimal_of(stats.total_matches as nat)
            &&& row[9].text == crate::text::decimal_of(shown)
            &&& row[11].text == crate::doubles::duration_text(stats.duration_ms as nat, 1)
        }),
{
}

/// The breakdown shows the number and the name of each type, in the given order.
pub proof fn law_shown_breakdown(
    counts: Seq<(FileType, usize)>,
    order: Seq<usize>,
    n: nat,
    k: int,
)
    requires
        0 <= k < n <= order.len(),
    ensures
        ({
            let row = crate::tui::view::breakdown_row(counts, order, n);
            let count = counts[order[k] as int];
            &&& row.len() == 1 + 2 * n
            &&& row[1 + 2 * k].text == crate::text::decimal_of(count.1 as nat)
            &&& row[2 + 2 * k].text == " "@ + crate::text::lower_of(count.0.name_of()) + "   "@
        }),
    decreases n,
{
    if n > 1 {
        if k < n - 1 {
            law_shown_breakdown(counts, order, (n - 1) as nat, k);
        } else {
            law_shown_breakdown(counts, order, (n - 1) as nat, 0);
        }
    } else {
        assert(crate::tui::view::breakdown_row(counts, order, 0).len() == 1);
    }
}

/// The names of the file types.
pub proof fn law_names_of_types(file_type: FileType)
    ensures
        file_type == FileType::Text ==> file_type.name_of() == "Text"@,
        file_type == FileType::Code ==> file_type.name_of() == "Code"@,
        file_type == FileType::Pdf ==> file_type.name_of() == "PDF"@,
        file_type == FileType::Docx ==> file_type.name_of() == "DOCX"@,
        file_type == FileType::Image ==> file_type.name_of() == "Image"@,
        file_type == FileType::Other ==> file_type.name_of() == "Other"@,
{
}

/// A preview shows the name, the path, the number of matches and the confidence of a
/// result, the lines of its first eight matches, or of all where there are fewer, and how
/// many are left.
pub proof fn law_shown_preview(result: SearchResult, k: int)
    ensures
        ({
            let lines = crate::tui::view::preview_view(result);
            let n = result.matches@.len() as int;
            let shown: int = if n < 8 {
                n
            } else {
                8
            };
            &&& lines.len() == 5 + shown + (if n > 8 {
                2int
            } else {
                0
            })
            &&& lines[0].spans[0].text == (match crate::paths::file_name_of(result.path@) {
                Some(name) => name,
                None => "unknown"@,
            })
            &&& lines[1].spans[0].text == result.path@
            &&& lines[3].spans[0].text == crate::text::decimal_of(n as nat)
            &&& lines[3].spans[2].text == crate::text::decimal_of(
                crate::doubles::even_percent(result.confidence),
            ) + "%"@
            &&& 0 <= k < shown ==> lines[5 + k].spans == crate::tui::view::highlighted_inline(
                crate::text::truncated(
                    crate::text::trimmed(result.matches@[k].context@),
                    100,
                ),
                result.matches@[k].matched_text@,
            )
            &&& n > 8 ==> lines[6 + shown].spans[0].text == "  \u{2026} + "@
                + crate::text::decimal_of((n - 8) as nat) + " more matches"@
        }),
{
}

/// Setting off a match in a line keeps the line: behind two spaces the pieces are the
/// line, and the one that is set off is the first match, without regard to case.
pub proof fn law_shown_match(text: Seq<char>, pattern: Seq<char>)
    ensures
        ({
            let pieces = crate::tui::view::highlighted_inline(text, pattern);
            let plain = crate::ui::highlighted(text, pattern);
            &&& pattern.len() > 0 && plain.len() == 3 ==> {
                &&& pieces.len() == 4
                &&& pieces[0].text == "  "@
                &&& pieces[1].text == plain[0].text
                &&& pieces[2].text == plain[1].text
                &&& pieces[3].text == plain[2].text
                &&& pieces[2].paint == (Paint {
                    fg: Some(Hue::Black),
                    bg: Some(Hue::Rose),
                    bold: true,
                })
            }
            &&& pattern.len() == 0 || plain.len() == 1 ==> pieces.len() == 1 && pieces[0].text
                == "  "@ + text
        }),
{
}

/// A result in the list shows its rank, its type, its name and the number of its matches.
pub proof fn law_shown_item(rank: nat, result: SearchResult)
    ensures
        ({
            let spans = crate::tui::view::item_view(rank, result).spans;
            &&& spans.len() == 5
            &&& spans[0].text == crate::text::right_aligned(crate::text::decimal_of(rank), 2)
                + "  "@
            &&& spans[1].text == crate::text::left_aligned(
                crate::text::lower_of(result.file_type.name_of()),
                5,
            )
            &&& spans[3].text == (match crate::paths::file_name_of(result.path@) {
                Some(name) => name,
                None => "unknown"@,
            })
            &&& spans[4].text == "  \u{b7} "@ + crate::text::decimal_of(result.matches@.len())
        }),
{
}

/// The results screen lists every result under its rank, in order, and shows the preview
/// of the selected one, or of the first where none is selected.
pub proof fn law_results_screen(
    screen: ResultsScreen,
    results: Seq<SearchResult>,
    stats: SearchStats,
    selected: Option<usize>,
    query: Seq<char>,
    i: int,
)
    requires
        crate::tui::view::shows_results(screen, results, stats, selected, query),
    ensures
        screen.items@.len() == results.len(),
        0 <= i < results.len() ==> screen.items@[i]@ == crate::tui::view::item_view(
            (i + 1) as nat,
            results[i],
        ),
        screen.selected == selected,
        results.len() == 0 ==> screen.message@.len() == 4 && screen.preview@.len() == 0,
        results.len() > 0 ==> {
            let at: int = match selected {
                Some(at) => at as int,
                None => 0,
            };
            let expected = crate::tui::view::preview_view(results[at]);
            &&& screen.message@.len() == 0
            &&& screen.preview@.len() == expected.len()
            &&& forall|k: int|
                0 <= k < expected.len() ==> (#[trigger] screen.preview@[k])@ == expected[k]
        },
{
    assert(crate::tui::paint::line_views(screen.message@).len() == screen.message@.len());
    let preview = crate::tui::paint::line_views(screen.preview@);
    assert(preview.len() == screen.preview@.len());
    if results.len() > 0 {
        let at = crate::tui::state::place_of(selected);
        let expected = crate::tui::view::preview_view(results[at]);
        assert forall|k: int| 0 <= k < expected.len() implies (#[trigger] screen.preview@[k])@
            == expected[k] by {
            assert(preview[k] == screen.preview@[k]@);
        }
    }
}

// ---- Places on the screen -------------------------------------------------

/// A toast is one line high and as wide as its text with two cells at each end, as far as
/// the screen is four cells wider. It stands two cells from the right and four lines from
/// the bottom, where there is room for that.
pub proof fn law_place_of_a_toast(area: Area, text_len: usize, r: Area)
    requires
        area.wf(),
        text_len < 0xfff0,
        call_ensures(crate::tui::geometry::toast_rect, (area, text_len), r),
    ensures
        r.height == 1,
        area.width >= text_len + 8 ==> r.width == text_len + 4 && r.x + r.width + 2 == area.x
            + area.width,
        4 <= area.width < text_len + 8 ==> r.width == area.width - 4,
        area.width < 4 ==> r.width == 0,
        area.height >= 4 ==> r.y + 4 == area.y + area.height,
        area.height < 4 ==> r.y == area.y,
        area.height > 0 ==> area.x <= r.x && r.x + r.width <= area.x + area.width && area.y <= r.y
            && r.y + r.height <= area.y + area.height,
{
}

} // verus!
