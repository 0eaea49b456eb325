//! What the interface shows, as painted text.

use crate::doubles::{describe_duration, share_even_percent, share_of_progress};
use crate::text::{
    self, align_left, align_right, chars_of, copied, decimal, joined, joined3, lowercase, repeat_char,
    trim, truncate,
};
use crate::tui::form::{max_depth_index, max_depth_label, Focus, DEPTHS};
use crate::tui::paint::{
    self, in_bold, in_ink, no_rows, no_spans, put, put_middle, put_row, unpainted, Align, Hue, Line,
    LineView, Paint, Span, SpanView,
};
use crate::tui::state::{App, Phase};
use crate::types::{OcrEngine, SearchResult, SearchStats};
use crate::ui::{split_at_match, type_order};
use vstd::prelude::*;

verus! {

/// A duration in milliseconds, with one decimal for seconds.
pub fn format_duration(ms: u64) -> (r: String)
    ensures
        r@ == crate::doubles::duration_text(ms as nat, 1),
{
    describe_duration(ms, 1)
}

/// Cuts a text after `max` characters and marks the cut with an ellipsis.
pub fn truncate_display(s: &str, max: usize) -> (r: String)
    ensures
        r@ == text::truncated(s@, max as nat),
{
    truncate(s, max)
}

/// A cut text has at most one character more than it may have, and starts as the
/// text does.
pub proof fn law_truncated_length(text: Seq<char>, max: nat)
    ensures
        text::truncated(text, max).len() <= max + 1,
        text.len() <= max ==> text::truncated(text, max) == text,
        text.len() > max ==> text::truncated(text, max).take(max as int) == text.take(
            max as int,
        ) && text::truncated(text, max).last() == '\u{2026}',
{
    if text.len() > max {
        assert(text::truncated(text, max).take(max as int) =~= text.take(max as int));
    }
}

// ---- Help and title -------------------------------------------------------

/// Keys with what they do.
pub open spec fn help_of(pairs: Seq<(&'static str, &'static str)>) -> Seq<SpanView>
    decreases pairs.len(),
{
    if pairs.len() == 0 {
        Seq::empty()
    } else {
        help_of(pairs.drop_last()) + (if pairs.len() > 1 {
            seq![paint::piece("   "@, paint::bare())]
        } else {
            Seq::empty()
        }) + seq![
            paint::piece(pairs.last().0@, paint::bold(Hue::Rose)),
            paint::piece(" "@, paint::bare()),
            paint::piece(pairs.last().1@, paint::ink(Hue::Muted)),
        ]
    }
}

/// Keys with what they do.
pub fn help_spans(pairs: &[(&'static str, &'static str)]) -> (r: Vec<Span>)
    ensures
        paint::span_views(r@) == help_of(pairs@),
{
    let mut out = no_spans();
    let mut i: usize = 0;
    proof {
        assert(pairs@.take(0) =~= Seq::<(&'static str, &'static str)>::empty());
    }
    while i < pairs.len()
        invariant
            i <= pairs@.len(),
            paint::span_views(out@) == help_of(pairs@.take(i as int)),
        decreases pairs@.len() - i,
    {
        if i > 0 {
            put(&mut out, "   ", unpainted());
        }
        put(&mut out, pairs[i].0, in_bold(Hue::Rose));
        put(&mut out, " ", unpainted());
        put(&mut out, pairs[i].1, in_ink(Hue::Muted));
        proof {
            let next = pairs@.take(i + 1);
            assert(next.drop_last() =~= pairs@.take(i as int));
            assert(next.last() == pairs@[i as int]);
            assert(paint::span_views(out@) =~= help_of(next));
        }
        i += 1;
    }
    proof {
        assert(pairs@.take(pairs@.len() as int) =~= pairs@);
    }
    out
}

/// The help for a state.
pub open spec fn help_pairs(app: App) -> Seq<(&'static str, &'static str)> {
    match app.phase {
        Phase::Setup => match app.focus {
            Focus::Pattern | Focus::Directory => seq![
                ("type", "edit"),
                ("tab", "next field"),
                ("\u{23ce}", "run"),
                ("esc", "quit"),
            ],
            Focus::Extensions => seq![
                ("\u{2190} \u{2192}", "move"),
                ("space", "toggle"),
                ("tab", "next field"),
                ("\u{23ce}", "run"),
            ],
            Focus::Flags => seq![
                ("\u{2191} \u{2193}", "move"),
                ("space", "toggle"),
                ("tab", "next field"),
                ("\u{23ce}", "run"),
            ],
            Focus::OcrEnginePicker => seq![
                ("\u{2190} \u{2192}", "switch engine"),
                ("tab", "next field"),
                ("\u{23ce}", "run"),
            ],
            Focus::MaxDepth | Focus::Limit => seq![
                ("\u{2190} \u{2192}", "adjust"),
                ("tab", "next field"),
                ("\u{23ce}", "run"),
            ],
            Focus::RunButton => seq![
                ("\u{23ce}", "run search"),
                ("shift-tab", "back"),
                ("esc", "quit"),
            ],
        },
        Phase::Searching { .. } => seq![("ctrl-c", "abort")],
        Phase::Results { .. } => seq![
            ("\u{2191} \u{2193}", "navigate"),
            ("\u{23ce} / o", "open file"),
            ("n", "new search"),
            ("b / esc", "back"),
            ("q", "quit"),
        ],
    }
}

fn pairs3(a: (&'static str, &'static str), b: (&'static str, &'static str), c: (&'static str, &'static str)) -> (r: Vec<(&'static str, &'static str)>)
    ensures
        r@ == seq![a, b, c],
{
    let mut r: Vec<(&'static str, &'static str)> = Vec::new();
    r.push(a);
    r.push(b);
    r.push(c);
    proof {
        assert(r@ =~= seq![a, b, c]);
    }
    r
}

fn pairs4(a: (&'static str, &'static str), b: (&'static str, &'static str), c: (&'static str, &'static str), d: (&'static str, &'static str)) -> (r: Vec<(&'static str, &'static str)>)
    ensures
        r@ == seq![a, b, c, d],
{
    let mut r: Vec<(&'static str, &'static str)> = Vec::new();
    r.push(a);
    r.push(b);
    r.push(c);
    r.push(d);
    proof {
        assert(r@ =~= seq![a, b, c, d]);
    }
    r
}

/// The help for a state.
fn pairs_for(app: &App) -> (r: Vec<(&'static str, &'static str)>)
    ensures
        r@ == help_pairs(*app),
{
    let run = ("\u{23ce}", "run");
    let next = ("tab", "next field");
    match &app.phase {
        Phase::Setup => match app.focus {
            Focus::Pattern | Focus::Directory => pairs4(
                ("type", "edit"),
                next,
                run,
                ("esc", "quit"),
            ),
            Focus::Extensions => pairs4(
                ("\u{2190} \u{2192}", "move"),
                ("space", "toggle"),
                next,
                run,
            ),
            Focus::Flags => pairs4(("\u{2191} \u{2193}", "move"), ("space", "toggle"), next, run),
            Focus::OcrEnginePicker => pairs3(
                ("\u{2190} \u{2192}", "switch engine"),
                next,
                run,
            ),
            Focus::MaxDepth | Focus::Limit => pairs3(
                ("\u{2190} \u{2192}", "adjust"),
                next,
                run,
            ),
            Focus::RunButton => pairs3(
                ("\u{23ce}", "run search"),
                ("shift-tab", "back"),
                ("esc", "quit"),
            ),
        },
        Phase::Searching { .. } => {
            let mut r: Vec<(&'static str, &'static str)> = Vec::new();
            r.push(("ctrl-c", "abort"));
            proof {
                assert(r@ =~= help_pairs(*app));
            }
            r
        },
        Phase::Results { .. } => {
            let mut r = pairs4(
                ("\u{2191} \u{2193}", "navigate"),
                ("\u{23ce} / o", "open file"),
                ("n", "new search"),
                ("b / esc", "back"),
            );
            r.push(("q", "quit"));
            proof {
                assert(r@ =~= help_pairs(*app));
            }
            r
        },
    }
}

/// The help at the bottom of the screen.
pub fn help_line(app: &App) -> (r: Vec<Span>)
    ensures
        paint::span_views(r@) == help_of(help_pairs(*app)),
{
    let pairs = pairs_for(app);
    help_spans(pairs.as_slice())
}

/// The name of a phase.
pub open spec fn phase_label(phase: Phase) -> Seq<char> {
    match phase {
        Phase::Setup => "compose"@,
        Phase::Searching { .. } => "searching"@,
        Phase::Results { .. } => "results"@,
    }
}

/// The title of the program.
pub open spec fn title_view() -> Seq<SpanView> {
    seq![
        paint::piece("\u{25c9} "@, paint::ink(Hue::Rose)),
        paint::piece("argus"@, paint::bold(Hue::Text)),
        paint::piece("  \u{b7}  "@, paint::ink(Hue::Dim)),
        paint::piece("the all-seeing file search"@, paint::ink(Hue::Muted)),
    ]
}

/// The title bar: the title at the left, the phase at the right.
pub fn header_lines(app: &App) -> (r: (Vec<Span>, Vec<Span>))
    ensures
        paint::span_views(r.0@) == title_view(),
        paint::span_views(r.1@) == seq![
            paint::piece(phase_label(app.phase), paint::ink(Hue::Accent)),
            paint::piece("  "@, paint::bare()),
        ],
{
    let mut title = no_spans();
    put(&mut title, "\u{25c9} ", in_ink(Hue::Rose));
    put(&mut title, "argus", in_bold(Hue::Text));
    put(&mut title, "  \u{b7}  ", in_ink(Hue::Dim));
    put(&mut title, "the all-seeing file search", in_ink(Hue::Muted));
    let label = match &app.phase {
        Phase::Setup => "compose",
        Phase::Searching { .. } => "searching",
        Phase::Results { .. } => "results",
    };
    let mut right = no_spans();
    put(&mut right, label, in_ink(Hue::Accent));
    put(&mut right, "  ", unpainted());
    (title, right)
}

/// A thin rule of the given width.
pub fn rule(width: u16) -> (r: Span)
    ensures
        r@ == paint::piece(text::repeated('\u{2500}', width as nat), paint::ink(Hue::Dim)),
{
    Span { text: repeat_char('\u{2500}', width as usize), paint: in_ink(Hue::Dim) }
}

/// A toast with room at both ends.
pub fn toast_span(text: &str, hue: Hue) -> (r: Span)
    ensures
        r@ == paint::piece(
            " "@ + text@ + " "@,
            Paint { fg: Some(Hue::Black), bg: Some(hue), bold: false },
        ),
{
    Span {
        text: joined3(" ", text, " "),
        paint: Paint { fg: Some(Hue::Black), bg: Some(hue), bold: false },
    }
}

// ---- The setup form -------------------------------------------------------

/// The frame of a box: the color of its border and its title.
pub struct Frame {
    pub border: Hue,
    pub title: Vec<Span>,
}

/// A frame stands out where it has the focus.
pub open spec fn frame_view(focused: bool, title: Seq<char>, hint: Seq<char>) -> (
    Hue,
    Seq<SpanView>,
) {
    (
        if focused {
            Hue::Accent
        } else {
            Hue::Dim
        },
        seq![
            paint::piece(" "@, paint::bare()),
            paint::piece(
                title,
                paint::bold(
                    if focused {
                        Hue::Accent
                    } else {
                        Hue::Muted
                    },
                ),
            ),
            paint::piece("  "@, paint::bare()),
            paint::piece(hint, paint::ink(Hue::Dim)),
            paint::piece(" "@, paint::bare()),
        ],
    )
}

/// The colors of a frame: that of its border and that of its title.
pub fn focus_style(app: &App, focus: Focus) -> (r: (Hue, Hue))
    ensures
        r == (if app.focus == focus {
            (Hue::Accent, Hue::Accent)
        } else {
            (Hue::Dim, Hue::Muted)
        }),
{
    if app.focus == focus {
        (Hue::Accent, Hue::Accent)
    } else {
        (Hue::Dim, Hue::Muted)
    }
}

/// The frame of a field, with a title and a hint.
pub fn box_with_title(app: &App, focus: Focus, title: &str, hint: &str) -> (r: Frame)
    ensures
        (r.border, paint::span_views(r.title@)) == frame_view(app.focus == focus, title@, hint@),
{
    let (border, title_hue) = focus_style(app, focus);
    let mut spans = no_spans();
    put(&mut spans, " ", unpainted());
    put(&mut spans, title, in_bold(title_hue));
    put(&mut spans, "  ", unpainted());
    put(&mut spans, hint, in_ink(Hue::Dim));
    put(&mut spans, " ", unpainted());
    Frame { border, title: spans }
}

/// The caret of a text field.
pub open spec fn caret(focused: bool) -> Seq<char> {
    if focused {
        "\u{258d}"@
    } else {
        ""@
    }
}

/// The query, or an invitation to type one.
pub open spec fn pattern_view(pattern: Seq<char>, focused: bool) -> Seq<SpanView> {
    if pattern.len() == 0 && !focused {
        seq![paint::piece("start typing your query\u{2026}"@, paint::ink(Hue::Dim))]
    } else {
        seq![
            paint::piece(pattern, paint::bold(Hue::Text)),
            paint::piece(caret(focused), paint::ink(Hue::Rose)),
        ]
    }
}

/// The box for the query.
pub fn draw_pattern_box(app: &App) -> (r: (Frame, Vec<Span>))
    ensures
        (r.0.border, paint::span_views(r.0.title@)) == frame_view(
            app.focus == Focus::Pattern,
            "search for"@,
            "what do you want to find?"@,
        ),
        paint::span_views(r.1@) == pattern_view(app.pattern@, app.focus == Focus::Pattern),
{
    let frame = box_with_title(app, Focus::Pattern, "search for", "what do you want to find?");
    let focused = app.focus == Focus::Pattern;
    let mut line = no_spans();
    if app.pattern.as_str().is_empty() && !focused {
        put(&mut line, "start typing your query\u{2026}", in_ink(Hue::Dim));
    } else {
        put(&mut line, app.pattern.as_str(), in_bold(Hue::Text));
        put(
            &mut line,
            if focused {
                "\u{258d}"
            } else {
                ""
            },
            in_ink(Hue::Rose),
        );
    }
    (frame, line)
}

/// The box for the directory.
pub fn draw_directory_box(app: &App) -> (r: (Frame, Vec<Span>))
    ensures
        (r.0.border, paint::span_views(r.0.title@)) == frame_view(
            app.focus == Focus::Directory,
            "in folder"@,
            "where to look"@,
        ),
        paint::span_views(r.1@) == seq![
            paint::piece(app.directory@, paint::ink(Hue::Text)),
            paint::piece(caret(app.focus == Focus::Directory), paint::ink(Hue::Rose)),
        ],
{
    let frame = box_with_title(app, Focus::Directory, "in folder", "where to look");
    let mut line = no_spans();
    put(&mut line, app.directory.as_str(), in_ink(Hue::Text));
    put(
        &mut line,
        if app.focus == Focus::Directory {
            "\u{258d}"
        } else {
            ""
        },
        in_ink(Hue::Rose),
    );
    (frame, line)
}

// ---- Chips ----------------------------------------------------------------

/// A chip: its name between brackets, which show the cursor, and a space.
pub open spec fn chip_view(name: Seq<char>, on: bool, cursor: bool) -> Seq<SpanView> {
    let bracket = paint::ink(
        if on {
            Hue::Rose
        } else {
            Hue::Dim
        },
    );
    seq![
        paint::piece(
            if cursor {
                "\u{276e}"@
            } else {
                " "@
            },
            bracket,
        ),
        paint::piece(
            name,
            paint::ink_or_bold(
                if on {
                    Hue::Text
                } else {
                    Hue::Muted
                },
                on,
            ),
        ),
        paint::piece(
            if cursor {
                "\u{276f}"@
            } else {
                " "@
            },
            bracket,
        ),
        paint::piece(" "@, paint::bare()),
    ]
}

/// How many characters a chip takes.
pub open spec fn chip_width(chip: (String, bool)) -> nat {
    chip.0@.len() + 3
}

/// The rows of the first `n` chips, and the width of the last one: a chip goes
/// to a new row where it does not fit into the current one any more.
pub open spec fn chip_rows(
    chips: Seq<(String, bool)>,
    cursor: int,
    focused: bool,
    max_width: nat,
    n: nat,
) -> (Seq<Seq<SpanView>>, nat)
    decreases n,
{
    if n == 0 {
        (Seq::empty(), 0)
    } else {
        let (rows, width) = chip_rows(chips, cursor, focused, max_width, (n - 1) as nat);
        let chip = chips[n - 1];
        let view = chip_view(chip.0@, chip.1, focused && n - 1 == cursor);
        if rows.len() == 0 || width + chip_width(chip) > max_width {
            (rows.push(view), chip_width(chip))
        } else {
            (rows.drop_last().push(rows.last() + view), width + chip_width(chip))
        }
    }
}

/// Appends a chip.
fn put_chip(spans: &mut Vec<Span>, name: &str, on: bool, cursor: bool)
    ensures
        paint::span_views(final(spans)@) == paint::span_views(old(spans)@) + chip_view(
            name@,
            on,
            cursor,
        ),
{
    let bracket = in_ink(
        if on {
            Hue::Rose
        } else {
            Hue::Dim
        },
    );
    let (left, right) = if cursor {
        ("\u{276e}", "\u{276f}")
    } else {
        (" ", " ")
    };
    put(spans, left, bracket);
    let hue = if on {
        Hue::Text
    } else {
        Hue::Muted
    };
    put(spans, name, Paint { fg: Some(hue), bg: None, bold: on });
    put(spans, right, bracket);
    put(spans, " ", unpainted());
    proof {
        assert(paint::span_views(spans@) =~= paint::span_views(old(spans)@) + chip_view(
            name@,
            on,
            cursor,
        ));
    }
}

/// `a + b`, as far as it can be counted.
fn capped_sum(a: usize, b: usize) -> (r: usize)
    ensures
        r == a + b || (r == usize::MAX && a + b >= usize::MAX),
{
    if a <= usize::MAX - b {
        a + b
    } else {
        usize::MAX
    }
}

/// `counted` is `exact`, as far as it can be counted.
pub open spec fn counts(counted: usize, exact: nat) -> bool {
    counted == exact || (counted == usize::MAX && exact >= usize::MAX)
}

/// The chips in rows of at most `max_width` characters.
pub fn build_chip_lines(
    chips: &Vec<(String, bool)>,
    cursor: usize,
    focused: bool,
    max_width: usize,
) -> (r: Vec<Line>)
    ensures
        paint::line_views(r@) == chip_rows(
            chips@,
            cursor as int,
            focused,
            max_width as nat,
            chips@.len(),
        ).0.map_values(|spans: Seq<SpanView>| paint::row(spans)),
{
    let mut lines = no_rows();
    let ghost as_row = |spans: Seq<SpanView>| paint::row(spans);
    if chips.len() == 0 {
        proof {
            assert(Seq::<Seq<SpanView>>::empty().map_values(as_row) =~= Seq::<LineView>::empty());
        }
        return lines;
    }
    let ghost cur = cursor as int;
    let ghost max = max_width as nat;
    let mut current = no_spans();
    put_chip(&mut current, chips[0].0.as_str(), chips[0].1, focused && cursor == 0);
    let mut width = capped_sum(chars_of(chips[0].0.as_str()).len(), 3);
    let ghost rows = chip_rows(chips@, cur, focused, max, 1).0;
    proof {
        reveal_with_fuel(chip_rows, 2);
        assert(paint::span_views(current@) =~= rows.last());
        assert(paint::line_views(lines@) =~= rows.drop_last().map_values(as_row));
    }
    let mut i: usize = 1;
    while i < chips.len()
        invariant
            1 <= i <= chips@.len(),
            cur == cursor,
            max == max_width,
            as_row == (|spans: Seq<SpanView>| paint::row(spans)),
            rows == chip_rows(chips@, cur, focused, max, i as nat).0,
            rows.len() > 0,
            paint::span_views(current@) == rows.last(),
            paint::line_views(lines@) == rows.drop_last().map_values(as_row),
            counts(width, chip_rows(chips@, cur, focused, max, i as nat).1),
        decreases chips@.len() - i,
    {
        let name = chips[i].0.as_str();
        let on = chips[i].1;
        let n = chars_of(name).len();
        let is_cursor = focused && i == cursor;
        let fits = width <= max_width && n <= max_width - width && max_width - width - n >= 3;
        let ghost exact = chip_rows(chips@, cur, focused, max, i as nat).1;
        let ghost before = rows;
        proof {
            assert(fits == (exact + chip_width(chips@[i as int]) <= max_width));
            rows = chip_rows(chips@, cur, focused, max, (i + 1) as nat).0;
        }
        if fits {
            put_chip(&mut current, name, on, is_cursor);
            width = width + n + 3;
            proof {
                assert(rows.drop_last() =~= before.drop_last());
            }
        } else {
            let mut full = no_spans();
            std::mem::swap(&mut full, &mut current);
            put_row(&mut lines, full);
            put_chip(&mut current, name, on, is_cursor);
            width = capped_sum(n, 3);
            proof {
                assert(rows.drop_last() =~= before);
                assert(before =~= before.drop_last().push(before.last()));
                assert(paint::line_views(lines@) =~= before.map_values(as_row));
                assert(paint::span_views(current@) =~= rows.last());
            }
        }
        i += 1;
    }
    put_row(&mut lines, current);
    proof {
        assert(rows =~= rows.drop_last().push(rows.last()));
        assert(paint::line_views(lines@) =~= rows.map_values(as_row));
    }
    lines
}

/// The first `n` chips one after the other.
pub open spec fn chips_in_order(
    chips: Seq<(String, bool)>,
    cursor: int,
    focused: bool,
    n: nat,
) -> Seq<SpanView>
    decreases n,
{
    if n == 0 {
        Seq::empty()
    } else {
        chips_in_order(chips, cursor, focused, (n - 1) as nat) + chip_view(
            chips[n - 1].0@,
            chips[n - 1].1,
            focused && n - 1 == cursor,
        )
    }
}

/// The rows hold every chip once, in order.
pub proof fn law_rows_hold_every_chip(
    chips: Seq<(String, bool)>,
    cursor: int,
    focused: bool,
    max_width: nat,
    n: nat,
)
    ensures
        chip_rows(chips, cursor, focused, max_width, n).0.flatten() == chips_in_order(
            chips,
            cursor,
            focused,
            n,
        ),
        n > 0 ==> chip_rows(chips, cursor, focused, max_width, n).0.len() > 0,
    decreases n,
{
    if n == 0 {
        assert(Seq::<Seq<SpanView>>::empty().flatten() =~= Seq::<SpanView>::empty());
    } else {
        law_rows_hold_every_chip(chips, cursor, focused, max_width, (n - 1) as nat);
        let (rows, width) = chip_rows(chips, cursor, focused, max_width, (n - 1) as nat);
        let chip = chips[n - 1];
        let view = chip_view(chip.0@, chip.1, focused && n - 1 == cursor);
        if rows.len() == 0 || width + chip_width(chip) > max_width {
            rows.lemma_flatten_push(view);
        } else {
            let init = rows.drop_last();
            assert(rows =~= init.push(rows.last()));
            init.lemma_flatten_push(rows.last());
            init.lemma_flatten_push(rows.last() + view);
            assert(init.flatten() + (rows.last() + view) =~= init.flatten() + rows.last() + view);
        }
    }
}

/// The hint above the chips.
pub open spec fn extensions_hint(active: nat) -> Seq<char> {
    if active == 0 {
        "all file types  \u{b7}  space to narrow"@
    } else {
        text::decimal_of(active) + " selected  \u{b7}  empty = all types"@
    }
}

/// The frame of the box for the chips.
pub fn extensions_frame(app: &App) -> (r: Frame)
    ensures
        (r.border, paint::span_views(r.title@)) == frame_view(
            app.focus == Focus::Extensions,
            "file types"@,
            extensions_hint(app.extensions.names_on().len()),
        ),
{
    let active = app.extensions.active_count();
    let hint = if active == 0 {
        copied("all file types  \u{b7}  space to narrow")
    } else {
        joined(decimal(active as u64).as_str(), " selected  \u{b7}  empty = all types")
    };
    box_with_title(app, Focus::Extensions, "file types", hint.as_str())
}

/// The chips in a box of the given width.
pub fn draw_extensions_box(app: &App, width: u16) -> (r: Vec<Line>)
    ensures
        paint::line_views(r@) == chip_rows(
            app.extensions.chips@,
            app.extensions.cursor as int,
            app.focus == Focus::Extensions,
            width as nat,
            app.extensions.chips@.len(),
        ).0.map_values(|spans: Seq<SpanView>| paint::row(spans)),
{
    build_chip_lines(
        &app.extensions.chips,
        app.extensions.cursor,
        app.focus == Focus::Extensions,
        width as usize,
    )
}

// ---- Flags and pickers ----------------------------------------------------

/// One flag.
pub open spec fn flag_view(label: Seq<char>, on: bool, selected: bool) -> Seq<SpanView> {
    seq![
        paint::piece(
            if selected {
                "\u{25b8} "@
            } else {
                "  "@
            },
            paint::ink(Hue::Rose),
        ),
        paint::piece(
            if on {
                "\u{25cf}"@
            } else {
                "\u{25cb}"@
            },
            paint::ink(
                if on {
                    Hue::Sage
                } else {
                    Hue::Dim
                },
            ),
        ),
        paint::piece("  "@, paint::bare()),
        paint::piece(
            label,
            if selected {
                paint::bold(Hue::Accent)
            } else {
                paint::ink(Hue::Text)
            },
        ),
    ]
}

/// The box for the flags, one line for each.
pub fn draw_flags_box(app: &App) -> (r: (Frame, Vec<Line>))
    ensures
        (r.0.border, paint::span_views(r.0.title@)) == frame_view(
            app.focus == Focus::Flags,
            "options"@,
            "fine-tune the search"@,
        ),
        r.1@.len() == 7,
        forall|i: int|
            0 <= i < 7 ==> (#[trigger] r.1@[i])@ == paint::row(
                flag_view(
                    crate::tui::form::FLAG_LABELS@[i]@,
                    app.flags.flag(i),
                    app.focus == Focus::Flags && i == app.flags.cursor,
                ),
            ),
{
    let frame = box_with_title(app, Focus::Flags, "options", "fine-tune the search");
    let focused = app.focus == Focus::Flags;
    let entries = app.flags.entries();
    let mut lines: Vec<Line> = Vec::new();
    let mut i: usize = 0;
    while i < 7
        invariant
            i <= 7,
            lines@.len() == i,
            focused == (app.focus == Focus::Flags),
            forall|k: int|
                0 <= k < 7 ==> (#[trigger] entries@[k]).0@ == crate::tui::form::FLAG_LABELS@[k]@
                    && entries@[k].1 == app.flags.flag(k),
            forall|k: int|
                0 <= k < i ==> (#[trigger] lines@[k])@ == paint::row(
                    flag_view(
                        crate::tui::form::FLAG_LABELS@[k]@,
                        app.flags.flag(k),
                        focused && k == app.flags.cursor,
                    ),
                ),
        decreases 7 - i,
    {
        let entry = entries[i];
        let on = entry.1;
        let selected = focused && i == app.flags.cursor;
        let mut spans = no_spans();
        put(
            &mut spans,
            if selected {
                "\u{25b8} "
            } else {
                "  "
            },
            in_ink(Hue::Rose),
        );
        if on {
            put(&mut spans, "\u{25cf}", in_ink(Hue::Sage));
        } else {
            put(&mut spans, "\u{25cb}", in_ink(Hue::Dim));
        }
        put(&mut spans, "  ", unpainted());
        put(
            &mut spans,
            entry.0,
            if selected {
                in_bold(Hue::Accent)
            } else {
                in_ink(Hue::Text)
            },
        );
        proof {
            assert(entries@[i as int].0@ == crate::tui::form::FLAG_LABELS@[i as int]@);
            assert(paint::span_views(spans@) =~= flag_view(
                crate::tui::form::FLAG_LABELS@[i as int]@,
                app.flags.flag(i as int),
                selected,
            ));
        }
        lines.push(Line { spans, align: Align::Left });
        i += 1;
    }
    (frame, lines)
}

/// One OCR engine that can be picked.
pub open spec fn engine_view(label: Seq<char>, selected: bool, enabled: bool) -> Seq<SpanView> {
    seq![
        paint::piece(
            if selected {
                "\u{25cf}"@
            } else {
                "\u{25cb}"@
            },
            paint::ink(
                if !enabled {
                    Hue::Dim
                } else if selected {
                    Hue::Rose
                } else {
                    Hue::Muted
                },
            ),
        ),
        paint::piece(" "@, paint::bare()),
        paint::piece(
            label,
            paint::ink_or_bold(
                if !enabled {
                    Hue::Dim
                } else if selected {
                    Hue::Text
                } else {
                    Hue::Muted
                },
                selected && enabled,
            ),
        ),
    ]
}

fn put_engine(spans: &mut Vec<Span>, label: &str, selected: bool, enabled: bool)
    ensures
        paint::span_views(final(spans)@) == paint::span_views(old(spans)@) + engine_view(
            label@,
            selected,
            enabled,
        ),
{
    let marker_hue = if !enabled {
        Hue::Dim
    } else if selected {
        Hue::Rose
    } else {
        Hue::Muted
    };
    let label_hue = if !enabled {
        Hue::Dim
    } else if selected {
        Hue::Text
    } else {
        Hue::Muted
    };
    put(
        spans,
        if selected {
            "\u{25cf}"
        } else {
            "\u{25cb}"
        },
        in_ink(marker_hue),
    );
    put(spans, " ", unpainted());
    put(spans, label, Paint { fg: Some(label_hue), bg: None, bold: selected && enabled });
    proof {
        assert(paint::span_views(spans@) =~= paint::span_views(old(spans)@) + engine_view(
            label@,
            selected,
            enabled,
        ));
    }
}

/// The box for the OCR engine.
pub fn draw_ocr_engine_box(app: &App) -> (r: (Frame, Vec<Span>))
    ensures
        (r.0.border, paint::span_views(r.0.title@)) == frame_view(
            app.focus == Focus::OcrEnginePicker,
            "OCR engine"@,
            if app.flags.ocr {
                "\u{2190} \u{2192} to pick"@
            } else {
                "enable OCR to use"@
            },
        ),
        paint::span_views(r.1@) == seq![paint::piece(" "@, paint::bare())] + engine_view(
            "tesseract"@,
            app.ocr_engine == OcrEngine::Tesseract,
            app.flags.ocr,
        ) + seq![paint::piece("   "@, paint::bare())] + engine_view(
            "ocrs"@,
            app.ocr_engine == OcrEngine::Ocrs,
            app.flags.ocr,
        ),
{
    let hint = if app.flags.ocr {
        "\u{2190} \u{2192} to pick"
    } else {
        "enable OCR to use"
    };
    let frame = box_with_title(app, Focus::OcrEnginePicker, "OCR engine", hint);
    let enabled = app.flags.ocr;
    let mut spans = no_spans();
    put(&mut spans, " ", unpainted());
    put_engine(&mut spans, "tesseract", app.ocr_engine == OcrEngine::Tesseract, enabled);
    put(&mut spans, "   ", unpainted());
    put_engine(&mut spans, "ocrs", app.ocr_engine == OcrEngine::Ocrs, enabled);
    proof {
        assert(paint::span_views(spans@) =~= seq![paint::piece(" "@, paint::bare())] + engine_view(
            "tesseract"@,
            app.ocr_engine == OcrEngine::Tesseract,
            enabled,
        ) + seq![paint::piece("   "@, paint::bare())] + engine_view(
            "ocrs"@,
            app.ocr_engine == OcrEngine::Ocrs,
            enabled,
        ));
    }
    (frame, spans)
}

/// The search depth between arrows, and its place among the choices.
pub open spec fn depth_view(depth: Option<usize>, focused: bool) -> Seq<SpanView> {
    seq![
        paint::piece(
            if focused {
                "\u{25c2} "@
            } else {
                "  "@
            },
            paint::ink(Hue::Rose),
        ),
        paint::piece(crate::tui::form::depth_label(depth), paint::bold(Hue::Text)),
        paint::piece(
            if focused {
                " \u{25b8}"@
            } else {
                "  "@
            },
            paint::ink(Hue::Rose),
        ),
        paint::piece(
            "   "@ + text::decimal_of((crate::tui::form::depth_place(depth) + 1) as nat) + "/"@
                + text::decimal_of(DEPTHS as nat),
            paint::ink(Hue::Dim),
        ),
    ]
}

/// The box for the search depth.
pub fn draw_max_depth_box(app: &App) -> (r: (Frame, Vec<Span>))
    ensures
        (r.0.border, paint::span_views(r.0.title@)) == frame_view(
            app.focus == Focus::MaxDepth,
            "max depth"@,
            "how deep to descend"@,
        ),
        paint::span_views(r.1@) == depth_view(app.max_depth, app.focus == Focus::MaxDepth),
{
    let frame = box_with_title(app, Focus::MaxDepth, "max depth", "how deep to descend");
    let (left, right) = if app.focus == Focus::MaxDepth {
        ("\u{25c2} ", " \u{25b8}")
    } else {
        ("  ", "  ")
    };
    let at = max_depth_index(app.max_depth);
    let mut place = joined3("   ", decimal((at + 1) as u64).as_str(), "/");
    place.append(decimal(DEPTHS as u64).as_str());
    let mut spans = no_spans();
    put(&mut spans, left, in_ink(Hue::Rose));
    put(&mut spans, max_depth_label(app.max_depth).as_str(), in_bold(Hue::Text));
    put(&mut spans, right, in_ink(Hue::Rose));
    put(&mut spans, place.as_str(), in_ink(Hue::Dim));
    (frame, spans)
}

/// How much of the bar of forty is filled for a limit; two hundred fill it.
pub open spec fn limit_filled(limit: nat) -> nat {
    let parts = crate::doubles::progress_parts(limit, 200, 40);
    if parts < 1 {
        1
    } else if parts > 40 {
        40
    } else {
        parts
    }
}

/// The limit with a bar.
pub open spec fn limit_view(limit: nat, focused: bool) -> Seq<SpanView> {
    seq![
        paint::piece(
            text::right_aligned(text::decimal_of(limit), 3) + "  "@,
            paint::ink(Hue::Text),
        ),
        paint::piece(
            text::repeated('\u{2501}', limit_filled(limit)),
            paint::ink(
                if focused {
                    Hue::Accent
                } else {
                    Hue::Sage
                },
            ),
        ),
        paint::piece(
            text::repeated('\u{2501}', (40 - limit_filled(limit)) as nat),
            paint::ink(Hue::Dim),
        ),
    ]
}

/// The box for the limit.
pub fn draw_limit_box(app: &App) -> (r: (Frame, Vec<Span>))
    ensures
        (r.0.border, paint::span_views(r.0.title@)) == frame_view(
            app.focus == Focus::Limit,
            "result limit"@,
            "top N files by match count"@,
        ),
        paint::span_views(r.1@) == limit_view(app.limit as nat, app.focus == Focus::Limit),
{
    let frame = box_with_title(app, Focus::Limit, "result limit", "top N files by match count");
    let parts = share_of_progress(app.limit as u64, 200, 40);
    let filled: usize = if parts < 1 {
        1
    } else if parts > 40 {
        40
    } else {
        parts as usize
    };
    let accent = if app.focus == Focus::Limit {
        Hue::Accent
    } else {
        Hue::Sage
    };
    let mut spans = no_spans();
    put(
        &mut spans,
        joined(align_right(decimal(app.limit as u64).as_str(), 3).as_str(), "  ").as_str(),
        in_ink(Hue::Text),
    );
    put(&mut spans, repeat_char('\u{2501}', filled).as_str(), in_ink(accent));
    put(&mut spans, repeat_char('\u{2501}', 40 - filled).as_str(), in_ink(Hue::Dim));
    (frame, spans)
}

/// The run button: the color of its border and its label.
pub fn draw_run_button(app: &App) -> (r: (Hue, Span))
    ensures
        r.0 == (if app.focus == Focus::RunButton {
            Hue::Rose
        } else {
            Hue::Dim
        }),
        r.1@ == paint::piece(
            "  \u{25b6}  run search  "@,
            if app.focus == Focus::RunButton {
                Paint { fg: Some(Hue::Black), bg: Some(Hue::Rose), bold: true }
            } else {
                Paint { fg: Some(Hue::Rose), bg: Some(Hue::Reset), bold: true }
            },
        ),
{
    let focused = app.focus == Focus::RunButton;
    let (border, fg, bg) = if focused {
        (Hue::Rose, Hue::Black, Hue::Rose)
    } else {
        (Hue::Dim, Hue::Rose, Hue::Reset)
    };
    (
        border,
        Span {
            text: copied("  \u{25b6}  run search  "),
            paint: Paint { fg: Some(fg), bg: Some(bg), bold: true },
        },
    )
}

// ---- The searching screen -------------------------------------------------

/// The spinner at a tick.
pub open spec fn spinner(tick: nat) -> Seq<char> {
    if tick % 4 == 0 {
        "\u{25d0}"@
    } else if tick % 4 == 1 {
        "\u{25d3}"@
    } else if tick % 4 == 2 {
        "\u{25d1}"@
    } else {
        "\u{25d2}"@
    }
}

/// The bar while files are being discovered: six lit cells that wander with the
/// ticks, round and round.
pub open spec fn wandering_bar(width: nat, tick: nat) -> Seq<char> {
    Seq::new(
        width,
        |i: int|
            if (i + width - tick % width) % (width as int) < 6 {
                '\u{2501}'
            } else {
                '\u{2500}'
            },
    )
}

/// How much of a bar is filled.
pub open spec fn bar_filled(current: nat, total: nat, width: nat) -> nat {
    let parts = crate::doubles::progress_parts(current, total, width);
    if parts < width {
        parts
    } else {
        width
    }
}

/// The percentage of files that are done.
pub open spec fn percent_done(current: nat, total: nat) -> nat {
    let percent = crate::doubles::progress_parts(current, total, 100);
    if percent <= u32::MAX {
        percent
    } else {
        u32::MAX as nat
    }
}

/// The bar, the caption below it and its color. The total is 0 until the files
/// are discovered.
pub open spec fn progress_view(width: nat, tick: nat, current: nat, total: nat) -> (
    Seq<char>,
    Seq<char>,
    Hue,
) {
    if total == 0 {
        (wandering_bar(width, tick), "discovering files\u{2026}"@, Hue::Dim)
    } else {
        let filled = bar_filled(current, total, width);
        (
            text::repeated('\u{2501}', filled) + text::repeated(
                '\u{2500}',
                (width - filled) as nat,
            ),
            text::decimal_of(current) + " / "@ + text::decimal_of(total) + " files  \u{b7}  "@
                + text::decimal_of(percent_done(current, total)) + "%"@,
            Hue::Accent,
        )
    }
}

/// The bar, the caption below it and its color.
pub fn progress_bar(width: u16, tick: usize, current: usize, total: usize) -> (r: (
    String,
    String,
    Hue,
))
    ensures
        (r.0@, r.1@, r.2) == progress_view(
            width as nat,
            tick as nat,
            current as nat,
            total as nat,
        ),
{
    if total == 0 {
        let mut bar = String::new();
        let w = width as usize;
        let mut i: usize = 0;
        let ghost whole = wandering_bar(width as nat, tick as nat);
        proof {
            assert(bar@ =~= whole.take(0));
        }
        while i < w
            invariant
                i <= w,
                w == width,
                whole == wandering_bar(width as nat, tick as nat),
                bar@ == whole.take(i as int),
            decreases w - i,
        {
            let lit = (i + w - tick % w) % w < 6;
            bar.push(
                if lit {
                    '\u{2501}'
                } else {
                    '\u{2500}'
                },
            );
            proof {
                assert(bar@ =~= whole.take(i + 1));
            }
            i += 1;
        }
        proof {
            assert(bar@ =~= whole);
        }
        (bar, copied("discovering files\u{2026}"), Hue::Dim)
    } else {
        let parts = share_of_progress(current as u64, total as u64, width as u32);
        let filled: usize = if parts < width as u128 {
            parts as usize
        } else {
            width as usize
        };
        let percent = share_of_progress(current as u64, total as u64, 100);
        let shown: u64 = if percent <= 0xffff_ffff {
            percent as u64
        } else {
            0xffff_ffff
        };
        let bar = joined(
            repeat_char('\u{2501}', filled).as_str(),
            repeat_char('\u{2500}', width as usize - filled).as_str(),
        );
        let mut caption = joined3(
            decimal(current as u64).as_str(),
            " / ",
            decimal(total as u64).as_str(),
        );
        caption.append(" files  \u{b7}  ");
        caption.append(decimal(shown).as_str());
        caption.append("%");
        (bar, caption, Hue::Accent)
    }
}

/// The lines of the searching screen.
pub open spec fn searching_view(
    pattern: Seq<char>,
    directory: Seq<char>,
    tick: nat,
    elapsed_ms: nat,
    progress: (Seq<char>, Seq<char>, Hue),
) -> Seq<LineView> {
    seq![
        paint::gap(),
        paint::row(
            seq![
                paint::piece("  "@ + spinner(tick) + "  "@, paint::ink(Hue::Rose)),
                paint::piece(
                    "searching for \u{201c}"@ + pattern + "\u{201d}"@,
                    paint::bold(Hue::Text),
                ),
            ],
        ),
        paint::row(seq![paint::piece("      in "@ + directory, paint::ink(Hue::Muted))]),
        paint::gap(),
        paint::row(seq![paint::piece("  "@ + progress.0, paint::ink(Hue::Accent))]),
        paint::gap(),
        paint::row(seq![paint::piece("      "@ + progress.1, paint::ink(progress.2))]),
        paint::row(
            seq![
                paint::piece(
                    "      elapsed  "@ + crate::doubles::duration_text(elapsed_ms, 1),
                    paint::ink(Hue::Dim),
                ),
            ],
        ),
    ]
}

/// The width of the bar in a box of the given width.
pub open spec fn bar_width(box_width: u16) -> nat {
    if box_width > 6 {
        (box_width - 6) as nat
    } else {
        0
    }
}

/// The lines of the searching screen in a box of the given width; none but while
/// a search runs. `current` of `total` files are done, after `elapsed_ms`.
pub fn draw_searching(
    app: &App,
    box_width: u16,
    current: usize,
    total: usize,
    elapsed_ms: u64,
) -> (r: Vec<Line>)
    ensures
        match app.phase {
            Phase::Searching { tick, .. } => paint::line_views(r@) == searching_view(
                app.pattern@,
                app.directory@,
                tick as nat,
                elapsed_ms as nat,
                progress_view(bar_width(box_width), tick as nat, current as nat, total as nat),
            ),
            _ => r@.len() == 0,
        },
{
    let tick = match &app.phase {
        Phase::Searching { started: _, tick, show_preview: _ } => *tick,
        _ => {
            return Vec::new();
        },
    };
    let width = if box_width > 6 {
        box_width - 6
    } else {
        0
    };
    let (bar, caption, hue) = progress_bar(width, tick, current, total);
    let spin = match tick % 4 {
        0 => "\u{25d0}",
        1 => "\u{25d3}",
        2 => "\u{25d1}",
        _ => "\u{25d2}",
    };
    let mut lines = no_rows();
    put_row(&mut lines, no_spans());
    let mut spans = no_spans();
    put(&mut spans, joined3("  ", spin, "  ").as_str(), in_ink(Hue::Rose));
    put(
        &mut spans,
        joined3("searching for \u{201c}", app.pattern.as_str(), "\u{201d}").as_str(),
        in_bold(Hue::Text),
    );
    put_row(&mut lines, spans);
    let mut spans = no_spans();
    put(&mut spans, joined("      in ", app.directory.as_str()).as_str(), in_ink(Hue::Muted));
    put_row(&mut lines, spans);
    put_row(&mut lines, no_spans());
    let mut spans = no_spans();
    put(&mut spans, joined("  ", bar.as_str()).as_str(), in_ink(Hue::Accent));
    put_row(&mut lines, spans);
    put_row(&mut lines, no_spans());
    let mut spans = no_spans();
    put(&mut spans, joined("      ", caption.as_str()).as_str(), in_ink(hue));
    put_row(&mut lines, spans);
    let mut spans = no_spans();
    put(
        &mut spans,
        joined("      elapsed  ", format_duration(elapsed_ms).as_str()).as_str(),
        in_ink(Hue::Dim),
    );
    put_row(&mut lines, spans);
    proof {
        assert(paint::line_views(lines@) =~~= searching_view(
            app.pattern@,
            app.directory@,
            tick as nat,
            elapsed_ms as nat,
            progress_view(bar_width(box_width), tick as nat, current as nat, total as nat),
        ));
    }
    lines
}

// ---- The results screen ---------------------------------------------------

/// A number with its label.
pub open spec fn stat_view(label: Seq<char>, value: Seq<char>, hue: Hue) -> Seq<SpanView> {
    seq![
        paint::piece(value, paint::bold(hue)),
        paint::piece(" "@ + label + "   "@, paint::ink(Hue::Muted)),
    ]
}

fn put_stat(spans: &mut Vec<Span>, label: &str, value: &str, hue: Hue)
    ensures
        paint::span_views(final(spans)@) == paint::span_views(old(spans)@) + stat_view(
            label@,
            value@,
            hue,
        ),
{
    put(spans, value, in_bold(hue));
    put(spans, joined3(" ", label, "   ").as_str(), in_ink(Hue::Muted));
    proof {
        assert(paint::span_views(spans@) =~= paint::span_views(old(spans)@) + stat_view(
            label@,
            value@,
            hue,
        ));
    }
}

/// The line of statistics.
pub open spec fn stats_row(stats: SearchStats, shown: nat, query: Seq<char>) -> Seq<SpanView> {
    seq![
        paint::piece("  query  "@, paint::ink(Hue::Dim)),
        paint::piece("\u{201c}"@ + query + "\u{201d}"@, paint::bold(Hue::Rose)),
        paint::piece("     "@, paint::bare()),
    ] + stat_view("scanned"@, text::decimal_of(stats.files_scanned as nat), Hue::Text) + stat_view(
        "matched"@,
        text::decimal_of(stats.files_matched as nat),
        Hue::Sage,
    ) + stat_view("hits"@, text::decimal_of(stats.total_matches as nat), Hue::Sky) + stat_view(
        "showing"@,
        text::decimal_of(shown),
        Hue::Accent,
    ) + stat_view(
        "in"@,
        crate::doubles::duration_text(stats.duration_ms as nat, 1),
        Hue::Muted,
    )
}

/// The breakdown by the first `n` file types in the given order.
pub open spec fn breakdown_row(
    counts: Seq<(crate::types::FileType, usize)>,
    order: Seq<usize>,
    n: nat,
) -> Seq<SpanView>
    decreases n,
{
    if n == 0 {
        seq![paint::piece("  by type  "@, paint::ink(Hue::Dim))]
    } else {
        let count = counts[order[n - 1] as int];
        breakdown_row(counts, order, (n - 1) as nat) + seq![
            paint::piece(text::decimal_of(count.1 as nat), paint::bold(Hue::Text)),
            paint::piece(
                " "@ + text::lower_of(count.0.name_of()) + "   "@,
                paint::ink(Hue::Muted),
            ),
        ]
    }
}

/// At most six file types are broken down.
pub open spec fn at_most_six(n: nat) -> nat {
    if n < 6 {
        n
    } else {
        6
    }
}

/// The bar of statistics: the numbers, and the breakdown by file type from the
/// most frequent to the least.
pub fn draw_stats_bar(stats: &SearchStats, result_count: usize, query: &str) -> (r: (
    Vec<Span>,
    Vec<Span>,
))
    ensures
        paint::span_views(r.0@) == stats_row(*stats, result_count as nat, query@),
        exists|order: Seq<usize>| #[trigger]
            crate::places::is_descending(crate::ui::type_numbers(stats.by_type.counts@), order)
                && paint::span_views(r.1@) == breakdown_row(
                stats.by_type.counts@,
                order,
                at_most_six(stats.by_type.counts@.len()),
            ),
{
    let mut spans = no_spans();
    put(&mut spans, "  query  ", in_ink(Hue::Dim));
    put(&mut spans, joined3("\u{201c}", query, "\u{201d}").as_str(), in_bold(Hue::Rose));
    put(&mut spans, "     ", unpainted());
    put_stat(&mut spans, "scanned", decimal(stats.files_scanned as u64).as_str(), Hue::Text);
    put_stat(&mut spans, "matched", decimal(stats.files_matched as u64).as_str(), Hue::Sage);
    put_stat(&mut spans, "hits", decimal(stats.total_matches as u64).as_str(), Hue::Sky);
    put_stat(&mut spans, "showing", decimal(result_count as u64).as_str(), Hue::Accent);
    put_stat(&mut spans, "in", format_duration(stats.duration_ms).as_str(), Hue::Muted);
    let order = type_order(stats);
    let ghost counts = stats.by_type.counts@;
    let mut breakdown = no_spans();
    put(&mut breakdown, "  by type  ", in_ink(Hue::Dim));
    proof {
        assert(paint::span_views(breakdown@) =~= breakdown_row(counts, order@, 0));
    }
    let n = if order.len() < 6 {
        order.len()
    } else {
        6
    };
    let mut i: usize = 0;
    while i < n
        invariant
            i <= n <= order@.len(),
            counts == stats.by_type.counts@,
            order@.len() == counts.len(),
            forall|j: int| 0 <= j < order@.len() ==> (#[trigger] order@[j]) < counts.len(),
            paint::span_views(breakdown@) == breakdown_row(counts, order@, i as nat),
        decreases n - i,
    {
        let count = stats.by_type.counts[order[i]];
        put(&mut breakdown, decimal(count.1 as u64).as_str(), in_bold(Hue::Text));
        put(
            &mut breakdown,
            joined3(" ", lowercase(count.0.name()).as_str(), "   ").as_str(),
            in_ink(Hue::Muted),
        );
        proof {
            assert(paint::span_views(breakdown@) =~= breakdown_row(
                counts,
                order@,
                (i + 1) as nat,
            ));
        }
        i += 1;
    }
    (spans, breakdown)
}

/// A text with the first match in it set off, indented by two.
pub open spec fn highlighted_inline(text: Seq<char>, pattern: Seq<char>) -> Seq<SpanView> {
    if pattern.len() == 0 {
        seq![paint::piece("  "@ + text, paint::ink(Hue::Text))]
    } else {
        match crate::ui::found_at(text, pattern) {
            Some((from, to)) => seq![
                paint::piece("  "@, paint::bare()),
                paint::piece(text.take(from), paint::ink(Hue::Muted)),
                paint::piece(
                    text.subrange(from, to),
                    Paint { fg: Some(Hue::Black), bg: Some(Hue::Rose), bold: true },
                ),
                paint::piece(text.skip(to), paint::ink(Hue::Muted)),
            ],
            None => seq![paint::piece("  "@ + text, paint::ink(Hue::Muted))],
        }
    }
}

/// A text with the first match in it set off, indented by two.
pub fn highlight_inline(text: &str, pattern: &str) -> (r: Vec<Span>)
    ensures
        paint::span_views(r@) == highlighted_inline(text@, pattern@),
{
    let mut spans = no_spans();
    if pattern.is_empty() {
        put(&mut spans, joined("  ", text).as_str(), in_ink(Hue::Text));
        return spans;
    }
    match split_at_match(text, pattern) {
        Some((before, matched, after)) => {
            put(&mut spans, "  ", unpainted());
            put(&mut spans, before.as_str(), in_ink(Hue::Muted));
            put(
                &mut spans,
                matched.as_str(),
                Paint { fg: Some(Hue::Black), bg: Some(Hue::Rose), bold: true },
            );
            put(&mut spans, after.as_str(), in_ink(Hue::Muted));
        },
        None => {
            put(&mut spans, joined("  ", text).as_str(), in_ink(Hue::Muted));
        },
    }
    spans
}

/// How many snippets a preview has at most.
pub const SHOWN_SNIPPETS: usize = 8;

/// How long a snippet is at most.
pub const SNIPPET_WIDTH: usize = 100;

/// The line of a match, cut, with the match set off.
pub open spec fn snippet_view(m: crate::types::Match) -> LineView {
    paint::row(
        highlighted_inline(
            text::truncated(text::trimmed(m.context@), SNIPPET_WIDTH as nat),
            m.matched_text@,
        ),
    )
}

/// The preview of a result: its name and path, how it is rated, up to eight
/// snippets, and how many more there are.
pub open spec fn preview_view(result: SearchResult) -> Seq<LineView> {
    let n = result.matches@.len();
    let shown = if n < SHOWN_SNIPPETS {
        n
    } else {
        SHOWN_SNIPPETS as nat
    };
    seq![
        paint::row(seq![paint::piece(result.filename_of(), paint::bold(Hue::Text))]),
        paint::row(seq![paint::piece(result.path@, paint::ink(Hue::Dim))]),
        paint::gap(),
        paint::row(
            seq![
                paint::piece(text::decimal_of(n), paint::bold(Hue::Sage)),
                paint::piece(" matches   "@, paint::ink(Hue::Muted)),
                paint::piece(
                    text::decimal_of(crate::doubles::even_percent(result.confidence)) + "%"@,
                    paint::bold(Hue::Accent),
                ),
                paint::piece(" confidence"@, paint::ink(Hue::Muted)),
            ],
        ),
        paint::gap(),
    ] + result.matches@.take(shown as int).map_values(|m: crate::types::Match| snippet_view(m)) + (
    if n > shown {
        seq![
            paint::gap(),
            paint::row(
                seq![
                    paint::piece(
                        "  \u{2026} + "@ + text::decimal_of((n - shown) as nat) + " more matches"@,
                        paint::ink(Hue::Dim),
                    ),
                ],
            ),
        ]
    } else {
        Seq::empty()
    })
}

/// The preview of a result.
pub fn draw_preview_pane(result: &SearchResult) -> (r: Vec<Line>)
    requires
        result.wf(),
    ensures
        paint::line_views(r@) == preview_view(*result),
{
    let mut lines = no_rows();
    let mut spans = no_spans();
    put(&mut spans, result.filename().as_str(), in_bold(Hue::Text));
    put_row(&mut lines, spans);
    let mut spans = no_spans();
    put(&mut spans, result.path.as_str(), in_ink(Hue::Dim));
    put_row(&mut lines, spans);
    put_row(&mut lines, no_spans());
    let mut spans = no_spans();
    put(&mut spans, decimal(result.match_count() as u64).as_str(), in_bold(Hue::Sage));
    put(&mut spans, " matches   ", in_ink(Hue::Muted));
    let percent = share_even_percent(result.confidence);
    put(&mut spans, joined(decimal(percent).as_str(), "%").as_str(), in_bold(Hue::Accent));
    put(&mut spans, " confidence", in_ink(Hue::Muted));
    put_row(&mut lines, spans);
    put_row(&mut lines, no_spans());
    let ghost head = paint::line_views(lines@);
    let n = result.matches.len();
    let shown = if n < SHOWN_SNIPPETS {
        n
    } else {
        SHOWN_SNIPPETS
    };
    let ghost of_match = |m: crate::types::Match| snippet_view(m);
    let ghost snippets = result.matches@.take(shown as int).map_values(of_match);
    proof {
        assert(head + snippets.take(0) =~= head);
    }
    let mut i: usize = 0;
    while i < shown
        invariant
            i <= shown <= result.matches@.len(),
            of_match == (|m: crate::types::Match| snippet_view(m)),
            snippets == result.matches@.take(shown as int).map_values(of_match),
            paint::line_views(lines@) == head + snippets.take(i as int),
        decreases shown - i,
    {
        let m = &result.matches[i];
        let snippet = truncate_display(trim(m.context.as_str()).as_str(), SNIPPET_WIDTH);
        put_row(&mut lines, highlight_inline(snippet.as_str(), m.matched_text.as_str()));
        proof {
            assert(snippets[i as int] == snippet_view(result.matches@[i as int]));
            assert(head + snippets.take(i + 1) =~= (head + snippets.take(i as int)).push(
                snippet_view(result.matches@[i as int]),
            ));
        }
        i += 1;
    }
    proof {
        assert(snippets.take(shown as int) =~= snippets);
    }
    if n > shown {
        put_row(&mut lines, no_spans());
        let mut spans = no_spans();
        put(
            &mut spans,
            joined3(
                "  \u{2026} + ",
                decimal((n - shown) as u64).as_str(),
                " more matches",
            ).as_str(),
            in_ink(Hue::Dim),
        );
        put_row(&mut lines, spans);
    }
    proof {
        assert(paint::line_views(lines@) =~~= preview_view(*result));
    }
    lines
}

/// One result in the list.
pub open spec fn item_view(rank: nat, result: SearchResult) -> LineView {
    paint::row(
        seq![
            paint::piece(
                text::right_aligned(text::decimal_of(rank), 2) + "  "@,
                paint::ink(Hue::Dim),
            ),
            paint::piece(
                text::left_aligned(text::lower_of(result.file_type.name_of()), 5),
                paint::ink(Hue::Sky),
            ),
            paint::piece("  "@, paint::bare()),
            paint::piece(result.filename_of(), paint::bold(Hue::Text)),
            paint::piece(
                "  \u{b7} "@ + text::decimal_of(result.matches@.len()),
                paint::ink(Hue::Muted),
            ),
        ],
    )
}

fn list_item(rank: usize, result: &SearchResult) -> (r: Line)
    ensures
        r@ == item_view(rank as nat, *result),
{
    let mut spans = no_spans();
    put(
        &mut spans,
        joined(align_right(decimal(rank as u64).as_str(), 2).as_str(), "  ").as_str(),
        in_ink(Hue::Dim),
    );
    put(
        &mut spans,
        align_left(lowercase(result.file_type.name()).as_str(), 5).as_str(),
        in_ink(Hue::Sky),
    );
    put(&mut spans, "  ", unpainted());
    put(&mut spans, result.filename().as_str(), in_bold(Hue::Text));
    put(
        &mut spans,
        joined("  \u{b7} ", decimal(result.match_count() as u64).as_str()).as_str(),
        in_ink(Hue::Muted),
    );
    let line = Line { spans, align: Align::Left };
    proof {
        assert(line@ =~~= item_view(rank as nat, *result));
    }
    line
}

/// What is shown where nothing was found.
pub open spec fn no_results_view() -> Seq<LineView> {
    seq![
        paint::gap(),
        paint::middle(seq![paint::piece("no matches found"@, paint::ink(Hue::Muted))]),
        paint::gap(),
        paint::middle(
            seq![
                paint::piece(
                    "press n to start a new search, or b to tweak your filters"@,
                    paint::ink(Hue::Dim),
                ),
            ],
        ),
    ]
}

/// The results screen.
pub struct ResultsScreen {
    /// The statistics, and the breakdown by file type.
    pub stats: (Vec<Span>, Vec<Span>),
    /// What is shown in place of a list where there are no results.
    pub message: Vec<Line>,
    /// The title of the list.
    pub title: Vec<Span>,
    /// The results.
    pub items: Vec<Line>,
    /// The result that the list starts from.
    pub selected: Option<usize>,
    /// The preview of the selected result.
    pub preview: Vec<Line>,
}

/// The screen shows the results of the state.
pub open spec fn shows_results(
    screen: ResultsScreen,
    results: Seq<SearchResult>,
    stats: SearchStats,
    selected: Option<usize>,
    query: Seq<char>,
) -> bool {
    &&& paint::span_views(screen.stats.0@) == stats_row(stats, results.len(), query)
    &&& exists|order: Seq<usize>| #[trigger]
        crate::places::is_descending(crate::ui::type_numbers(stats.by_type.counts@), order)
            && paint::span_views(screen.stats.1@) == breakdown_row(
            stats.by_type.counts@,
            order,
            at_most_six(stats.by_type.counts@.len()),
        )
    &&& screen.items@.len() == results.len()
    &&& forall|i: int|
        0 <= i < results.len() ==> (#[trigger] screen.items@[i])@ == item_view(
            (i + 1) as nat,
            results[i],
        )
    &&& screen.selected == selected
    &&& if results.len() == 0 {
        paint::line_views(screen.message@) == no_results_view() && screen.preview@.len() == 0
    } else {
        &&& screen.message@.len() == 0
        &&& paint::span_views(screen.title@) == seq![
            paint::piece(" files "@, paint::bold(Hue::Accent)),
            paint::piece("("@ + text::decimal_of(results.len()) + ") "@, paint::ink(Hue::Dim)),
        ]
        &&& paint::line_views(screen.preview@) == preview_view(
            results[crate::tui::state::place_of(selected)],
        )
    }
}

/// The results screen; none but while results are shown.
pub fn draw_results(app: &App) -> (r: Option<ResultsScreen>)
    requires
        app.wf(),
        app.phase matches Phase::Results { results, .. } ==> forall|i: int|
            0 <= i < results@.len() ==> (#[trigger] results@[i]).wf(),
    ensures
        match app.phase {
            Phase::Results { results, stats, selected, .. } => r matches Some(screen)
                && shows_results(screen, results@, stats, selected, app.pattern@),
            _ => r is None,
        },
{
    match &app.phase {
        Phase::Results { results, stats, show_preview: _, selected } => {
            let bar = draw_stats_bar(stats, results.len(), app.pattern.as_str());
            let mut items: Vec<Line> = Vec::new();
            let mut i: usize = 0;
            while i < results.len()
                invariant
                    i <= results@.len(),
                    items@.len() == i,
                    forall|k: int|
                        0 <= k < i ==> (#[trigger] items@[k])@ == item_view(
                            (k + 1) as nat,
                            results@[k],
                        ),
                decreases results@.len() - i,
            {
                items.push(list_item(i + 1, &results[i]));
                i += 1;
            }
            let mut title = no_spans();
            put(&mut title, " files ", in_bold(Hue::Accent));
            put(
                &mut title,
                joined3("(", decimal(results.len() as u64).as_str(), ") ").as_str(),
                in_ink(Hue::Dim),
            );
            let mut message = no_rows();
            let mut preview: Vec<Line> = Vec::new();
            if results.len() == 0 {
                put_row(&mut message, no_spans());
                let mut spans = no_spans();
                put(&mut spans, "no matches found", in_ink(Hue::Muted));
                put_middle(&mut message, spans);
                put_row(&mut message, no_spans());
                let mut spans = no_spans();
                put(
                    &mut spans,
                    "press n to start a new search, or b to tweak your filters",
                    in_ink(Hue::Dim),
                );
                put_middle(&mut message, spans);
                proof {
                    assert(paint::line_views(message@) =~~= no_results_view());
                }
            } else {
                let at: usize = match selected {
                    Some(at) => *at,
                    None => 0,
                };
                preview = draw_preview_pane(&results[at]);
                proof {
                    assert(paint::line_views(message@).len() == message@.len());
                    assert(paint::span_views(title@) =~= seq![
                        paint::piece(" files "@, paint::bold(Hue::Accent)),
                        paint::piece(
                            "("@ + text::decimal_of(results@.len()) + ") "@,
                            paint::ink(Hue::Dim),
                        ),
                    ]);
                }
            }
            Some(
                ResultsScreen { stats: bar, message, title, items, selected: *selected, preview },
            )
        },
        _ => None,
    }
}

} // verus!
