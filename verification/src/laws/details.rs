//! How values are seen, and the words, colors and places of what is shown.

use crate::tui::form::Focus;
use crate::tui::geometry::{Area, Axis, HeaderAreas, ScreenAreas, SetupAreas, Size};
use crate::tui::paint::{Hue, Line, Span};
use crate::tui::state::{App, Phase};
use crate::types::{
    FileType, IndexConfig, Match, OcrConfig, OcrEngine, SearchConfig, SearchResult, VisionLlmConfig,
};
use crate::ui::{Segment, Tone};
use crate::vision_llm::{ReadyError, ResponseError};
use vstd::prelude::*;

verus! {

// ---- How values are seen --------------------------------------------------

/// Texts are seen as their characters, all of them and in order.
pub proof fn law_texts_are_seen(strings: Seq<String>, text: Option<String>)
    ensures
        crate::text::views(strings).len() == strings.len(),
        forall|i: int|
            0 <= i < strings.len() ==> (#[trigger] crate::text::views(strings)[i])
                == strings[i]@,
        text matches Some(t) ==> crate::paths::opt_view(text) == Some(t@),
        text is None ==> crate::paths::opt_view(text) is None,
{
}

/// Matches are seen as their text and their line, all of them and in order.
pub proof fn law_matches_are_seen(matches: Seq<Match>)
    ensures
        crate::types::match_views(matches).len() == matches.len(),
        forall|i: int|
            0 <= i < matches.len() ==> (#[trigger] crate::types::match_views(
                matches,
            )[i]).matched_text == matches[i].matched_text@ && crate::types::match_views(
                matches,
            )[i].context == matches[i].context@,
{
}

/// Printed lines are seen as their pieces, all of them and in order.
pub proof fn law_printed_lines_are_seen(line: Seq<Segment>, lines: Seq<Vec<Segment>>)
    ensures
        crate::ui::line_view(line).len() == line.len(),
        forall|i: int|
            0 <= i < line.len() ==> (#[trigger] crate::ui::line_view(line)[i]).text
                == line[i].text@ && crate::ui::line_view(line)[i].tone == line[i].tone
                && crate::ui::line_view(line)[i].bold == line[i].bold,
        crate::ui::lines_view(lines).len() == lines.len(),
        forall|i: int|
            0 <= i < lines.len() ==> (#[trigger] crate::ui::lines_view(lines)[i])
                == crate::ui::line_view(lines[i]@),
{
}

/// Painted lines are seen as their pieces, all of them and in order.
pub proof fn law_painted_lines_are_seen(spans: Seq<Span>, lines: Seq<Line>)
    ensures
        crate::tui::paint::span_views(spans).len() == spans.len(),
        forall|i: int|
            0 <= i < spans.len() ==> (#[trigger] crate::tui::paint::span_views(spans)[i]).text
                == spans[i].text@ && crate::tui::paint::span_views(spans)[i].paint
                == spans[i].paint,
        crate::tui::paint::line_views(lines).len() == lines.len(),
        forall|i: int|
            0 <= i < lines.len() ==> (#[trigger] crate::tui::paint::line_views(lines)[i]).spans
                == crate::tui::paint::span_views(lines[i].spans@)
                && crate::tui::paint::line_views(lines)[i].align == lines[i].align,
{
}

// ---- Matches --------------------------------------------------------------

/// With regard to case a match begins where the pattern stands, and is as long as it: the
/// empty pattern stands everywhere.
pub proof fn law_exact_match(line: Seq<char>, pattern: Seq<char>, i: int)
    requires
        0 <= i <= line.len(),
    ensures
        i + pattern.len() <= line.len() && line.subrange(i, i + pattern.len()) == pattern
            ==> crate::folding::match_end(line, pattern, true, i) == Some(i + pattern.len()),
        i + pattern.len() > line.len() || line.subrange(i, i + pattern.len()) != pattern
            ==> crate::folding::match_end(line, pattern, true, i) is None,
{
}

/// In an empty line only what is empty in lowercase stands.
pub proof fn law_match_in_an_empty_line(pattern: Seq<char>)
    ensures
        crate::folding::match_end(Seq::empty(), pattern, false, 0) is Some
            <==> crate::text::lower_of(pattern).len() == 0,
{
    let none = Seq::<char>::empty();
    let low = crate::text::lower_of(none);
    let needle = crate::text::lower_of(pattern);
    assert(low =~= none);
    crate::text::lemma_first_from(low, needle, 0);
    if needle.len() == 0 {
        assert(crate::text::occurs_at(low, needle, 0)) by {
            assert(low.subrange(0, 0) =~= needle);
        }
    }
}

// ---- Files ----------------------------------------------------------------

/// The name of a result is the file name of its path, or `unknown` where this has none;
/// and how many matches it has is their number.
pub proof fn law_name_and_count(result: SearchResult, name: String, n: usize)
    requires
        call_ensures(SearchResult::filename, (&result,), name),
        call_ensures(SearchResult::match_count, (&result,), n),
    ensures
        crate::paths::file_name_of(result.path@) matches Some(file) ==> name@ == file,
        crate::paths::file_name_of(result.path@) is None ==> name@ == "unknown"@,
        n == result.matches@.len(),
{
}

/// The icon of each type.
pub proof fn law_icons(file_type: FileType, icon: &'static str)
    requires
        call_ensures(FileType::icon, (&file_type,), icon),
    ensures
        file_type == FileType::Text ==> icon@ == "📄"@,
        file_type == FileType::Code ==> icon@ == "💻"@,
        file_type == FileType::Pdf ==> icon@ == "📕"@,
        file_type == FileType::Docx ==> icon@ == "📘"@,
        file_type == FileType::Image ==> icon@ == "🖼️ "@,
        file_type == FileType::Other ==> icon@ == "📎"@,
{
}

/// The color of each type.
pub proof fn law_type_colors(file_type: FileType, color: &'static str)
    requires
        call_ensures(FileType::color, (&file_type,), color),
    ensures
        file_type == FileType::Code ==> color@ == "cyan"@,
        file_type == FileType::Pdf ==> color@ == "red"@,
        file_type == FileType::Docx ==> color@ == "blue"@,
        file_type == FileType::Image ==> color@ == "magenta"@,
        file_type == FileType::Text || file_type == FileType::Other ==> color@ == "white"@,
{
}

/// Where a file of an index lies, its time is that of the file system, in whole seconds
/// since the epoch.
pub proof fn law_file_time(modified: Option<std::time::SystemTime>, r: Option<u64>)
    requires
        call_ensures(crate::index::get_file_timestamp, (modified,), r),
    ensures
        modified is None ==> r is None,
        modified matches Some(time) ==> {
            &&& crate::index::passed_at(time) is Err ==> r is None
            &&& crate::index::passed_at(time) matches Ok(since) ==> r == Some(
                crate::index::seconds_of(since),
            )
        },
{
}

// ---- Choosing -------------------------------------------------------------

/// A choice among the results is the result in its place; what is not the place of a
/// result chooses none.
pub proof fn law_chosen_result(
    results: Vec<SearchResult>,
    choice: Option<usize>,
    r: Option<&SearchResult>,
)
    requires
        call_ensures(crate::ui::interactive_select, (&results, choice), r),
    ensures
        choice is None ==> r is None,
        choice matches Some(at) ==> {
            &&& at < results@.len() ==> r == Some(&results@[at as int])
            &&& at >= results@.len() ==> r is None
        },
{
}

/// Every result is offered, in order and under its rank, and `exit` behind them.
pub proof fn law_offered_items(results: Vec<SearchResult>, r: Vec<String>, i: int)
    requires
        call_ensures(crate::ui::select_items, (&results,), r),
        0 <= i < results@.len(),
    ensures
        r@.len() == results@.len() + 1,
        r@[i]@ == crate::ui::item_of((i + 1) as nat, results@[i]),
        r@[results@.len() as int]@ == "exit"@,
{
}

/// An error is printed as it is, behind the word, between two empty lines.
pub proof fn law_printed_error(message: &str, r: Vec<Vec<Segment>>)
    requires
        call_ensures(crate::ui::display_error, (message,), r),
    ensures
        r@.len() == 3,
        r@[0]@.len() == 0,
        r@[1]@.len() == 4,
        r@[1]@[1].text@ == "error"@,
        r@[1]@[3].text@ == message@,
        r@[2]@.len() == 0,
{
    let lines = crate::ui::lines_view(r@);
    assert(lines.len() == r@.len());
    assert(lines[0] == crate::ui::line_view(r@[0]@));
    assert(lines[1] == crate::ui::line_view(r@[1]@));
    assert(lines[2] == crate::ui::line_view(r@[2]@));
    assert(lines[1].len() == 4 && lines[0].len() == 0 && lines[2].len() == 0);
    assert(r@[1]@.len() == 4);
    assert(crate::ui::line_view(r@[1]@)[1] == r@[1]@[1]@);
    assert(crate::ui::line_view(r@[1]@)[3] == r@[1]@[3]@);
}

// ---- Words of the vision model --------------------------------------------

/// A key is sent as a bearer token; without one nothing is sent.
pub proof fn law_authorization(cfg: VisionLlmConfig, r: Option<String>)
    requires
        call_ensures(crate::vision_llm::authorization, (&cfg,), r),
    ensures
        cfg.api_key is None ==> r is None,
        cfg.api_key matches Some(key) ==> r is Some && r->0@ == "Bearer "@ + key@,
{
}

/// What is wrong with a reply, in words; of the reply no more than 200 characters.
pub proof fn law_words_of_reply_errors(error: ResponseError, shown: Seq<char>)
    ensures
        error matches ResponseError::Api(why) ==> error.message_of(shown)
            == "vision-llm API error: "@ + why@,
        error is NoChoices ==> error.message_of(shown) == "vision-llm response had no choices: "@
            + crate::text::truncated(shown, 200),
        error is NoContent ==> error.message_of(shown)
            == "vision-llm response had no message.content"@,
        error is UnexpectedContent ==> error.message_of(shown)
            == "vision-llm response had unexpected content shape: "@ + crate::text::truncated(
            shown,
            200,
        ),
{
}

/// An HTTP error is told with its code and no more than 400 characters of its body.
pub proof fn law_words_of_http_errors(code: u16, detail: &str, r: String)
    requires
        call_ensures(crate::vision_llm::http_error, (code, detail), r),
    ensures
        r@ == "vision-llm HTTP "@ + crate::text::decimal_of(code as nat) + ": "@
            + crate::text::truncated(detail@, 400),
{
}

/// Why the model cannot be used, in words.
pub proof fn law_words_of_ready_errors(error: ReadyError)
    ensures
        error is EmptyEndpoint ==> error.message_of() == "vision-llm endpoint is empty"@,
        error is EmptyModel ==> error.message_of() == "vision-llm model name is empty"@,
        error matches ReadyError::Unreachable { origin, reason, model } ==> (
            "vision-llm endpoint unreachable at "@ + origin@ + ": "@ + reason@).is_prefix_of(
            error.message_of(),
        ),
{
    if let ReadyError::Unreachable { origin, reason, model } = error {
        let start = "vision-llm endpoint unreachable at "@ + origin@ + ": "@ + reason@;
        assert(error.message_of().subrange(0, start.len() as int) =~= start);
    }
}

// ---- Colors ---------------------------------------------------------------

/// The colors of the printed text.
pub proof fn law_tones(tone: Tone)
    ensures
        tone == Tone::Text ==> tone.rgb_of() == (42u8, 42u8, 40u8),
        tone == Tone::Secondary ==> tone.rgb_of() == (122u8, 122u8, 120u8),
        tone == Tone::Tertiary ==> tone.rgb_of() == (191u8, 191u8, 189u8),
        tone == Tone::Accent ==> tone.rgb_of() == (139u8, 155u8, 126u8),
        tone == Tone::Alert ==> tone.rgb_of() == (201u8, 122u8, 106u8),
{
}

/// The colors of the interface.
pub proof fn law_hues(hue: Hue)
    ensures
        hue == Hue::Text ==> hue.rgb_of() == Some((225u8, 225u8, 223u8)),
        hue == Hue::Muted ==> hue.rgb_of() == Some((140u8, 140u8, 138u8)),
        hue == Hue::Dim ==> hue.rgb_of() == Some((90u8, 90u8, 88u8)),
        hue == Hue::Accent ==> hue.rgb_of() == Some((167u8, 139u8, 250u8)),
        hue == Hue::Rose ==> hue.rgb_of() == Some((244u8, 114u8, 182u8)),
        hue == Hue::Sage ==> hue.rgb_of() == Some((139u8, 175u8, 126u8)),
        hue == Hue::Sky ==> hue.rgb_of() == Some((122u8, 179u8, 224u8)),
        hue == Hue::Alert ==> hue.rgb_of() == Some((224u8, 122u8, 106u8)),
        hue == Hue::Shade ==> hue.rgb_of() == Some((55u8, 40u8, 80u8)),
        hue == Hue::Black || hue == Hue::Reset ==> hue.rgb_of() is None,
{
}

// ---- Places ---------------------------------------------------------------

/// The screen is split from top to bottom: three lines for the title, two for the help,
/// and the rest between them.
pub proof fn law_screen_areas(screen: Area, r: ScreenAreas)
    requires
        screen.wf(),
        call_ensures(crate::tui::geometry::screen_areas, (screen,), r),
    ensures
        crate::tui::geometry::is_split(
            screen,
            Axis::Vertical,
            seq![Size::Length(3), Size::Min(0), Size::Length(2)],
            seq![r.header, r.body, r.help],
        ),
{
}

/// The title bar has a line that the title and the phase share, and a rule below it.
pub proof fn law_header_areas(area: Area, top: Area, r: HeaderAreas)
    requires
        crate::tui::geometry::in_header(area, top, r),
    ensures
        crate::tui::geometry::is_split(
            area,
            Axis::Vertical,
            seq![Size::Length(1), Size::Length(1)],
            seq![top, r.rule],
        ),
        crate::tui::geometry::is_split(
            top,
            Axis::Horizontal,
            seq![Size::Percentage(50), Size::Percentage(50)],
            seq![r.title, r.phase],
        ),
{
}

/// The boxes of the form: the query, the directory, the chips beside the flags, the three
/// pickers beside each other, and the button.
pub proof fn law_setup_areas(content: Area, middle: Area, pickers: Area, r: SetupAreas)
    requires
        crate::tui::geometry::in_setup_rows(content, middle, pickers, r),
    ensures
        crate::tui::geometry::is_split(
            content,
            Axis::Vertical,
            seq![
                Size::Length(3),
                Size::Length(3),
                Size::Min(9),
                Size::Length(3),
                Size::Length(3),
            ],
            seq![r.pattern, r.directory, middle, pickers, r.run],
        ),
        crate::tui::geometry::is_split(
            middle,
            Axis::Horizontal,
            seq![Size::Percentage(50), Size::Percentage(50)],
            seq![r.extensions, r.flags],
        ),
        crate::tui::geometry::is_split(
            pickers,
            Axis::Horizontal,
            seq![Size::Percentage(33), Size::Percentage(33), Size::Percentage(34)],
            seq![r.engine, r.depth, r.limit],
        ),
{
}

/// The content of a screen has a margin of two cells at the left and at the right.
pub proof fn law_content(area: Area, content: Area)
    requires
        crate::tui::geometry::is_content(area, content),
    ensures
        exists|sizes: Seq<Size>, parts: Seq<Area>| #[trigger]
            splits_into(area, Axis::Horizontal, sizes, parts) && sizes == seq![
                Size::Length(2),
                Size::Min(0),
                Size::Length(2),
            ] && parts.len() == 3 && parts[1] == content,
{
    let (left, right) = choose|left: Area, right: Area| #[trigger]
        crate::tui::geometry::in_three(
            area,
            Axis::Horizontal,
            (Size::Length(2), Size::Min(0), Size::Length(2)),
            (left, content, right),
        );
    assert(splits_into(
        area,
        Axis::Horizontal,
        seq![Size::Length(2), Size::Min(0), Size::Length(2)],
        seq![left, content, right],
    ));
}

/// The area is split along the axis into the parts.
pub open spec fn splits_into(area: Area, axis: Axis, sizes: Seq<Size>, parts: Seq<Area>) -> bool {
    crate::tui::geometry::is_split(area, axis, sizes, parts)
}

/// What stands in the middle has its share of the area, and the same share of the rest on
/// either side.
pub proof fn law_middle(area: Area, axis: Axis, percent: u16, middle: Area)
    requires
        percent <= 100,
        crate::tui::geometry::is_middle(area, axis, percent, middle),
    ensures
        exists|sizes: Seq<Size>, parts: Seq<Area>| #[trigger]
            splits_into(area, axis, sizes, parts) && parts.len() == 3 && parts[1] == middle
                && sizes.len() == 3 && sizes[1] == Size::Percentage(percent) && sizes[0]
                == Size::Percentage(((100 - percent) / 2) as u16) && sizes[2] == sizes[0],
{
    let around = Size::Percentage(((100 - percent) / 2) as u16);
    let (before, after) = choose|before: Area, after: Area| #[trigger]
        crate::tui::geometry::in_three(
            area,
            axis,
            (around, Size::Percentage(percent), around),
            (before, middle, after),
        );
    assert(splits_into(
        area,
        axis,
        seq![around, Size::Percentage(percent), around],
        seq![before, middle, after],
    ));
}

// ---- Words of the interface -----------------------------------------------

/// The help shows each key with what it does, in order.
pub proof fn law_shown_help(pairs: Seq<(&'static str, &'static str)>, k: int)
    requires
        0 <= k < pairs.len(),
    ensures
        ({
            let shown = crate::tui::view::help_of(pairs);
            &&& shown.len() == 4 * pairs.len() - 1
            &&& shown[4 * k].text == pairs[k].0@
            &&& shown[4 * k + 2].text == pairs[k].1@
        }),
    decreases pairs.len(),
{
    let init = pairs.drop_last();
    let before = crate::tui::view::help_of(init);
    if init.len() > 0 {
        if k < init.len() {
            law_shown_help(init, k);
            assert(init[k] == pairs[k]);
        } else {
            law_shown_help(init, 0);
        }
        assert(before.len() == 4 * init.len() - 1);
    } else {
        assert(before.len() == 0);
    }
    assert(pairs.last() == pairs[pairs.len() - 1]);
}

/// What the help says of the keys, in each field, during a search and among the results.
pub proof fn law_help_of_a_state(app: App)
    ensures
        ({
            let help = crate::tui::view::help_pairs(app);
            &&& app.phase is Searching ==> help == seq![("ctrl-c", "abort")]
            &&& app.phase is Results ==> help == seq![
                ("\u{2191} \u{2193}", "navigate"),
                ("\u{23ce} / o", "open file"),
                ("n", "new search"),
                ("b / esc", "back"),
                ("q", "quit"),
            ]
            &&& app.phase is Setup && (app.focus == Focus::Pattern || app.focus
                == Focus::Directory) ==> help == seq![
                ("type", "edit"),
                ("tab", "next field"),
                ("\u{23ce}", "run"),
                ("esc", "quit"),
            ]
            &&& app.phase is Setup && app.focus == Focus::Extensions ==> help == seq![
                ("\u{2190} \u{2192}", "move"),
                ("space", "toggle"),
                ("tab", "next field"),
                ("\u{23ce}", "run"),
            ]
            &&& app.phase is Setup && app.focus == Focus::Flags ==> help == seq![
                ("\u{2191} \u{2193}", "move"),
                ("space", "toggle"),
                ("tab", "next field"),
                ("\u{23ce}", "run"),
            ]
            &&& app.phase is Setup && app.focus == Focus::OcrEnginePicker ==> help == seq![
                ("\u{2190} \u{2192}", "switch engine"),
                ("tab", "next field"),
                ("\u{23ce}", "run"),
            ]
            &&& app.phase is Setup && (app.focus == Focus::MaxDepth || app.focus == Focus::Limit)
                ==> help == seq![
                ("\u{2190} \u{2192}", "adjust"),
                ("tab", "next field"),
                ("\u{23ce}", "run"),
            ]
            &&& app.phase is Setup && app.focus == Focus::RunButton ==> help == seq![
                ("\u{23ce}", "run search"),
                ("shift-tab", "back"),
                ("esc", "quit"),
            ]
        }),
{
}

/// The title bar names the phase.
pub proof fn law_name_of_the_phase(phase: Phase)
    ensures
        phase is Setup ==> crate::tui::view::phase_label(phase) == "compose"@,
        phase is Searching ==> crate::tui::view::phase_label(phase) == "searching"@,
        phase is Results ==> crate::tui::view::phase_label(phase) == "results"@,
{
}

/// The title of the program stands at the left of the title bar.
pub proof fn law_title()
    ensures
        crate::tui::view::title_view().len() == 4,
        crate::tui::view::title_view()[1].text == "argus"@,
        crate::tui::view::title_view()[3].text == "the all-seeing file search"@,
{
}

/// The bar of a search is six cells narrower than its box, where that has as many.
pub proof fn law_bar_in_a_box(box_width: u16)
    ensures
        box_width >= 6 ==> crate::tui::view::bar_width(box_width) == box_width - 6,
        box_width < 6 ==> crate::tui::view::bar_width(box_width) == 0,
{
}

/// The frame of a field shows its title and its hint, and stands out where the field has
/// the focus.
pub proof fn law_frame(focused: bool, title: Seq<char>, hint: Seq<char>)
    ensures
        ({
            let (border, shown) = crate::tui::view::frame_view(focused, title, hint);
            &&& focused ==> border == Hue::Accent
            &&& !focused ==> border == Hue::Dim
            &&& shown.len() == 5
            &&& shown[1].text == title
            &&& shown[3].text == hint
        }),
{
}

/// Above the chips stands how many are on, and that none means all.
pub proof fn law_hint_of_the_chips(active: nat)
    ensures
        active == 0 ==> crate::tui::view::extensions_hint(active)
            == "all file types  \u{b7}  space to narrow"@,
        active > 0 ==> crate::tui::view::extensions_hint(active) == crate::text::decimal_of(active)
            + " selected  \u{b7}  empty = all types"@,
{
}

/// The flags are shown in their order, each by its label, on or off, with the mark before
/// the one under the cursor.
pub proof fn law_shown_flags(app: App, r: (crate::tui::view::Frame, Vec<Line>), i: int)
    requires
        call_ensures(crate::tui::view::draw_flags_box, (&app,), r),
        0 <= i < 7,
    ensures
        ({
            let labels = seq![
                "case sensitive"@,
                "regex mode"@,
                "OCR on images"@,
                "include hidden"@,
                "preview matches"@,
                "use saved index"@,
                "save / update index"@,
            ];
            let on = seq![
                app.flags.case_sensitive,
                app.flags.use_regex,
                app.flags.ocr,
                app.flags.include_hidden,
                app.flags.show_preview,
                app.flags.use_index,
                app.flags.save_index,
            ];
            &&& r.1@.len() == 7
            &&& r.1@[i]@.spans == crate::tui::view::flag_view(
                labels[i],
                on[i],
                app.focus == Focus::Flags && i == app.flags.cursor,
            )
        }),
{
    let labels = seq![
        "case sensitive"@,
        "regex mode"@,
        "OCR on images"@,
        "include hidden"@,
        "preview matches"@,
        "use saved index"@,
        "save / update index"@,
    ];
    assert(labels =~= crate::tui::form::FLAG_LABELS@.map_values(|s: &'static str| s@));
    assert(r.1@[i]@ == r.1@[i]@);
}

/// Of the two engines the picked one is marked.
pub proof fn law_shown_engines(app: App, r: (crate::tui::view::Frame, Vec<Span>))
    requires
        call_ensures(crate::tui::view::draw_ocr_engine_box, (&app,), r),
    ensures
        r.1@.len() == 8,
        r.1@[1].text@ == (if app.ocr_engine == OcrEngine::Tesseract {
            "\u{25cf}"@
        } else {
            "\u{25cb}"@
        }),
        r.1@[3].text@ == "tesseract"@,
        r.1@[5].text@ == (if app.ocr_engine == OcrEngine::Ocrs {
            "\u{25cf}"@
        } else {
            "\u{25cb}"@
        }),
        r.1@[7].text@ == "ocrs"@,
{
    let shown = crate::tui::paint::span_views(r.1@);
    assert(shown.len() == r.1@.len());
    assert(shown.len() == 8);
    assert(shown[1] == r.1@[1]@ && shown[3] == r.1@[3]@ && shown[5] == r.1@[5]@ && shown[7]
        == r.1@[7]@);
}

// ---- What is set where nothing is given -----------------------------------

/// A search is one without regard to case, for a literal text, in the current directory,
/// in all visible files of any depth and type, without images, and shows 20 results.
pub proof fn law_default_search(r: SearchConfig)
    requires
        call_ensures(SearchConfig::default, (), r),
    ensures
        r.directory@ == "."@,
        r.pattern@.len() == 0,
        !r.case_sensitive,
        !r.use_regex,
        !r.include_hidden,
        !r.show_preview,
        r.limit == 20,
        r.max_depth is None,
        r.extensions@.len() == 0,
        !r.ocr.enabled,
        r.ocr.engine == OcrEngine::Tesseract,
        r.ocr.language@ == "eng"@,
        r.ocr.vision_llm.endpoint@ == "http://localhost:11434/v1/chat/completions"@,
        r.ocr.vision_llm.model@ == "glm-ocr"@,
        r.ocr.vision_llm.api_key is None,
        r.ocr.vision_llm.timeout_secs == 120,
{
}

/// Reading images fast takes a uniform block, the newer engine, and images of at most
/// 2000 pixels.
pub proof fn law_fast_reading(r: OcrConfig)
    requires
        call_ensures(OcrConfig::fast, (), r),
    ensures
        r.enabled,
        r.fast_mode,
        r.engine == OcrEngine::Tesseract,
        r.language@ == "eng"@,
        r.psm == Some(6u8),
        r.oem == Some(1u8),
        r.max_image_dimension == Some(2000u32),
{
}

/// The index is neither used nor saved, and lies in the searched directory.
pub proof fn law_default_index(r: IndexConfig, directory: Seq<char>)
    requires
        call_ensures(IndexConfig::default, (), r),
    ensures
        !r.use_index,
        !r.save_index,
        r.index_path_of(directory) == crate::paths::joined_path(directory, ".argus_index.json"@),
{
}

} // verus!
