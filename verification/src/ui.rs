//! What the command line prints, line by line: text in a few muted tones.
//!
//! Only essential information is shown, with white space in place of dividers.

use crate::doubles::{describe_duration, share_parts};
use crate::folding::Searched;
use crate::places::descending;
use crate::paths::file_name;
use crate::text::{
    align_right, chars_of, copied, decimal, joined, joined3, lowercase, repeat_char, same_text,
    string_of, truncate,
};
use crate::types::{SearchResult, SearchStats, FULL_CONFIDENCE};
use vstd::prelude::*;

verus! {

pub const BAR_FILLED: char = '\u{2501}';

pub const BAR_EMPTY: char = '\u{2500}';

pub const BAR_WIDTH: usize = 10;

pub const PATH_MAX_WIDTH: usize = 68;

pub const PREVIEW_MAX_WIDTH: usize = 72;

// ---- Lines of text --------------------------------------------------------

/// The tones of the palette.
#[derive(Debug, Clone, Copy, PartialEq, Eq, Structural)]
pub enum Tone {
    /// Primary text: deep warm gray.
    Text,
    /// Secondary text: medium gray, for labels and metadata.
    Secondary,
    /// Tertiary text: light gray, for paths and de-emphasized elements.
    Tertiary,
    /// Muted green accent: highlights, positive signals.
    Accent,
    /// Muted terracotta: errors and alerts.
    Alert,
}

impl Tone {
    /// The red, green and blue of a tone.
    pub open spec fn rgb_of(self) -> (u8, u8, u8) {
        match self {
            Tone::Text => (42, 42, 40),
            Tone::Secondary => (122, 122, 120),
            Tone::Tertiary => (191, 191, 189),
            Tone::Accent => (139, 155, 126),
            Tone::Alert => (201, 122, 106),
        }
    }

    /// The red, green and blue of a tone.
    pub fn rgb(self) -> (r: (u8, u8, u8))
        ensures
            r == self.rgb_of(),
    {
        match self {
            Tone::Text => (42, 42, 40),
            Tone::Secondary => (122, 122, 120),
            Tone::Tertiary => (191, 191, 189),
            Tone::Accent => (139, 155, 126),
            Tone::Alert => (201, 122, 106),
        }
    }
}

/// A piece of a line in one tone; without one it is printed as it is.
#[derive(Debug, Clone)]
pub struct Segment {
    pub text: String,
    pub tone: Option<Tone>,
    pub bold: bool,
}

#[verifier::ext_equal]
pub struct SegmentView {
    pub text: Seq<char>,
    pub tone: Option<Tone>,
    pub bold: bool,
}

impl View for Segment {
    type V = SegmentView;

    open spec fn view(&self) -> SegmentView {
        SegmentView { text: self.text@, tone: self.tone, bold: self.bold }
    }
}

pub open spec fn plain(text: Seq<char>) -> SegmentView {
    SegmentView { text, tone: None, bold: false }
}

pub open spec fn toned(text: Seq<char>, tone: Tone) -> SegmentView {
    SegmentView { text, tone: Some(tone), bold: false }
}

pub open spec fn strong(text: Seq<char>, tone: Tone) -> SegmentView {
    SegmentView { text, tone: Some(tone), bold: true }
}

/// A line as a sequence of pieces.
pub open spec fn line_view(line: Seq<Segment>) -> Seq<SegmentView> {
    line.map_values(|s: Segment| s@)
}

/// Several lines.
pub open spec fn lines_view(lines: Seq<Vec<Segment>>) -> Seq<Seq<SegmentView>> {
    lines.map_values(|l: Vec<Segment>| line_view(l@))
}

fn put(line: &mut Vec<Segment>, text: &str)
    ensures
        line_view(final(line)@) == line_view(old(line)@).push(plain(text@)),
{
    line.push(Segment { text: copied(text), tone: None, bold: false });
    proof {
        assert(line_view(line@) =~= line_view(old(line)@).push(plain(text@)));
    }
}

fn put_toned(line: &mut Vec<Segment>, text: &str, tone: Tone)
    ensures
        line_view(final(line)@) == line_view(old(line)@).push(toned(text@, tone)),
{
    line.push(Segment { text: copied(text), tone: Some(tone), bold: false });
    proof {
        assert(line_view(line@) =~= line_view(old(line)@).push(toned(text@, tone)));
    }
}

fn put_strong(line: &mut Vec<Segment>, text: &str, tone: Tone)
    ensures
        line_view(final(line)@) == line_view(old(line)@).push(strong(text@, tone)),
{
    line.push(Segment { text: copied(text), tone: Some(tone), bold: true });
    proof {
        assert(line_view(line@) =~= line_view(old(line)@).push(strong(text@, tone)));
    }
}

fn empty_line() -> (r: Vec<Segment>)
    ensures
        line_view(r@) == Seq::<SegmentView>::empty(),
{
    let r: Vec<Segment> = Vec::new();
    proof {
        assert(line_view(r@) =~= Seq::<SegmentView>::empty());
    }
    r
}

fn put_line(lines: &mut Vec<Vec<Segment>>, line: Vec<Segment>)
    ensures
        lines_view(final(lines)@) == lines_view(old(lines)@).push(line_view(line@)),
{
    lines.push(line);
    proof {
        assert(lines_view(lines@) =~= lines_view(old(lines)@).push(line_view(line@)));
    }
}

fn no_lines() -> (r: Vec<Vec<Segment>>)
    ensures
        lines_view(r@) == Seq::<Seq<SegmentView>>::empty(),
{
    let r: Vec<Vec<Segment>> = Vec::new();
    proof {
        assert(lines_view(r@) =~= Seq::<Seq<SegmentView>>::empty());
    }
    r
}

/// Appends lines to others.
fn put_lines(lines: &mut Vec<Vec<Segment>>, more: Vec<Vec<Segment>>)
    ensures
        lines_view(final(lines)@) == lines_view(old(lines)@) + lines_view(more@),
{
    let ghost m = more@;
    let mut more = more;
    lines.append(&mut more);
    proof {
        assert(lines_view(lines@) =~= lines_view(old(lines)@) + lines_view(m));
    }
}

/// Appends pieces to a line.
fn put_all(line: &mut Vec<Segment>, more: Vec<Segment>)
    ensures
        line_view(final(line)@) == line_view(old(line)@) + line_view(more@),
{
    let ghost m = more@;
    let mut more = more;
    line.append(&mut more);
    proof {
        assert(line_view(line@) =~= line_view(old(line)@) + line_view(m));
    }
}

// ---- Pieces of text -------------------------------------------------------

/// Format a duration (ms) into a `Nms` / `N.NNs` label.
pub fn format_duration(ms: u64) -> (r: String)
    ensures
        r@ == crate::doubles::duration_text(ms as nat, 2),
{
    describe_duration(ms, 2)
}

/// A path of at most 68 characters, cut from the left so that the filename
/// remains visible.
pub open spec fn short_path(path: Seq<char>) -> Seq<char> {
    if path.len() > PATH_MAX_WIDTH {
        "..."@ + path.skip(path.len() - (PATH_MAX_WIDTH - 3))
    } else {
        path
    }
}

/// Truncate a long path from the left so the filename remains visible.
pub fn truncate_path(path: &str) -> (r: String)
    ensures
        r@ == short_path(path@),
{
    let v = chars_of(path);
    let n = v.len();
    if n > PATH_MAX_WIDTH {
        joined("...", string_of(&v, n - (PATH_MAX_WIDTH - 3), n).as_str())
    } else {
        copied(path)
    }
}

/// How much of the bar is filled for a confidence, given as the bit pattern of a
/// double. What is above 1.0 fills it, and what is no number leaves it empty.
pub open spec fn filled_of(confidence: u64) -> nat {
    if confidence <= FULL_CONFIDENCE {
        crate::doubles::parts_of(confidence, BAR_WIDTH as nat)
    } else if confidence <= 0x7ff0_0000_0000_0000 {
        BAR_WIDTH as nat
    } else {
        0
    }
}

/// A confidence as a bar of ten.
pub open spec fn confidence_bar(confidence: u64) -> Seq<SegmentView> {
    seq![
        toned(crate::text::repeated(BAR_FILLED, filled_of(confidence)), Tone::Accent),
        toned(
            crate::text::repeated(BAR_EMPTY, (BAR_WIDTH - filled_of(confidence)) as nat),
            Tone::Tertiary,
        ),
    ]
}

/// Create a two-tone confidence bar using thin rules instead of blocks.
pub fn create_confidence_bar(confidence: u64) -> (r: Vec<Segment>)
    ensures
        line_view(r@) == confidence_bar(confidence),
        filled_of(confidence) <= BAR_WIDTH,
{
    let filled: usize = if confidence <= FULL_CONFIDENCE {
        share_parts(confidence, BAR_WIDTH as u64) as usize
    } else if confidence <= 0x7ff0_0000_0000_0000 {
        BAR_WIDTH
    } else {
        0
    };
    let mut line = empty_line();
    put_toned(&mut line, repeat_char(BAR_FILLED, filled).as_str(), Tone::Accent);
    put_toned(&mut line, repeat_char(BAR_EMPTY, BAR_WIDTH - filled).as_str(), Tone::Tertiary);
    line
}

/// Where a pattern first stands in a text, whatever the case: where the match
/// begins, and where it ends.
pub open spec fn found_at(text: Seq<char>, pattern: Seq<char>) -> Option<(int, int)> {
    crate::folding::first_match(text, pattern, false)
}

/// Splits a text at the first place where a pattern stands in it, whatever the
/// case: what is before, the match, and what is after.
pub fn split_at_match(text: &str, pattern: &str) -> (r: Option<(String, String, String)>)
    ensures
        match (found_at(text@, pattern@), r) {
            (Some((from, to)), Some((before, matched, after))) => {
                &&& 0 <= from <= to <= text@.len()
                &&& before@ == text@.take(from)
                &&& matched@ == text@.subrange(from, to)
                &&& after@ == text@.skip(to)
            },
            (None, None) => true,
            _ => false,
        },
{
    let needle = chars_of(lowercase(pattern).as_str());
    proof {
        crate::folding::law_first_match_is_first(text@, pattern@, false);
    }
    match Searched::new(text, false).find_first(&needle) {
        None => None,
        Some((from, to)) => {
            let v = chars_of(text);
            let n = v.len();
            proof {
                assert(text@.take(from as int) =~= v@.subrange(0, from as int));
                assert(text@.skip(to as int) =~= v@.subrange(to as int, n as int));
            }
            Some((string_of(&v, 0, from), string_of(&v, from, to), string_of(&v, to, n)))
        },
    }
}

/// A text with the first match in it set off.
pub open spec fn highlighted(text: Seq<char>, pattern: Seq<char>) -> Seq<SegmentView> {
    match found_at(text, pattern) {
        Some((from, to)) => seq![
            toned(text.take(from), Tone::Tertiary),
            strong(text.subrange(from, to), Tone::Accent),
            toned(text.skip(to), Tone::Tertiary),
        ],
        None => seq![toned(text, Tone::Tertiary)],
    }
}

/// Highlight matched text in a preview string using the accent color.
pub fn highlight_match(text: &str, pattern: &str) -> (r: Vec<Segment>)
    ensures
        line_view(r@) == highlighted(text@, pattern@),
{
    let mut line = empty_line();
    match split_at_match(text, pattern) {
        Some((before, matched, after)) => {
            put_toned(&mut line, before.as_str(), Tone::Tertiary);
            put_strong(&mut line, matched.as_str(), Tone::Accent);
            put_toned(&mut line, after.as_str(), Tone::Tertiary);
        },
        None => {
            put_toned(&mut line, text, Tone::Tertiary);
        },
    }
    line
}

// ---- Errors, grouped by reason --------------------------------------------

/// How much of a reason is shown.
pub const REASON_MAX_WIDTH: usize = 180;

/// Skipped files with the same reason.
#[derive(Debug, Clone)]
pub struct ErrorGroup {
    /// The reason.
    pub reason: String,
    /// How many files were skipped for it.
    pub count: usize,
    /// The paths of the first of them, three at most.
    pub samples: Vec<String>,
}

/// The reason by which an error is grouped.
pub open spec fn reason_key(error: (String, String)) -> Seq<char> {
    crate::text::truncated(error.1@, REASON_MAX_WIDTH as nat)
}

/// The distinct reasons, in the order in which they are first seen.
pub open spec fn reasons_of(errors: Seq<(String, String)>) -> Seq<Seq<char>>
    decreases errors.len(),
{
    if errors.len() == 0 {
        Seq::empty()
    } else {
        let before = reasons_of(errors.drop_last());
        if before.contains(reason_key(errors.last())) {
            before
        } else {
            before.push(reason_key(errors.last()))
        }
    }
}

/// The errors for one reason.
pub open spec fn errors_for(errors: Seq<(String, String)>, reason: Seq<char>) -> Seq<
    (String, String),
> {
    errors.filter(|e: (String, String)| reason_key(e) == reason)
}

/// The first three of some items, or all where there are fewer.
pub open spec fn first_three<T>(items: Seq<T>) -> Seq<T> {
    if items.len() > 3 {
        items.take(3)
    } else {
        items
    }
}

/// The group has what belongs to its reason: the number of errors, and the
/// paths of the first three.
pub open spec fn is_group(
    errors: Seq<(String, String)>,
    reason: Seq<char>,
    group: ErrorGroup,
) -> bool {
    &&& group.reason@ == reason
    &&& group.count == errors_for(errors, reason).len()
    &&& crate::text::views(group.samples@) == first_three(errors_for(errors, reason)).map_values(
        |e: (String, String)| e.0@,
    )
}

/// The groups are those of the reasons, in the order in which they are first
/// seen.
pub open spec fn are_groups(errors: Seq<(String, String)>, groups: Seq<ErrorGroup>) -> bool {
    &&& groups.len() == reasons_of(errors).len()
    &&& forall|i: int|
        0 <= i < groups.len() ==> is_group(errors, reasons_of(errors)[i], #[trigger] groups[i])
}

/// One more error belongs to its own reason and to no other.
proof fn lemma_errors_for_push(
    errors: Seq<(String, String)>,
    error: (String, String),
    reason: Seq<char>,
)
    ensures
        errors_for(errors.push(error), reason) == (if reason_key(error) == reason {
            errors_for(errors, reason).push(error)
        } else {
            errors_for(errors, reason)
        }),
{
    reveal(Seq::filter);
    assert(errors.push(error).drop_last() =~= errors);
}

proof fn lemma_no_errors_for(errors: Seq<(String, String)>, reason: Seq<char>)
    ensures
        !reasons_of(errors).contains(reason) ==> errors_for(errors, reason).len() == 0,
        errors_for(errors, reason).len() <= errors.len(),
    decreases errors.len(),
{
    reveal(Seq::filter);
    if errors.len() > 0 {
        let init = errors.drop_last();
        let last = errors.last();
        lemma_no_errors_for(init, reason);
        assert(init.push(last) =~= errors);
        lemma_errors_for_push(init, last, reason);
        let before = reasons_of(init);
        if !reasons_of(errors).contains(reason) {
            if before.contains(reason) {
                let k = choose|k: int| 0 <= k < before.len() && before[k] == reason;
                assert(reasons_of(errors)[k] == reason);
            }
            if reason_key(last) == reason {
                if !before.contains(reason) {
                    assert(reasons_of(errors)[before.len() as int] == reason);
                }
            }
        }
    }
}

proof fn lemma_reasons_distinct(errors: Seq<(String, String)>)
    ensures
        forall|i: int, j: int|
            0 <= i < j < reasons_of(errors).len() ==> reasons_of(errors)[i] != reasons_of(
                errors,
            )[j],
    decreases errors.len(),
{
    if errors.len() > 0 {
        lemma_reasons_distinct(errors.drop_last());
        let before = reasons_of(errors.drop_last());
        let all = reasons_of(errors);
        assert forall|i: int, j: int| 0 <= i < j < all.len() implies all[i] != all[j] by {
            assert(all[i] == before[i]);
            if j == before.len() {
                assert(before.contains(before[i]));
            }
        }
    }
}

/// Groups errors by reason.
pub fn group_errors(errors: &Vec<(String, String)>) -> (groups: Vec<ErrorGroup>)
    ensures
        are_groups(errors@, groups@),
{
    let mut groups: Vec<ErrorGroup> = Vec::new();
    let mut k: usize = 0;
    proof {
        assert(errors@.take(0) =~= Seq::<(String, String)>::empty());
    }
    while k < errors.len()
        invariant
            k <= errors@.len(),
            are_groups(errors@.take(k as int), groups@),
        decreases errors@.len() - k,
    {
        let ghost done = errors@.take(k as int);
        let ghost error = errors@[k as int];
        let ghost next = errors@.take(k + 1);
        proof {
            assert(next =~= done.push(error));
            assert(next.drop_last() =~= done);
            lemma_reasons_distinct(done);
        }
        let reason = truncate(errors[k].1.as_str(), REASON_MAX_WIDTH);
        let ghost before = groups@;
        let ghost reasons = reasons_of(done);
        let mut at: usize = 0;
        while at < groups.len() && !same_text(groups[at].reason.as_str(), reason.as_str())
            invariant
                at <= groups@.len(),
                forall|i: int| 0 <= i < at ==> (#[trigger] groups@[i]).reason@ != reason@,
            decreases groups@.len() - at,
        {
            at += 1;
        }
        if at < groups.len() {
            proof {
                assert(is_group(done, reasons[at as int], before[at as int]));
                assert(reasons.contains(reason@));
                lemma_no_errors_for(done, reason@);
            }
            let group = &groups[at];
            let count = group.count + 1;
            let mut samples = copied_all(&group.samples);
            let ghost path_of = |e: (String, String)| e.0@;
            let ghost all = errors_for(done, reason@);
            let ghost shown = crate::text::views(samples@);
            proof {
                assert(shown == first_three(all).map_values(path_of));
                assert(shown.len() == samples@.len());
            }
            if samples.len() < 3 {
                samples.push(copied(errors[k].0.as_str()));
                proof {
                    assert(crate::text::views(samples@) =~= shown.push(error.0@));
                    assert(first_three(all.push(error)) =~= all.push(error));
                    assert(crate::text::views(samples@) =~= first_three(
                        all.push(error),
                    ).map_values(path_of));
                }
            } else {
                proof {
                    assert(first_three(all.push(error)) =~= first_three(all));
                }
            }
            groups.set(at, ErrorGroup { reason, count, samples });
            proof {
                assert forall|i: int| 0 <= i < groups@.len() implies is_group(
                    next,
                    reasons_of(next)[i],
                    #[trigger] groups@[i],
                ) by {
                    lemma_errors_for_push(done, error, reasons[i]);
                    assert(is_group(done, reasons[i], before[i]));
                    if i == at {
                        assert(reasons[i] == reason_key(error));
                    } else {
                        assert(reasons[i] != reasons[at as int]);
                        assert(groups@[i] == before[i]);
                    }
                }
            }
        } else {
            let mut samples: Vec<String> = Vec::new();
            samples.push(copied(errors[k].0.as_str()));
            groups.push(ErrorGroup { reason, count: 1, samples });
            proof {
                assert forall|i: int| 0 <= i < reasons.len() implies reasons[i]
                    != reason_key(error) by {
                    assert(is_group(done, reasons[i], before[i]));
                }
                assert(!reasons.contains(reason_key(error)));
                lemma_no_errors_for(done, reason_key(error));
                assert forall|i: int| 0 <= i < groups@.len() implies is_group(
                    next,
                    reasons_of(next)[i],
                    #[trigger] groups@[i],
                ) by {
                    if i < before.len() {
                        lemma_errors_for_push(done, error, reasons[i]);
                        assert(is_group(done, reasons[i], before[i]));
                        assert(groups@[i] == before[i]);
                    } else {
                        lemma_errors_for_push(done, error, reason_key(error));
                        let all = errors_for(done, reason_key(error));
                        assert(crate::text::views(groups@[i].samples@) =~= first_three(
                            all.push(error),
                        ).map_values(|e: (String, String)| e.0@));
                    }
                }
            }
        }
        k += 1;
    }
    proof {
        assert(errors@.take(errors@.len() as int) =~= errors@);
    }
    groups
}

/// Copies of some texts.
fn copied_all(texts: &Vec<String>) -> (r: Vec<String>)
    ensures
        crate::text::views(r@) == crate::text::views(texts@),
        r@.len() == texts@.len(),
{
    let mut out: Vec<String> = Vec::new();
    let mut i: usize = 0;
    while i < texts.len()
        invariant
            i <= texts@.len(),
            out@.len() == i,
            forall|k: int| 0 <= k < i ==> (#[trigger] out@[k])@ == texts@[k]@,
        decreases texts@.len() - i,
    {
        out.push(copied(texts[i].as_str()));
        i += 1;
    }
    proof {
        assert(crate::text::views(out@) =~= crate::text::views(texts@));
    }
    out
}

// ---- The printed lines ----------------------------------------------------

/// The name of a file as it is shown: its file name, or the whole path where it
/// has none.
pub open spec fn shown_name(path: Seq<char>) -> Seq<char> {
    match crate::paths::file_name_of(path) {
        Some(name) => name,
        None => path,
    }
}

/// The name of a file as it is shown.
pub fn display_filename(path: &str) -> (r: String)
    ensures
        r@ == shown_name(path@),
{
    match file_name(path) {
        Some(name) => name,
        None => copied(path),
    }
}

/// How many groups of errors are shown.
pub const SHOWN_GROUPS: usize = 5;

/// The lines for a sample of a group of errors.
pub open spec fn sample_line(path: Seq<char>) -> Seq<SegmentView> {
    seq![plain("           "@), toned(shown_name(path), Tone::Tertiary)]
}

/// The first line for a group of errors.
pub open spec fn group_head(group: ErrorGroup) -> Seq<SegmentView> {
    seq![
        plain("    "@),
        toned(crate::text::decimal_of(group.count as nat) + "\u{d7}"@, Tone::Alert),
        plain(" "@),
        toned("\u{b7}"@, Tone::Secondary),
        plain(" "@),
        toned(group.reason@, Tone::Text),
    ]
}

/// The lines for one group of errors.
pub open spec fn group_view(group: ErrorGroup) -> Seq<Seq<SegmentView>> {
    seq![group_head(group)] + group.samples@.map_values(|path: String| sample_line(path@))
}

/// The lines for the first `n` groups of errors in the given order.
pub open spec fn groups_view(groups: Seq<ErrorGroup>, order: Seq<usize>, n: nat) -> Seq<
    Seq<SegmentView>,
>
    decreases n,
{
    if n == 0 {
        Seq::empty()
    } else {
        groups_view(groups, order, (n - 1) as nat) + group_view(groups[order[n - 1] as int])
    }
}

/// The lines for the errors: nothing where there are none, else the five largest
/// groups, and how many are left.
pub open spec fn errors_view(groups: Seq<ErrorGroup>, order: Seq<usize>) -> Seq<Seq<SegmentView>> {
    if groups.len() == 0 {
        Seq::empty()
    } else {
        let shown = if groups.len() < SHOWN_GROUPS {
            groups.len()
        } else {
            SHOWN_GROUPS as nat
        };
        seq![
            Seq::<SegmentView>::empty(),
            seq![plain("  "@), toned("skipped files \u{2014} grouped by reason:"@, Tone::Alert)],
        ] + groups_view(groups, order, shown) + (if groups.len() > shown {
            seq![
                seq![
                    plain("    "@),
                    toned(
                        "+ "@ + crate::text::decimal_of((groups.len() - shown) as nat)
                            + " more distinct error(s)"@,
                        Tone::Secondary,
                    ),
                ],
            ]
        } else {
            Seq::empty()
        })
    }
}

/// The counts of some groups.
pub open spec fn group_counts(groups: Seq<ErrorGroup>) -> Seq<usize> {
    groups.map_values(|g: ErrorGroup| g.count)
}

fn display_group(group: &ErrorGroup) -> (r: Vec<Vec<Segment>>)
    ensures
        lines_view(r@) == group_view(*group),
{
    let mut lines = no_lines();
    let mut line = empty_line();
    put(&mut line, "    ");
    put_toned(
        &mut line,
        joined(decimal(group.count as u64).as_str(), "\u{d7}").as_str(),
        Tone::Alert,
    );
    put(&mut line, " ");
    put_toned(&mut line, "\u{b7}", Tone::Secondary);
    put(&mut line, " ");
    put_toned(&mut line, group.reason.as_str(), Tone::Text);
    proof {
        assert(line_view(line@) =~= group_head(*group));
    }
    put_line(&mut lines, line);
    let ghost head = lines_view(lines@);
    let ghost samples = group.samples@.map_values(|path: String| sample_line(path@));
    proof {
        assert(head + samples.take(0) =~= head);
    }
    let mut i: usize = 0;
    while i < group.samples.len()
        invariant
            i <= group.samples@.len(),
            samples == group.samples@.map_values(|path: String| sample_line(path@)),
            lines_view(lines@) == head + samples.take(i as int),
        decreases group.samples@.len() - i,
    {
        let mut line = empty_line();
        put(&mut line, "           ");
        put_toned(&mut line, display_filename(group.samples[i].as_str()).as_str(), Tone::Tertiary);
        proof {
            assert(line_view(line@) =~= sample_line(group.samples@[i as int]@));
        }
        put_line(&mut lines, line);
        proof {
            assert(head + samples.take(i + 1) =~= (head + samples.take(i as int)).push(
                sample_line(group.samples@[i as int]@),
            ));
        }
        i += 1;
    }
    proof {
        assert(samples.take(samples.len() as int) =~= samples);
    }
    lines
}

/// The groups and their order belong to the errors.
pub open spec fn errors_arranged(
    errors: Seq<(String, String)>,
    groups: Seq<ErrorGroup>,
    order: Seq<usize>,
) -> bool {
    are_groups(errors, groups) && crate::places::is_descending(group_counts(groups), order)
}

/// Lists extraction errors grouped by reason, the five largest groups with a few
/// sample filenames each. Nothing when there are no errors.
pub fn display_errors(errors: &Vec<(String, String)>) -> (r: Vec<Vec<Segment>>)
    ensures
        exists|groups: Seq<ErrorGroup>, order: Seq<usize>| #[trigger]
            errors_arranged(errors@, groups, order) && lines_view(r@) == errors_view(
                groups,
                order,
            ),
{
    let groups = group_errors(errors);
    let mut counts: Vec<usize> = Vec::new();
    let mut k: usize = 0;
    while k < groups.len()
        invariant
            k <= groups@.len(),
            counts@ == group_counts(groups@).take(k as int),
        decreases groups@.len() - k,
    {
        counts.push(groups[k].count);
        proof {
            assert(counts@ =~= group_counts(groups@).take(k + 1));
        }
        k += 1;
    }
    let order = descending(&counts);
    proof {
        assert(counts@ =~= group_counts(groups@));
        assert(errors_arranged(errors@, groups@, order@));
    }
    let mut lines = no_lines();
    if groups.len() == 0 {
        return lines;
    }
    put_line(&mut lines, empty_line());
    let mut line = empty_line();
    put(&mut line, "  ");
    put_toned(&mut line, "skipped files \u{2014} grouped by reason:", Tone::Alert);
    put_line(&mut lines, line);
    let shown = if groups.len() < SHOWN_GROUPS {
        groups.len()
    } else {
        SHOWN_GROUPS
    };
    let ghost head = lines_view(lines@);
    proof {
        assert(head + groups_view(groups@, order@, 0) =~= head);
    }
    let mut i: usize = 0;
    while i < shown
        invariant
            i <= shown <= groups@.len(),
            order@.len() == groups@.len(),
            forall|j: int| 0 <= j < order@.len() ==> (#[trigger] order@[j]) < groups@.len(),
            lines_view(lines@) == head + groups_view(groups@, order@, i as nat),
        decreases shown - i,
    {
        put_lines(&mut lines, display_group(&groups[order[i]]));
        proof {
            assert(head + groups_view(groups@, order@, (i + 1) as nat) =~= head + groups_view(
                groups@,
                order@,
                i as nat,
            ) + group_view(groups@[order@[i as int] as int]));
        }
        i += 1;
    }
    let ghost body = lines_view(lines@);
    if groups.len() > shown {
        let mut line = empty_line();
        put(&mut line, "    ");
        let left = decimal((groups.len() - shown) as u64);
        put_toned(
            &mut line,
            joined3("+ ", left.as_str(), " more distinct error(s)").as_str(),
            Tone::Secondary,
        );
        let ghost l = line_view(line@);
        put_line(&mut lines, line);
        proof {
            assert(lines_view(lines@) =~= body + seq![l]);
        }
    } else {
        proof {
            assert(body + Seq::<Seq<SegmentView>>::empty() =~= body);
        }
    }
    proof {
        assert(lines_view(lines@) =~~= errors_view(groups@, order@));
    }
    lines
}

/// One entry of the breakdown by file type.
pub open spec fn type_entry(count: (crate::types::FileType, usize)) -> Seq<SegmentView> {
    seq![
        toned(crate::text::decimal_of(count.1 as nat), Tone::Text),
        plain(" "@),
        toned(crate::text::lower_of(count.0.name_of()), Tone::Secondary),
    ]
}

/// The first `n` entries of the breakdown in the given order.
pub open spec fn types_view(
    counts: Seq<(crate::types::FileType, usize)>,
    order: Seq<usize>,
    n: nat,
) -> Seq<SegmentView>
    decreases n,
{
    if n == 0 {
        Seq::empty()
    } else {
        types_view(counts, order, (n - 1) as nat) + (if n > 1 {
            seq![plain("   "@)]
        } else {
            Seq::empty()
        }) + type_entry(counts[order[n - 1] as int])
    }
}

/// The numbers of a breakdown.
pub open spec fn type_numbers(counts: Seq<(crate::types::FileType, usize)>) -> Seq<usize> {
    counts.map_values(|c: (crate::types::FileType, usize)| c.1)
}

/// The line of statistics.
pub open spec fn stats_line(stats: SearchStats) -> Seq<SegmentView> {
    seq![
        plain("  "@),
        toned("stats"@, Tone::Secondary),
        plain("   scanned "@),
        toned(crate::text::decimal_of(stats.files_scanned as nat), Tone::Text),
        plain("   matched "@),
        toned(crate::text::decimal_of(stats.files_matched as nat), Tone::Text),
    ] + (if stats.files_skipped > 0 {
        seq![
            plain("   skipped "@),
            toned(crate::text::decimal_of(stats.files_skipped as nat), Tone::Alert),
        ]
    } else {
        Seq::empty()
    }) + seq![
        plain("   "@),
        toned(crate::doubles::duration_text(stats.duration_ms as nat, 2), Tone::Secondary),
    ]
}

/// The lines of statistics, given the order of the breakdown by file type, the
/// groups of errors and their order.
pub open spec fn stats_view(
    stats: SearchStats,
    types: Seq<usize>,
    groups: Seq<ErrorGroup>,
    order: Seq<usize>,
) -> Seq<Seq<SegmentView>> {
    seq![stats_line(stats)] + (if stats.by_type.counts@.len() > 0 {
        seq![
            seq![plain("          "@)] + types_view(
                stats.by_type.counts@,
                types,
                stats.by_type.counts@.len(),
            ),
        ]
    } else {
        Seq::empty()
    }) + errors_view(groups, order)
}

/// The orders and the groups belong to the statistics.
pub open spec fn stats_arranged(
    stats: SearchStats,
    types: Seq<usize>,
    groups: Seq<ErrorGroup>,
    order: Seq<usize>,
) -> bool {
    &&& crate::places::is_descending(type_numbers(stats.by_type.counts@), types)
    &&& errors_arranged(stats.errors@, groups, order)
}

/// `lines` show the statistics: the breakdown by file type and the groups of
/// errors from the largest to the smallest.
pub open spec fn shows_stats(stats: SearchStats, lines: Seq<Seq<SegmentView>>) -> bool {
    exists|types: Seq<usize>, groups: Seq<ErrorGroup>, order: Seq<usize>| #[trigger]
        stats_arranged(stats, types, groups, order) && lines == stats_view(
            stats,
            types,
            groups,
            order,
        )
}

/// The places of a breakdown in descending order.
pub fn type_order(stats: &SearchStats) -> (r: Vec<usize>)
    ensures
        crate::places::is_descending(type_numbers(stats.by_type.counts@), r@),
{
    let mut numbers: Vec<usize> = Vec::new();
    let mut k: usize = 0;
    while k < stats.by_type.counts.len()
        invariant
            k <= stats.by_type.counts@.len(),
            numbers@ == type_numbers(stats.by_type.counts@).take(k as int),
        decreases stats.by_type.counts@.len() - k,
    {
        numbers.push(stats.by_type.counts[k].1);
        proof {
            assert(numbers@ =~= type_numbers(stats.by_type.counts@).take(k + 1));
        }
        k += 1;
    }
    proof {
        assert(numbers@ =~= type_numbers(stats.by_type.counts@));
    }
    descending(&numbers)
}

/// The stats summary.
pub fn display_stats(stats: &SearchStats) -> (r: Vec<Vec<Segment>>)
    ensures
        shows_stats(*stats, lines_view(r@)),
{
    let mut lines = no_lines();
    let mut line = empty_line();
    put(&mut line, "  ");
    put_toned(&mut line, "stats", Tone::Secondary);
    put(&mut line, "   scanned ");
    put_toned(&mut line, decimal(stats.files_scanned as u64).as_str(), Tone::Text);
    put(&mut line, "   matched ");
    put_toned(&mut line, decimal(stats.files_matched as u64).as_str(), Tone::Text);
    if stats.files_skipped > 0 {
        put(&mut line, "   skipped ");
        put_toned(&mut line, decimal(stats.files_skipped as u64).as_str(), Tone::Alert);
    }
    put(&mut line, "   ");
    put_toned(&mut line, format_duration(stats.duration_ms).as_str(), Tone::Secondary);
    proof {
        assert(line_view(line@) =~= stats_line(*stats));
    }
    put_line(&mut lines, line);
    let types = type_order(stats);
    if stats.by_type.counts.len() > 0 {
        let mut line = empty_line();
        put(&mut line, "          ");
        let ghost head = line_view(line@);
        let ghost counts = stats.by_type.counts@;
        proof {
            assert(head + types_view(counts, types@, 0) =~= head);
        }
        let mut i: usize = 0;
        while i < types.len()
            invariant
                i <= types@.len(),
                counts == stats.by_type.counts@,
                types@.len() == counts.len(),
                forall|j: int| 0 <= j < types@.len() ==> (#[trigger] types@[j]) < counts.len(),
                line_view(line@) == head + types_view(counts, types@, i as nat),
            decreases types@.len() - i,
        {
            let ghost before = line_view(line@);
            if i > 0 {
                put(&mut line, "   ");
            }
            let count = stats.by_type.counts[types[i]];
            put_toned(&mut line, decimal(count.1 as u64).as_str(), Tone::Text);
            put(&mut line, " ");
            put_toned(&mut line, lowercase(count.0.name()).as_str(), Tone::Secondary);
            proof {
                assert(line_view(line@) =~= head + types_view(counts, types@, (i + 1) as nat));
            }
            i += 1;
        }
        proof {
            assert(head =~= seq![plain("          "@)]);
        }
        put_line(&mut lines, line);
    }
    let ghost top = lines_view(lines@);
    let errors = display_errors(&stats.errors);
    let ghost (groups, order) = choose|groups: Seq<ErrorGroup>, order: Seq<usize>| #[trigger]
        errors_arranged(stats.errors@, groups, order) && lines_view(errors@) == errors_view(
            groups,
            order,
        );
    put_lines(&mut lines, errors);
    proof {
        assert(stats_arranged(*stats, types@, groups, order));
        assert(lines_view(lines@) =~= stats_view(*stats, types@, groups, order));
    }
    lines
}

/// The lines for one result.
pub open spec fn result_view(rank: nat, result: SearchResult, show_preview: bool) -> Seq<
    Seq<SegmentView>,
> {
    seq![
        seq![
            plain("  "@),
            toned(crate::text::right_aligned(crate::text::decimal_of(rank), 2), Tone::Secondary),
            plain("   "@),
            if rank <= 3 {
                strong(result.filename_of(), Tone::Text)
            } else {
                toned(result.filename_of(), Tone::Text)
            },
        ],
        seq![
            plain("       "@),
            toned(
                crate::text::decimal_of(result.matches@.len()) + " matches"@,
                Tone::Secondary,
            ),
            plain("   "@),
        ] + confidence_bar(result.confidence) + seq![
            plain("   "@),
            toned(
                crate::text::right_aligned(
                    crate::text::decimal_of(crate::doubles::parts_of(result.confidence, 100)),
                    3,
                ) + "%"@,
                Tone::Secondary,
            ),
        ],
        seq![plain("       "@), toned(short_path(result.path@), Tone::Tertiary)],
    ] + (if show_preview && result.matches@.len() > 0 {
        seq![
            seq![plain("       "@)] + highlighted(
                crate::types::preview_of(
                    crate::text::trimmed(result.matches@[0].context@),
                    PREVIEW_MAX_WIDTH as nat,
                ),
                result.matches@[0].matched_text@,
            ),
        ]
    } else {
        Seq::empty()
    }) + seq![Seq::<SegmentView>::empty()]
}

/// A result can be shown: its confidence is one, and a preview of it, where one
/// is shown, does not cut a character in two.
pub open spec fn displayable(result: SearchResult, show_preview: bool) -> bool {
    &&& result.wf()
    &&& show_preview ==> result.previewable(PREVIEW_MAX_WIDTH as nat)
}

/// Display a single result.
pub fn display_result(rank: usize, result: &SearchResult, show_preview: bool) -> (r: Vec<
    Vec<Segment>,
>)
    requires
        displayable(*result, show_preview),
    ensures
        lines_view(r@) == result_view(rank as nat, *result, show_preview),
{
    let filename = result.filename();
    let mut lines = no_lines();
    let mut line = empty_line();
    put(&mut line, "  ");
    put_toned(
        &mut line,
        align_right(decimal(rank as u64).as_str(), 2).as_str(),
        Tone::Secondary,
    );
    put(&mut line, "   ");
    if rank <= 3 {
        put_strong(&mut line, filename.as_str(), Tone::Text);
    } else {
        put_toned(&mut line, filename.as_str(), Tone::Text);
    }
    put_line(&mut lines, line);
    let mut line = empty_line();
    put(&mut line, "       ");
    put_toned(
        &mut line,
        joined(decimal(result.match_count() as u64).as_str(), " matches").as_str(),
        Tone::Secondary,
    );
    put(&mut line, "   ");
    put_all(&mut line, create_confidence_bar(result.confidence));
    put(&mut line, "   ");
    let percent = share_parts(result.confidence, 100);
    put_toned(
        &mut line,
        joined(align_right(decimal(percent).as_str(), 3).as_str(), "%").as_str(),
        Tone::Secondary,
    );
    put_line(&mut lines, line);
    let mut line = empty_line();
    put(&mut line, "       ");
    put_toned(&mut line, truncate_path(result.path.as_str()).as_str(), Tone::Tertiary);
    put_line(&mut lines, line);
    if show_preview {
        match result.preview(PREVIEW_MAX_WIDTH) {
            Some(preview) => {
                let mut line = empty_line();
                put(&mut line, "       ");
                put_all(
                    &mut line,
                    highlight_match(preview.as_str(), result.matches[0].matched_text.as_str()),
                );
                put_line(&mut lines, line);
            },
            None => {},
        }
    }
    put_line(&mut lines, empty_line());
    proof {
        assert(lines_view(lines@) =~~= result_view(rank as nat, *result, show_preview));
    }
    lines
}

/// The lines for the first `n` results.
pub open spec fn ranks_view(results: Seq<SearchResult>, show_preview: bool, n: nat) -> Seq<
    Seq<SegmentView>,
>
    decreases n,
{
    if n == 0 {
        Seq::empty()
    } else {
        ranks_view(results, show_preview, (n - 1) as nat) + result_view(
            n,
            results[n - 1],
            show_preview,
        )
    }
}

/// The lines below the statistics.
pub open spec fn list_view(results: Seq<SearchResult>, show_preview: bool) -> Seq<
    Seq<SegmentView>,
> {
    if results.len() == 0 {
        seq![
            seq![plain("  "@), toned("no matches"@, Tone::Secondary)],
            Seq::<SegmentView>::empty(),
        ]
    } else {
        seq![
            seq![
                plain("  "@),
                toned(crate::text::decimal_of(results.len()) + " files"@, Tone::Secondary),
            ],
            Seq::<SegmentView>::empty(),
        ] + ranks_view(results, show_preview, results.len())
    }
}

/// Display the full result set with stats header: an empty line, the statistics,
/// an empty line, and the results in their order.
pub fn display_results(results: &Vec<SearchResult>, stats: &SearchStats, show_preview: bool) -> (r:
    Vec<Vec<Segment>>)
    requires
        forall|i: int|
            0 <= i < results@.len() ==> displayable(#[trigger] results@[i], show_preview),
    ensures
        exists|middle: Seq<Seq<SegmentView>>| #[trigger]
            shows_stats(*stats, middle) && lines_view(r@) == seq![Seq::<SegmentView>::empty()]
                + middle + seq![Seq::<SegmentView>::empty()] + list_view(results@, show_preview),
{
    let mut lines = no_lines();
    put_line(&mut lines, empty_line());
    let top = display_stats(stats);
    let ghost middle = lines_view(top@);
    put_lines(&mut lines, top);
    put_line(&mut lines, empty_line());
    let ghost above = lines_view(lines@);
    proof {
        assert(above =~~= seq![Seq::<SegmentView>::empty()] + middle + seq![
            Seq::<SegmentView>::empty(),
        ]);
    }
    let mut line = empty_line();
    put(&mut line, "  ");
    if results.len() == 0 {
        put_toned(&mut line, "no matches", Tone::Secondary);
    } else {
        put_toned(
            &mut line,
            joined(decimal(results.len() as u64).as_str(), " files").as_str(),
            Tone::Secondary,
        );
    }
    put_line(&mut lines, line);
    put_line(&mut lines, empty_line());
    let ghost head = lines_view(lines@);
    proof {
        assert(head + ranks_view(results@, show_preview, 0) =~= head);
        if results@.len() == 0 {
            assert(head =~~= above + list_view(results@, show_preview));
        }
    }
    let mut i: usize = 0;
    while i < results.len()
        invariant
            i <= results@.len(),
            forall|j: int|
                0 <= j < results@.len() ==> displayable(#[trigger] results@[j], show_preview),
            lines_view(lines@) == head + ranks_view(results@, show_preview, i as nat),
        decreases results@.len() - i,
    {
        put_lines(&mut lines, display_result(i + 1, &results[i], show_preview));
        proof {
            assert(head + ranks_view(results@, show_preview, (i + 1) as nat) =~= head + ranks_view(
                results@,
                show_preview,
                i as nat,
            ) + result_view((i + 1) as nat, results@[i as int], show_preview));
        }
        i += 1;
    }
    proof {
        if results@.len() > 0 {
            assert(lines_view(lines@) =~~= above + list_view(results@, show_preview));
        }
        assert(shows_stats(*stats, middle));
    }
    lines
}

// ---- Choosing a result ----------------------------------------------------

/// The text by which a result is offered.
pub open spec fn item_of(rank: nat, result: SearchResult) -> Seq<char> {
    crate::text::right_aligned(crate::text::decimal_of(rank), 2) + "  "@ + result.filename_of()
        + "  ("@ + crate::text::decimal_of(result.matches@.len()) + " matches)"@
}

/// The texts by which the results are offered, and `exit` at the end.
pub fn select_items(results: &Vec<SearchResult>) -> (r: Vec<String>)
    ensures
        r@.len() == results@.len() + 1,
        forall|i: int|
            0 <= i < results@.len() ==> (#[trigger] r@[i])@ == item_of(
                (i + 1) as nat,
                results@[i],
            ),
        r@[results@.len() as int]@ == "exit"@,
{
    let mut items: Vec<String> = Vec::new();
    let mut i: usize = 0;
    while i < results.len()
        invariant
            i <= results@.len(),
            items@.len() == i,
            forall|k: int|
                0 <= k < i ==> (#[trigger] items@[k])@ == item_of((k + 1) as nat, results@[k]),
        decreases results@.len() - i,
    {
        let mut item = align_right(decimal((i + 1) as u64).as_str(), 2);
        item.append("  ");
        item.append(results[i].filename().as_str());
        item.append("  (");
        item.append(decimal(results[i].match_count() as u64).as_str());
        item.append(" matches)");
        items.push(item);
        i += 1;
    }
    items.push(copied("exit"));
    items
}

/// The line above the results that are offered.
pub fn select_prompt() -> (r: Vec<Segment>)
    ensures
        line_view(r@) == seq![
            plain("  "@),
            toned(
                "select \u{b7} \u{2191}\u{2193} to navigate \u{b7} enter to open \u{b7} esc to exit"@,
                Tone::Secondary,
            ),
        ],
{
    let mut line = empty_line();
    put(&mut line, "  ");
    put_toned(
        &mut line,
        "select \u{b7} \u{2191}\u{2193} to navigate \u{b7} enter to open \u{b7} esc to exit",
        Tone::Secondary,
    );
    line
}

/// The result that was chosen: none where the choice was given up, or fell on
/// what is not a result.
pub fn interactive_select(results: &Vec<SearchResult>, choice: Option<usize>) -> (r: Option<
    &SearchResult,
>)
    ensures
        match choice {
            Some(at) if at < results@.len() => r == Some(&results@[at as int]),
            _ => r is None,
        },
{
    match choice {
        Some(at) => {
            if at < results.len() {
                Some(&results[at])
            } else {
                None
            }
        },
        None => None,
    }
}

// ---- Short messages -------------------------------------------------------

/// The line that says which file is being opened.
pub fn opening_line(result: &SearchResult) -> (r: Vec<Segment>)
    ensures
        line_view(r@) == seq![
            plain("  "@),
            toned("opening"@, Tone::Secondary),
            plain(" "@),
            toned(result.filename_of(), Tone::Text),
        ],
{
    let mut line = empty_line();
    put(&mut line, "  ");
    put_toned(&mut line, "opening", Tone::Secondary);
    put(&mut line, " ");
    put_toned(&mut line, result.filename().as_str(), Tone::Text);
    line
}

/// An error message in the alert color, with an empty line above and below.
pub fn display_error(message: &str) -> (r: Vec<Vec<Segment>>)
    ensures
        lines_view(r@) == seq![
            Seq::<SegmentView>::empty(),
            seq![
                plain("  "@),
                toned("error"@, Tone::Alert),
                plain("  "@),
                toned(message@, Tone::Text),
            ],
            Seq::<SegmentView>::empty(),
        ],
{
    let mut lines = no_lines();
    put_line(&mut lines, empty_line());
    let mut line = empty_line();
    put(&mut line, "  ");
    put_toned(&mut line, "error", Tone::Alert);
    put(&mut line, "  ");
    put_toned(&mut line, message, Tone::Text);
    put_line(&mut lines, line);
    put_line(&mut lines, empty_line());
    proof {
        assert(lines_view(lines@) =~~= seq![
            Seq::<SegmentView>::empty(),
            seq![
                plain("  "@),
                toned("error"@, Tone::Alert),
                plain("  "@),
                toned(message@, Tone::Text),
            ],
            Seq::<SegmentView>::empty(),
        ]);
    }
    lines
}

/// A quiet label with an empty line above and below.
pub open spec fn label_view(label: Seq<char>) -> Seq<Seq<SegmentView>> {
    seq![
        Seq::<SegmentView>::empty(),
        seq![plain("  "@), toned(label, Tone::Secondary)],
        Seq::<SegmentView>::empty(),
    ]
}

fn display_label(label: &str) -> (r: Vec<Vec<Segment>>)
    ensures
        lines_view(r@) == label_view(label@),
{
    let mut lines = no_lines();
    put_line(&mut lines, empty_line());
    let mut line = empty_line();
    put(&mut line, "  ");
    put_toned(&mut line, label, Tone::Secondary);
    put_line(&mut lines, line);
    put_line(&mut lines, empty_line());
    proof {
        assert(lines_view(lines@) =~~= label_view(label@));
    }
    lines
}

/// The minimal welcome label.
pub fn display_banner() -> (r: Vec<Vec<Segment>>)
    ensures
        lines_view(r@) == label_view("argus"@),
{
    display_label("argus")
}

/// A quiet farewell line at the end of an interactive session.
pub fn display_farewell() -> (r: Vec<Vec<Segment>>)
    ensures
        lines_view(r@) == label_view("bye"@),
{
    display_label("bye")
}

// ---- Laws -----------------------------------------------------------------

/// A path that is shown has at most 68 characters, and ends as the path does.
pub proof fn law_short_path(path: Seq<char>)
    ensures
        short_path(path).len() <= PATH_MAX_WIDTH,
        path.len() <= PATH_MAX_WIDTH ==> short_path(path) == path,
        path.len() > PATH_MAX_WIDTH ==> short_path(path).skip(3) == path.skip(path.len() - 65),
{
    reveal_strlit("...");
    if path.len() > PATH_MAX_WIDTH {
        assert(short_path(path).skip(3) =~= path.skip(path.len() - 65));
    }
}

/// The parts of a highlighted text make up the text.
pub proof fn law_highlight_keeps_the_text(text: Seq<char>, pattern: Seq<char>)
    ensures
        match found_at(text, pattern) {
            Some((from, to)) => 0 <= from <= to <= text.len() && text.take(from) + text.subrange(
                from,
                to,
            ) + text.skip(to) == text,
            None => highlighted(text, pattern) == seq![toned(text, Tone::Tertiary)],
        },
{
    crate::folding::law_first_match_is_first(text, pattern, false);
    match found_at(text, pattern) {
        Some((from, to)) => {
            assert(text.take(from) + text.subrange(from, to) + text.skip(to) =~= text);
        },
        None => {},
    }
}

/// Each error belongs to one group: the counts of the groups add up to the
/// number of errors.
pub proof fn law_groups_cover_the_errors(errors: Seq<(String, String)>)
    ensures
        counted(errors, reasons_of(errors)) == errors.len(),
    decreases errors.len(),
{
    if errors.len() > 0 {
        let init = errors.drop_last();
        let last = errors.last();
        let key = reason_key(last);
        law_groups_cover_the_errors(init);
        assert(init.push(last) =~= errors);
        let before = reasons_of(init);
        lemma_reasons_distinct(init);
        lemma_counted_push(init, last, before);
        if !before.contains(key) {
            lemma_no_errors_for(init, key);
            lemma_errors_for_push(init, last, key);
            assert(before.push(key).drop_last() =~= before);
        }
    }
}

/// The number of errors for some reasons.
pub open spec fn counted(errors: Seq<(String, String)>, reasons: Seq<Seq<char>>) -> nat
    decreases reasons.len(),
{
    if reasons.len() == 0 {
        0
    } else {
        counted(errors, reasons.drop_last()) + errors_for(errors, reasons.last()).len()
    }
}

proof fn lemma_counted_push(
    errors: Seq<(String, String)>,
    error: (String, String),
    reasons: Seq<Seq<char>>,
)
    requires
        forall|i: int, j: int| 0 <= i < j < reasons.len() ==> reasons[i] != reasons[j],
    ensures
        counted(errors.push(error), reasons) == counted(errors, reasons) + (if reasons.contains(
            reason_key(error),
        ) {
            1nat
        } else {
            0nat
        }),
    decreases reasons.len(),
{
    if reasons.len() > 0 {
        let init = reasons.drop_last();
        lemma_counted_push(errors, error, init);
        lemma_errors_for_push(errors, error, reasons.last());
        let key = reason_key(error);
        assert(reasons[reasons.len() - 1] == reasons.last());
        if init.contains(key) {
            let k = choose|k: int| 0 <= k < init.len() && init[k] == key;
            assert(reasons[k] == key);
        } else if reasons.contains(key) {
            let k = choose|k: int| 0 <= k < reasons.len() && reasons[k] == key;
            if k < init.len() {
                assert(init[k] == key);
            }
        }
    }
}

} // verus!
