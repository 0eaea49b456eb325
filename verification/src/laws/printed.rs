//! What is printed.

use crate::types::{SearchResult, SearchStats};
use crate::ui::{ErrorGroup, SegmentView, Tone};
use vstd::prelude::*;
use vstd::std_specs::cmp::PartialEqSpec;

verus! {

// ---- Errors ---------------------------------------------------------------

proof fn lemma_reasons(errors: Seq<(String, String)>)
    ensures
        ({
            let reasons = crate::ui::reasons_of(errors);
            &&& forall|k: int|
                0 <= k < errors.len() ==> reasons.contains(
                    crate::ui::reason_key(#[trigger] errors[k]),
                )
            &&& forall|i: int, j: int| 0 <= i < j < reasons.len() ==> reasons[i] != reasons[j]
            &&& forall|i: int|
                0 <= i < reasons.len() ==> #[trigger] has_first(errors, reasons, i)
        }),
    decreases errors.len(),
{
    let reasons = crate::ui::reasons_of(errors);
    if errors.len() > 0 {
        let init = errors.drop_last();
        let last = errors.len() - 1;
        let before = crate::ui::reasons_of(init);
        let key = crate::ui::reason_key(errors[last]);
        lemma_reasons(init);
        assert forall|k: int| 0 <= k < errors.len() implies reasons.contains(
            crate::ui::reason_key(#[trigger] errors[k]),
        ) by {
            if k < last {
                assert(before.contains(crate::ui::reason_key(init[k])));
                let i = choose|i: int|
                    0 <= i < before.len() && before[i] == crate::ui::reason_key(init[k]);
                assert(reasons[i] == crate::ui::reason_key(errors[k]));
            } else if !before.contains(key) {
                assert(reasons[before.len() as int] == key);
            }
        }
        assert forall|i: int, j: int| 0 <= i < j < reasons.len() implies reasons[i]
            != reasons[j] by {
            if j == before.len() {
                assert(before.contains(before[i]));
            }
        }
        assert forall|i: int| 0 <= i < reasons.len() implies #[trigger] has_first(
            errors,
            reasons,
            i,
        ) by {
            if i < before.len() {
                assert(has_first(init, before, i));
                let k = choose|k: int|
                    0 <= k < init.len() && #[trigger] is_first(init, k, before, i);
                assert(errors[k] == init[k]);
                assert forall|l: int, j: int| 0 <= l <= k && i < j < reasons.len() implies
                    crate::ui::reason_key(#[trigger] errors[l]) != #[trigger] reasons[j] by {
                    assert(errors[l] == init[l]);
                    if j == before.len() {
                        assert(before.contains(crate::ui::reason_key(init[l])));
                    } else {
                        assert(crate::ui::reason_key(init[l]) != before[j]);
                    }
                }
                assert(is_first(errors, k, reasons, i));
            } else {
                assert(is_first(errors, last, reasons, i));
            }
        }
    }
}

/// Error `k` is for reason `i`, and up to it none is for a reason behind that one.
pub open spec fn is_first(
    errors: Seq<(String, String)>,
    k: int,
    reasons: Seq<Seq<char>>,
    i: int,
) -> bool {
    &&& crate::ui::reason_key(errors[k]) == reasons[i]
    &&& forall|l: int, j: int|
        0 <= l <= k && i < j < reasons.len() ==> crate::ui::reason_key(#[trigger] errors[l])
            != #[trigger] reasons[j]
}

/// Some error is the first one for reason `i`.
pub open spec fn has_first(errors: Seq<(String, String)>, reasons: Seq<Seq<char>>, i: int) -> bool {
    exists|k: int| 0 <= k < errors.len() && #[trigger] is_first(errors, k, reasons, i)
}

/// Errors are grouped by the first 180 characters of what they say. Every error is in
/// the group of its reason, which counts all its errors and holds the paths of the
/// first three; no two groups have the same reason.
pub proof fn law_error_groups(errors: Seq<(String, String)>, groups: Seq<ErrorGroup>, i: int)
    requires
        crate::ui::are_groups(errors, groups),
        0 <= i < groups.len(),
    ensures
        ({
            let mine = errors.filter(
                |e: (String, String)| crate::text::truncated(e.1@, 180) == groups[i].reason@,
            );
            let n: int = if mine.len() < 3 {
                mine.len() as int
            } else {
                3
            };
            &&& groups[i].count == mine.len()
            &&& mine.len() > 0
            &&& groups[i].samples@.len() == n
            &&& forall|k: int|
                0 <= k < n ==> (#[trigger] groups[i].samples@[k])@ == mine[k].0@
        }),
        forall|j: int|
            0 <= j < groups.len() && j != i ==> (#[trigger] groups[j]).reason@ != groups[i].reason@,
        forall|k: int|
            0 <= k < errors.len() ==> exists|j: int|
                0 <= j < groups.len() && (#[trigger] groups[j]).reason@ == crate::text::truncated(
                    (#[trigger] errors[k]).1@,
                    180,
                ),
{
    lemma_reasons(errors);
    let reasons = crate::ui::reasons_of(errors);
    assert(crate::ui::is_group(errors, reasons[i], groups[i]));
    let same = |e: (String, String)| crate::text::truncated(e.1@, 180) == groups[i].reason@;
    let mine = errors.filter(same);
    let key_same = |e: (String, String)| crate::ui::reason_key(e) == reasons[i];
    crate::laws::matches::lemma_same_filter(errors, same, key_same);
    assert(mine == crate::ui::errors_for(errors, reasons[i]));
    assert(has_first(errors, reasons, i));
    let k = choose|k: int| 0 <= k < errors.len() && #[trigger] is_first(errors, k, reasons, i);
    assert(same(errors[k]));
    errors.lemma_filter_contains(same, k);
    let shown = crate::text::views(groups[i].samples@);
    assert(shown.len() == groups[i].samples@.len());
    assert forall|k: int| 0 <= k < shown.len() implies (#[trigger] groups[i].samples@[k])@
        == mine[k].0@ by {
        assert(shown[k] == groups[i].samples@[k]@);
    }
    assert forall|j: int| 0 <= j < groups.len() && j != i implies (#[trigger] groups[j]).reason@
        != groups[i].reason@ by {
        assert(crate::ui::is_group(errors, reasons[j], groups[j]));
        if j < i {
            assert(reasons[j] != reasons[i]);
        } else {
            assert(reasons[i] != reasons[j]);
        }
    }
    assert forall|k: int| 0 <= k < errors.len() implies exists|j: int|
        0 <= j < groups.len() && (#[trigger] groups[j]).reason@ == crate::text::truncated(
            (#[trigger] errors[k]).1@,
            180,
        ) by {
        assert(reasons.contains(crate::ui::reason_key(errors[k])));
        let j = choose|j: int| 0 <= j < reasons.len() && reasons[j] == crate::ui::reason_key(
            errors[k],
        );
        assert(crate::ui::is_group(errors, reasons[j], groups[j]));
    }
}

/// Groups stand in the order in which their reasons are first seen.
pub proof fn law_groups_as_first_seen(
    errors: Seq<(String, String)>,
    groups: Seq<ErrorGroup>,
    i: int,
    j: int,
)
    requires
        crate::ui::are_groups(errors, groups),
        0 <= i < j < groups.len(),
    ensures
        exists|k: int|
            0 <= k < errors.len() && crate::text::truncated((#[trigger] errors[k]).1@, 180)
                == groups[i].reason@ && forall|l: int|
                0 <= l <= k ==> crate::text::truncated((#[trigger] errors[l]).1@, 180)
                    != groups[j].reason@,
{
    lemma_reasons(errors);
    let reasons = crate::ui::reasons_of(errors);
    assert(crate::ui::is_group(errors, reasons[i], groups[i]));
    assert(crate::ui::is_group(errors, reasons[j], groups[j]));
    assert(has_first(errors, reasons, i));
    let k = choose|k: int| 0 <= k < errors.len() && #[trigger] is_first(errors, k, reasons, i);
    assert forall|l: int| 0 <= l <= k implies crate::text::truncated(
        (#[trigger] errors[l]).1@,
        180,
    ) != groups[j].reason@ by {
        assert(crate::ui::reason_key(errors[l]) != reasons[j]);
    }
    assert(crate::text::truncated(errors[k].1@, 180) == groups[i].reason@);
}

/// In descending order every place stands once, a larger count before a smaller one,
/// and places with the same count as they came.
pub proof fn law_descending(counts: Seq<usize>, order: Seq<usize>)
    requires
        crate::places::is_descending(counts, order),
    ensures
        order.len() == counts.len(),
        forall|i: int| 0 <= i < order.len() ==> (#[trigger] order[i]) < counts.len(),
        forall|i: int, j: int|
            0 <= i < j < order.len() ==> {
                &&& (#[trigger] order[i]) != (#[trigger] order[j])
                &&& counts[order[i] as int] >= counts[order[j] as int]
                &&& counts[order[i] as int] == counts[order[j] as int] ==> order[i] < order[j]
            },
{
    assert forall|i: int, j: int| 0 <= i < j < order.len() implies {
        &&& (#[trigger] order[i]) != (#[trigger] order[j])
        &&& counts[order[i] as int] >= counts[order[j] as int]
        &&& counts[order[i] as int] == counts[order[j] as int] ==> order[i] < order[j]
    } by {
        assert(crate::places::comes_first(counts, order[i] as int, order[j] as int));
    }
}

/// A group of errors is printed as one line with its number and its reason, and one
/// line with the name of each sample.
pub proof fn law_lines_of_a_group(group: ErrorGroup)
    ensures
        ({
            let lines = crate::ui::group_view(group);
            &&& lines.len() == 1 + group.samples@.len()
            &&& lines[0].len() == 6
            &&& lines[0][1] == (SegmentView {
                text: crate::text::decimal_of(group.count as nat) + "\u{d7}"@,
                tone: Some(Tone::Alert),
                bold: false,
            })
            &&& lines[0][5] == (SegmentView {
                text: group.reason@,
                tone: Some(Tone::Text),
                bold: false,
            })
            &&& forall|k: int|
                0 <= k < group.samples@.len() ==> (#[trigger] lines[k + 1]).len() == 2
                    && lines[k + 1][1] == (SegmentView {
                    text: match crate::paths::file_name_of(group.samples@[k]@) {
                        Some(name) => name,
                        None => group.samples@[k]@,
                    },
                    tone: Some(Tone::Tertiary),
                    bold: false,
                })
        }),
{
}

proof fn lemma_groups(groups: Seq<ErrorGroup>, order: Seq<usize>, n: nat)
    requires
        n <= order.len(),
    ensures
        crate::ui::groups_view(groups, order, n) == order.take(n as int).flat_map(
            |at: usize| crate::ui::group_view(groups[at as int]),
        ),
    decreases n,
{
    let f = |at: usize| crate::ui::group_view(groups[at as int]);
    if n > 0 {
        lemma_groups(groups, order, (n - 1) as nat);
        order.lemma_flat_map_take_append(f, n - 1);
    } else {
        assert(order.take(0).flat_map(f) =~= Seq::empty());
    }
}

/// Nothing is printed of no errors. Else the five largest groups are printed, or all
/// where there are fewer, from the largest to the smallest, and at the end how many
/// are left.
pub proof fn law_lines_of_the_errors(groups: Seq<ErrorGroup>, order: Seq<usize>)
    requires
        order.len() == groups.len(),
    ensures
        groups.len() == 0 ==> crate::ui::errors_view(groups, order).len() == 0,
        groups.len() > 0 ==> {
            let lines = crate::ui::errors_view(groups, order);
            let n: int = if groups.len() < 5 {
                groups.len() as int
            } else {
                5
            };
            let blocks = order.take(n).flat_map(
                |at: usize| crate::ui::group_view(groups[at as int]),
            );
            let end: int = 2 + blocks.len() as int;
            &&& lines.len() == end + (if groups.len() > 5 {
                1int
            } else {
                0
            })
            &&& lines[0].len() == 0
            &&& lines[1][1].text == "skipped files \u{2014} grouped by reason:"@
            &&& lines.subrange(2, end) == blocks
            &&& groups.len() > 5 ==> lines[end][1].text == "+ "@ + crate::text::decimal_of(
                (groups.len() - 5) as nat,
            ) + " more distinct error(s)"@
        },
{
    if groups.len() > 0 {
        let n: nat = if groups.len() < 5 {
            groups.len()
        } else {
            5
        };
        lemma_groups(groups, order, n);
        let blocks = order.take(n as int).flat_map(
            |at: usize| crate::ui::group_view(groups[at as int]),
        );
        let lines = crate::ui::errors_view(groups, order);
        assert(lines.subrange(2, 2 + blocks.len() as int) =~= blocks);
    }
}

// ---- Results --------------------------------------------------------------

/// A result is printed with its rank and its file name, which is bold for the first
/// three, the number of its matches, a bar and the percentage of its confidence, its
/// path, and, where previews are shown, the line of its first match with the match set
/// off in it.
pub proof fn law_lines_of_a_result(rank: nat, result: SearchResult, show_preview: bool)
    ensures
        ({
            let lines = crate::ui::result_view(rank, result, show_preview);
            let preview = show_preview && result.matches@.len() > 0;
            &&& lines.len() == (if preview {
                5int
            } else {
                4
            })
            &&& lines[0][1].text == crate::text::right_aligned(crate::text::decimal_of(rank), 2)
            &&& lines[0][3] == (SegmentView {
                text: match crate::paths::file_name_of(result.path@) {
                    Some(name) => name,
                    None => "unknown"@,
                },
                tone: Some(Tone::Text),
                bold: rank == 0 || rank == 1 || rank == 2 || rank == 3,
            })
            &&& lines[1][1].text == crate::text::decimal_of(result.matches@.len()) + " matches"@
            &&& lines[1].subrange(3, 5) == crate::ui::confidence_bar(result.confidence)
            &&& lines[1][6].text == crate::text::right_aligned(
                crate::text::decimal_of(crate::doubles::parts_of(result.confidence, 100)),
                3,
            ) + "%"@
            &&& lines[2][1].text == crate::ui::short_path(result.path@)
            &&& preview ==> lines[3].skip(1) == crate::ui::highlighted(
                crate::types::preview_of(
                    crate::text::trimmed(result.matches@[0].context@),
                    72,
                ),
                result.matches@[0].matched_text@,
            )
            &&& lines.last().len() == 0
        }),
{
    let lines = crate::ui::result_view(rank, result, show_preview);
    assert(lines[1].subrange(3, 5) =~= crate::ui::confidence_bar(result.confidence));
    if show_preview && result.matches@.len() > 0 {
        let shown = crate::ui::highlighted(
            crate::types::preview_of(crate::text::trimmed(result.matches@[0].context@), 72),
            result.matches@[0].matched_text@,
        );
        assert(lines[3].skip(1) =~= shown);
    }
}

/// The bar of a confidence has ten places: the filled ones first, and then the others.
pub proof fn law_confidence_bar(confidence: u64)
    ensures
        crate::ui::filled_of(confidence) <= 10,
        ({
            let bar = crate::ui::confidence_bar(confidence);
            let filled = crate::ui::filled_of(confidence);
            &&& bar.len() == 2
            &&& bar[0].text == Seq::new(filled, |i: int| '\u{2501}')
            &&& bar[1].text == Seq::new((10 - filled) as nat, |i: int| '\u{2500}')
            &&& bar[0].tone == Some(Tone::Accent)
            &&& bar[1].tone == Some(Tone::Tertiary)
        }),
        confidence <= 0x3ff0_0000_0000_0000 ==> crate::ui::filled_of(confidence)
            == crate::doubles::parts_of(confidence, 10),
        0x3ff0_0000_0000_0000 < confidence <= 0x7ff0_0000_0000_0000 ==> crate::ui::filled_of(
            confidence,
        ) == 10,
        confidence > 0x7ff0_0000_0000_0000 ==> crate::ui::filled_of(confidence) == 0,
{
    if confidence <= 0x3ff0_0000_0000_0000 {
        crate::doubles::law_parts(confidence, 10);
    }
    let bar = crate::ui::confidence_bar(confidence);
    assert(bar[0].text =~= Seq::new(crate::ui::filled_of(confidence), |i: int| '\u{2501}'));
    assert(bar[1].text =~= Seq::new(
        (10 - crate::ui::filled_of(confidence)) as nat,
        |i: int| '\u{2500}',
    ));
}

#[verifier::spinoff_prover]
proof fn lemma_ranks(results: Seq<SearchResult>, show_preview: bool, n: nat)
    requires
        n <= results.len(),
    ensures
        crate::ui::ranks_view(results, show_preview, n) == Seq::new(n, |i: int| i).flat_map(
            |i: int| crate::ui::result_view((i + 1) as nat, results[i], show_preview),
        ),
    decreases n,
{
    let f = |i: int| crate::ui::result_view((i + 1) as nat, results[i], show_preview);
    let places = Seq::new(n, |i: int| i);
    if n > 0 {
        let fewer = Seq::new((n - 1) as nat, |i: int| i);
        lemma_ranks(results, show_preview, (n - 1) as nat);
        fewer.lemma_flat_map_push(f, n - 1);
        assert(fewer.push(n - 1) =~= places);
    } else {
        assert(places.flat_map(f) =~= Seq::empty());
    }
}

/// Every result is printed, in order, under its rank, below the number of results;
/// where there is none, that is said.
#[verifier::spinoff_prover]
pub proof fn law_every_result_is_printed(results: Seq<SearchResult>, show_preview: bool)
    ensures
        ({
            let lines = crate::ui::list_view(results, show_preview);
            &&& results.len() == 0 ==> lines.len() == 2 && lines[0][1].text == "no matches"@
            &&& results.len() > 0 ==> {
                &&& lines[0][1].text == crate::text::decimal_of(results.len()) + " files"@
                &&& lines[1].len() == 0
                &&& lines.skip(2) == Seq::new(results.len(), |i: int| i).flat_map(
                    |i: int| crate::ui::result_view((i + 1) as nat, results[i], show_preview),
                )
            }
        }),
{
    lemma_ranks(results, show_preview, results.len());
    lemma_behind_two(
        seq![
            crate::ui::plain("  "@),
            crate::ui::toned(
                crate::text::decimal_of(results.len()) + " files"@,
                Tone::Secondary,
            ),
        ],
        Seq::<SegmentView>::empty(),
        crate::ui::ranks_view(results, show_preview, results.len()),
    );
}

/// What stands behind two items.
proof fn lemma_behind_two<A>(a: A, b: A, rest: Seq<A>)
    ensures
        (seq![a, b] + rest).skip(2) == rest,
        (seq![a, b] + rest)[0] == a,
        (seq![a, b] + rest)[1] == b,
{
    assert((seq![a, b] + rest).skip(2) =~= rest);
}

/// A path of at most 68 characters is printed as it is, and of a longer one three dots
/// and its last 65 characters.
pub proof fn law_long_path(path: Seq<char>)
    ensures
        path.len() <= 68 ==> crate::ui::short_path(path) == path,
        path.len() > 68 ==> crate::ui::short_path(path) == seq!['.', '.', '.'] + path.subrange(
            path.len() - 65,
            path.len() as int,
        ),
{
    reveal_strlit("...");
    if path.len() > 68 {
        assert(crate::ui::short_path(path) =~= seq!['.', '.', '.'] + path.subrange(
            path.len() - 65,
            path.len() as int,
        ));
    }
}

/// A preview is the text, or, where this has more bytes than a preview may have, its
/// start and three dots.
pub proof fn law_preview(text: Seq<char>, start: Seq<char>, max_len: nat)
    requires
        vstd::utf8::encode_utf8(start) == vstd::utf8::encode_utf8(text).subrange(
            0,
            max_len as int,
        ),
        vstd::utf8::encode_utf8(text).len() > max_len,
    ensures
        crate::types::preview_of(text, max_len) == start + seq!['.', '.', '.'],
        forall|more: nat| #[trigger]
            crate::types::preview_of(text, vstd::utf8::encode_utf8(text).len() + more) == text,
{
    reveal_strlit("...");
    vstd::utf8::encode_utf8_decode_utf8(start);
    assert("..."@ =~= seq!['.', '.', '.']);
}

/// Setting off a match in a text keeps the text: the pieces, one after the other, are
/// the text. The one that is set off is the first match, without regard to case; where
/// there is none, nothing is set off.
pub proof fn law_highlighted(text: Seq<char>, pattern: Seq<char>)
    ensures
        ({
            let pieces = crate::ui::highlighted(text, pattern);
            let inner = Seq::new(
                if text.len() == 0 {
                    1
                } else {
                    text.len()
                },
                |i: int| i,
            ).filter(|i: int| crate::folding::match_end(text, pattern, false, i) is Some);
            &&& inner.len() == 0 ==> pieces.len() == 1 && pieces[0].text == text && !pieces[0].bold
            &&& inner.len() > 0 ==> {
                &&& pieces.len() == 3
                &&& pieces[0].text + pieces[1].text + pieces[2].text == text
                &&& pieces[0].text.len() == inner[0]
                &&& pieces[0].text.len() + pieces[1].text.len() == crate::folding::match_end(
                    text,
                    pattern,
                    false,
                    inner[0],
                )->0
                &&& pieces[1].bold && pieces[1].tone == Some(Tone::Accent)
                &&& !pieces[0].bold && !pieces[2].bold
            }
        }),
{
    let begins = |i: int| crate::folding::match_end(text, pattern, false, i) is Some;
    let all = Seq::new(
        if text.len() == 0 {
            1
        } else {
            text.len()
        },
        |i: int| i,
    );
    let inner = all.filter(begins);
    crate::folding::law_first_match_is_first(text, pattern, false);
    match crate::ui::found_at(text, pattern) {
        Some((from, to)) => {
            assert(from < all.len()) by {
                lemma_first_is_a_place(text, pattern, 0);
            }
            assert(all[from] == from);
            all.lemma_filter_contains(begins, from);
            lemma_first_passes(all, begins, from);
            assert(text.take(from) + text.subrange(from, to) + text.skip(to) =~= text);
        },
        None => {
            if inner.len() > 0 {
                all.lemma_filter_pred(begins, 0);
                all.lemma_filter_contains_rev(begins, inner[0]);
            }
        },
    }
}

proof fn lemma_first_is_a_place(text: Seq<char>, pattern: Seq<char>, i: int)
    requires
        0 <= i,
    ensures
        crate::folding::folded_first(
            text,
            crate::folding::folded(pattern, false),
            false,
            i,
        ) matches Some((from, to)) ==> from < crate::folding::places(text),
    decreases crate::folding::places(text) - i,
{
    if i < crate::folding::places(text) {
        lemma_first_is_a_place(text, pattern, i + 1);
    }
}

/// The first number that passes is the first of those that pass.
proof fn lemma_first_passes(all: Seq<int>, keep: spec_fn(int) -> bool, at: int)
    requires
        0 <= at < all.len(),
        keep(all[at]),
        forall|k: int| 0 <= k < at ==> !keep(#[trigger] all[k]),
    ensures
        all.filter(keep).len() > 0,
        all.filter(keep)[0] == all[at],
    decreases all.len(),
{
    reveal(Seq::filter);
    let init = all.drop_last();
    if at < init.len() {
        assert forall|k: int| 0 <= k < at implies !keep(#[trigger] init[k]) by {
            assert(init[k] == all[k]);
        }
        lemma_first_passes(init, keep, at);
    } else {
        assert forall|k: int| 0 <= k < init.len() implies !keep(#[trigger] init[k]) by {
            assert(init[k] == all[k]);
        }
        lemma_none(init, keep);
    }
}

proof fn lemma_none(all: Seq<int>, keep: spec_fn(int) -> bool)
    requires
        forall|k: int| 0 <= k < all.len() ==> !keep(#[trigger] all[k]),
    ensures
        all.filter(keep).len() == 0,
    decreases all.len(),
{
    reveal(Seq::filter);
    if all.len() > 0 {
        let init = all.drop_last();
        assert forall|k: int| 0 <= k < init.len() implies !keep(#[trigger] init[k]) by {
            assert(init[k] == all[k]);
        }
        lemma_none(init, keep);
        assert(all.last() == all[all.len() - 1]);
    }
}

// ---- Statistics -----------------------------------------------------------

/// The line of statistics holds the numbers of the files that were scanned and that
/// had matches, of those that were skipped, if any was, and the time.
pub proof fn law_line_of_statistics(stats: SearchStats)
    ensures
        ({
            let line = crate::ui::stats_line(stats);
            let n = line.len() as int;
            &&& line.len() == (if stats.files_skipped > 0 {
                10int
            } else {
                8
            })
            &&& line[2].text == "   scanned "@
            &&& line[3].text == crate::text::decimal_of(stats.files_scanned as nat)
            &&& line[4].text == "   matched "@
            &&& line[5].text == crate::text::decimal_of(stats.files_matched as nat)
            &&& stats.files_skipped > 0 ==> line[6].text == "   skipped "@ && line[7].text
                == crate::text::decimal_of(stats.files_skipped as nat)
            &&& line[n - 1].text == crate::doubles::duration_text(stats.duration_ms as nat, 2)
        }),
{
}

/// The breakdown names every type that has results, from the most to the fewest, each
/// behind its number.
pub proof fn law_line_of_types(
    counts: Seq<(crate::types::FileType, usize)>,
    order: Seq<usize>,
    n: nat,
    k: int,
)
    requires
        n <= order.len(),
        0 <= k < n,
    ensures
        ({
            let line = crate::ui::types_view(counts, order, n);
            let count = counts[order[k] as int];
            &&& line.len() == 4 * n - 1
            &&& line[4 * k].text == crate::text::decimal_of(count.1 as nat)
            &&& line[4 * k + 2].text == crate::text::lower_of(count.0.name_of())
        }),
    decreases n,
{
    if n > 1 {
        if k < n - 1 {
            law_line_of_types(counts, order, (n - 1) as nat, k);
        } else {
            law_line_of_types(counts, order, (n - 1) as nat, 0);
        }
    } else {
        assert(crate::ui::types_view(counts, order, 0).len() == 0);
    }
}

/// The statistics are printed as their line, the breakdown, where there is one, and the
/// errors.
pub proof fn law_lines_of_the_statistics(
    stats: SearchStats,
    types: Seq<usize>,
    groups: Seq<ErrorGroup>,
    order: Seq<usize>,
)
    ensures
        ({
            let lines = crate::ui::stats_view(stats, types, groups, order);
            let errors = crate::ui::errors_view(groups, order);
            let n: int = if stats.by_type.counts@.len() > 0 {
                2
            } else {
                1
            };
            &&& lines.len() == n + errors.len()
            &&& lines[0] == crate::ui::stats_line(stats)
            &&& n == 2 ==> lines[1].skip(1) == crate::ui::types_view(
                stats.by_type.counts@,
                types,
                stats.by_type.counts@.len(),
            )
            &&& lines.skip(n) == errors
        }),
{
    let lines = crate::ui::stats_view(stats, types, groups, order);
    let errors = crate::ui::errors_view(groups, order);
    if stats.by_type.counts@.len() > 0 {
        let shown = crate::ui::types_view(
            stats.by_type.counts@,
            types,
            stats.by_type.counts@.len(),
        );
        assert(lines[1].skip(1) =~= shown);
        assert(lines.skip(2) =~= errors);
    } else {
        assert(lines.skip(1) =~= errors);
    }
}

/// A result is offered by its rank, its file name and the number of its matches.
pub proof fn law_offered_item(rank: nat, result: SearchResult)
    ensures
        ({
            let name = match crate::paths::file_name_of(result.path@) {
                Some(name) => name,
                None => "unknown"@,
            };
            crate::ui::item_of(rank, result) == crate::text::right_aligned(
                crate::text::decimal_of(rank),
                2,
            ) + "  "@ + name + "  ("@ + crate::text::decimal_of(result.matches@.len())
                + " matches)"@
        }),
{
}

/// The groups of errors are printed from the largest to the smallest, and those of one
/// size as their reasons were first seen.
pub proof fn law_largest_groups_first(
    errors: Seq<(String, String)>,
    groups: Seq<ErrorGroup>,
    order: Seq<usize>,
)
    requires
        crate::ui::errors_arranged(errors, groups, order),
    ensures
        crate::ui::are_groups(errors, groups),
        order.len() == groups.len(),
        forall|i: int| 0 <= i < order.len() ==> (#[trigger] order[i]) < groups.len(),
        forall|i: int, j: int|
            0 <= i < j < order.len() ==> {
                &&& groups[(#[trigger] order[i]) as int].count >= groups[(
                #[trigger] order[j]) as int].count
                &&& groups[order[i] as int].count == groups[order[j] as int].count ==> order[i]
                    < order[j]
            },
{
    let counts = crate::ui::group_counts(groups);
    law_descending(counts, order);
    assert(counts.len() == groups.len());
    assert forall|i: int, j: int| 0 <= i < j < order.len() implies {
        &&& groups[(#[trigger] order[i]) as int].count >= groups[(#[trigger] order[j]) as int].count
        &&& groups[order[i] as int].count == groups[order[j] as int].count ==> order[i] < order[j]
    } by {
        assert(order[i] != order[j]);
        assert(counts[order[i] as int] == groups[order[i] as int].count);
        assert(counts[order[j] as int] == groups[order[j] as int].count);
    }
}

/// The printed statistics begin with their line; the breakdown goes from the type with the
/// most results to the one with the fewest, and the errors follow, the largest groups
/// first.
pub proof fn law_printed_statistics(stats: SearchStats, lines: Seq<Seq<SegmentView>>)
    requires
        crate::ui::shows_stats(stats, lines),
    ensures
        lines.len() > 0,
        lines[0] == crate::ui::stats_line(stats),
        exists|types: Seq<usize>, groups: Seq<ErrorGroup>, order: Seq<usize>|
            {
                let counts = stats.by_type.counts@;
                &&& #[trigger] is_order_of(stats.by_type.counts@, types)
                &&& #[trigger] crate::ui::errors_arranged(stats.errors@, groups, order)
                &&& counts.len() > 0 ==> lines.len() > 1 && lines[1].skip(1)
                    == crate::ui::types_view(counts, types, counts.len())
                &&& lines.skip(
                    if counts.len() > 0 {
                        2
                    } else {
                        1
                    },
                ) == crate::ui::errors_view(groups, order)
            },
{
    let (types, groups, order) = choose|
        types: Seq<usize>,
        groups: Seq<ErrorGroup>,
        order: Seq<usize>,
    | #[trigger]
        crate::ui::stats_arranged(stats, types, groups, order) && lines == crate::ui::stats_view(
            stats,
            types,
            groups,
            order,
        );
    let counts = stats.by_type.counts@;
    let numbers = crate::ui::type_numbers(counts);
    law_descending(numbers, types);
    assert(numbers.len() == counts.len());
    assert(is_order_of(counts, types)) by {
        assert forall|i: int, j: int| 0 <= i < j < types.len() implies counts[(
        #[trigger] types[i]) as int].1 >= counts[(#[trigger] types[j]) as int].1 && types[i]
            != types[j] by {
            assert(numbers[types[i] as int] == counts[types[i] as int].1);
            assert(numbers[types[j] as int] == counts[types[j] as int].1);
        }
    }
    law_lines_of_the_statistics(stats, types, groups, order);
    assert(crate::ui::errors_arranged(stats.errors@, groups, order));
}

/// Every type stands once, from the most results to the fewest.
pub open spec fn is_order_of(
    counts: Seq<(crate::types::FileType, usize)>,
    types: Seq<usize>,
) -> bool {
    &&& types.len() == counts.len()
    &&& forall|i: int| 0 <= i < types.len() ==> (#[trigger] types[i]) < counts.len()
    &&& forall|i: int, j: int|
        0 <= i < j < types.len() ==> counts[(#[trigger] types[i]) as int].1 >= counts[(
        #[trigger] types[j]) as int].1 && types[i] != types[j]
}

/// The welcome and the farewell are a quiet word between two empty lines.
pub proof fn law_quiet_label(label: Seq<char>)
    ensures
        ({
            let lines = crate::ui::label_view(label);
            &&& lines.len() == 3
            &&& lines[0].len() == 0
            &&& lines[1].len() == 2
            &&& lines[1][1].text == label
            &&& lines[2].len() == 0
        }),
{
}

/// Two results are equal exactly if their paths have the same components.
pub proof fn law_equal_results(a: SearchResult, b: SearchResult)
    ensures
        a.eq_spec(&b) <==> crate::paths::components_of(a.path@) == crate::paths::components_of(
            b.path@,
        ),
{
}

} // verus!
