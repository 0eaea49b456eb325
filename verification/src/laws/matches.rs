//! What a search finds in a text.

use crate::matching::SearchPattern;
use crate::types::MatchView;
use regex::Regex;
use vstd::prelude::*;

verus! {

// ---- Line by line ---------------------------------------------------------

proof fn lemma_flat_map_add(
    a: Seq<Seq<char>>,
    b: Seq<Seq<char>>,
    f: spec_fn(Seq<char>) -> Seq<MatchView>,
)
    ensures
        (a + b).flat_map(f) == a.flat_map(f) + b.flat_map(f),
    decreases b.len(),
{
    if b.len() == 0 {
        assert(a + b =~= a);
        assert(b.flat_map(f) =~= Seq::empty());
    } else {
        let init = b.drop_last();
        let last = b.last();
        lemma_flat_map_add(a, init, f);
        (a + init).lemma_flat_map_push(f, last);
        init.lemma_flat_map_push(f, last);
        assert((a + init).push(last) =~= a + b);
        assert(init.push(last) =~= b);
    }
}

/// The matches of the lines, one after the other, are as many as they are together,
/// and the matches of line `k` stand behind those of the lines before it.
proof fn lemma_blocks(
    all: Seq<Seq<char>>,
    f: spec_fn(Seq<char>) -> Seq<MatchView>,
    count: spec_fn(nat, Seq<char>) -> nat,
    k: int,
)
    requires
        0 <= k < all.len(),
        forall|n: nat, line: Seq<char>| #[trigger] count(n, line) == n + f(line).len(),
    ensures
        all.flat_map(f).len() == all.fold_left(0nat, count),
        ({
            let start = all.take(k).fold_left(0nat, count) as int;
            &&& 0 <= start <= start + f(all[k]).len() <= all.flat_map(f).len()
            &&& all.flat_map(f).subrange(start, start + f(all[k]).len()) == f(all[k])
        }),
    decreases all.len(),
{
    lemma_size(all, f, count);
    lemma_size(all.take(k), f, count);
    all.lemma_flat_map_take_append(f, k);
    let before = all.take(k);
    let after = all.skip(k + 1);
    assert(all =~= all.take(k + 1) + after);
    lemma_flat_map_add(all.take(k + 1), after, f);
    let start = before.flat_map(f).len() as int;
    assert(all.flat_map(f).subrange(start, start + f(all[k]).len()) =~= f(all[k]));
}

proof fn lemma_size(
    all: Seq<Seq<char>>,
    f: spec_fn(Seq<char>) -> Seq<MatchView>,
    count: spec_fn(nat, Seq<char>) -> nat,
)
    requires
        forall|n: nat, line: Seq<char>| #[trigger] count(n, line) == n + f(line).len(),
    ensures
        all.flat_map(f).len() == all.fold_left(0nat, count),
    decreases all.len(),
{
    if all.len() == 0 {
        assert(all.flat_map(f) =~= Seq::empty());
    } else {
        let init = all.drop_last();
        lemma_size(init, f, count);
        init.lemma_flat_map_push(f, all.last());
        assert(init.push(all.last()) =~= all);
    }
}

/// A search goes line by line: what it finds in two texts that a newline parts is
/// what it finds in the one, and then what it finds in the other.
pub proof fn law_search_goes_line_by_line(
    pattern: SearchPattern,
    case_sensitive: bool,
    a: Seq<char>,
    b: Seq<char>,
)
    ensures
        pattern.matches_of(case_sensitive, a.push('\n') + b) == pattern.matches_of(
            case_sensitive,
            a.push('\n'),
        ) + pattern.matches_of(case_sensitive, b),
        pattern.matches_of(case_sensitive, Seq::<char>::empty()).len() == 0,
{
    let first = crate::text::lines_of(a.push('\n'));
    let second = crate::text::lines_of(b);
    crate::laws::lines::law_a_newline_parts_the_lines(a, b);
    assert(!Seq::<char>::empty().contains('\n'));
    crate::laws::lines::law_a_line_is_itself(Seq::empty());
    match pattern {
        SearchPattern::Regex(regex) => {
            let f = |line: Seq<char>| crate::matching::regex_line_matches(regex, line);
            lemma_flat_map_add(first, second, f);
            assert(crate::text::lines_of(Seq::empty()).flat_map(f) =~= Seq::empty());
        },
        SearchPattern::Literal(literal) => {
            let f = |line: Seq<char>|
                crate::matching::literal_line_matches(line, literal.pattern(), case_sensitive);
            lemma_flat_map_add(first, second, f);
            assert(crate::text::lines_of(Seq::empty()).flat_map(f) =~= Seq::empty());
        },
    }
}

/// In a text that is one line a regular expression has the matches that are found
/// in this line, each with the line as its context. A line ending changes nothing.
pub proof fn law_regex_in_one_line(regex: Regex, case_sensitive: bool, line: Seq<char>)
    requires
        !line.contains('\n'),
    ensures
        ({
            let pattern = SearchPattern::Regex(regex);
            let found = crate::matching::found_by(regex, line);
            let expected = Seq::new(
                found.len(),
                |j: int| MatchView { matched_text: found[j], context: line },
            );
            &&& line.len() > 0 ==> pattern.matches_of(case_sensitive, line) == expected
            &&& line.len() == 0 || line.last() != '\r' ==> pattern.matches_of(
                case_sensitive,
                line.push('\n'),
            ) == expected
            &&& pattern.matches_of(case_sensitive, line.push('\r').push('\n')) == expected
        }),
{
    let found = crate::matching::found_by(regex, line);
    let expected = Seq::new(
        found.len(),
        |j: int| MatchView { matched_text: found[j], context: line },
    );
    let f = |l: Seq<char>| crate::matching::regex_line_matches(regex, l);
    assert(f(line) =~= expected);
    crate::laws::lines::law_a_line_is_itself(line);
    seq![line].lemma_flat_map_singleton(f);
}

/// A regular expression finds in a text, for every line and for every text that it
/// finds in this line, one match: as many as these are over all lines, and those of
/// a line stand together, in order, behind those of the lines before it.
pub proof fn law_regex_searches_every_line(regex: Regex, text: Seq<char>, k: int)
    requires
        0 <= k < crate::text::lines_of(text).len(),
    ensures
        ({
            let matches = crate::matching::regex_matches(regex, text);
            let all = crate::text::lines_of(text);
            let count = |n: nat, line: Seq<char>| n + crate::matching::found_by(regex, line).len();
            let start = all.take(k).fold_left(0nat, count) as int;
            &&& matches.len() == all.fold_left(0nat, count)
            &&& start + crate::matching::found_by(regex, all[k]).len() <= matches.len()
            &&& forall|j: int|
                0 <= j < crate::matching::found_by(regex, all[k]).len() ==> (
                #[trigger] matches[start + j]) == (MatchView {
                    matched_text: crate::matching::found_by(regex, all[k])[j],
                    context: all[k],
                })
        }),
{
    let all = crate::text::lines_of(text);
    let f = |line: Seq<char>| crate::matching::regex_line_matches(regex, line);
    let count = |n: nat, line: Seq<char>| n + crate::matching::found_by(regex, line).len();
    assert forall|n: nat, line: Seq<char>| #[trigger] count(n, line) == n + f(line).len() by {}
    lemma_blocks(all, f, count, k);
    let start = all.take(k).fold_left(0nat, count) as int;
    let matches = crate::matching::regex_matches(regex, text);
    let block = matches.subrange(start, start + f(all[k]).len());
    assert forall|j: int| 0 <= j < crate::matching::found_by(regex, all[k]).len() implies (
    #[trigger] matches[start + j]) == (MatchView {
        matched_text: crate::matching::found_by(regex, all[k])[j],
        context: all[k],
    }) by {
        assert(block[j] == f(all[k])[j]);
        assert(matches[start + j] == block[j]);
    }
}

// ---- Literal patterns -----------------------------------------------------

/// In a line a case-sensitive pattern has one match for each place at which it
/// stands there, overlapping places too, from left to right.
pub proof fn law_one_match_for_each_place(line: Seq<char>, pattern: Seq<char>)
    requires
        pattern.len() > 0,
    ensures
        ({
            let matches = crate::matching::literal_line_matches(line, pattern, true);
            let stands = Seq::new(line.len(), |i: int| i).filter(
                |i: int|
                    i + pattern.len() <= line.len() && line.subrange(i, i + pattern.len())
                        == pattern,
            );
            &&& matches.len() == stands.len()
            &&& forall|k: int|
                0 <= k < matches.len() ==> (#[trigger] matches[k]) == (MatchView {
                    matched_text: line.subrange(stands[k], stands[k] + pattern.len()),
                    context: line,
                })
        }),
{
    let stands = |i: int|
        i + pattern.len() <= line.len() && line.subrange(i, i + pattern.len()) == pattern;
    let begins = |i: int| crate::folding::folded_end(line, pattern, true, i) is Some;
    let all = Seq::new(line.len(), |i: int| i);
    let places = crate::folding::match_places(line, pattern, true);
    if line.len() > 0 {
        lemma_same_filter(all, begins, stands);
    } else {
        reveal(Seq::filter);
        let one = Seq::new(1, |i: int| i);
        assert(one.drop_last() =~= Seq::<int>::empty());
        assert(!begins(0));
        reveal_with_fuel(Seq::filter, 2);
        assert(one.filter(begins) =~= Seq::<int>::empty());
        assert(all.filter(stands) =~= Seq::<int>::empty());
    }
    assert(places =~= all.filter(stands));
    assert forall|k: int| 0 <= k < places.len() implies crate::folding::match_end(
        line,
        pattern,
        true,
        #[trigger] places[k],
    ) == Some(places[k] + pattern.len()) by {
        all.lemma_filter_pred(stands, k);
        all.lemma_filter_contains_rev(stands, places[k]);
    }
}

/// Two conditions that agree on the items let the same items pass.
pub proof fn lemma_same_filter<A>(s: Seq<A>, p: spec_fn(A) -> bool, q: spec_fn(A) -> bool)
    requires
        forall|i: int| 0 <= i < s.len() ==> p(#[trigger] s[i]) == q(s[i]),
    ensures
        s.filter(p) == s.filter(q),
    decreases s.len(),
{
    reveal(Seq::filter);
    if s.len() > 0 {
        let init = s.drop_last();
        assert forall|i: int| 0 <= i < init.len() implies p(#[trigger] init[i]) == q(init[i]) by {
            assert(init[i] == s[i]);
        }
        lemma_same_filter(init, p, q);
        assert(s.last() == s[s.len() - 1]);
    }
}

/// With or without regard to case, a line has as many matches of a pattern as there
/// are places at which one begins, and each of them is the text from such a place to
/// where the match that begins there ends.
pub proof fn law_matches_are_at_the_places(
    line: Seq<char>,
    pattern: Seq<char>,
    case_sensitive: bool,
)
    ensures
        ({
            let matches = crate::matching::literal_line_matches(line, pattern, case_sensitive);
            let places = crate::folding::match_places(line, pattern, case_sensitive);
            let last: int = if line.len() == 0 {
                0
            } else {
                line.len() - 1
            };
            &&& matches.len() == places.len()
            &&& forall|k: int|
                0 <= k < matches.len() ==> (#[trigger] matches[k]) == (MatchView {
                    matched_text: line.subrange(
                        places[k],
                        crate::folding::match_end(line, pattern, case_sensitive, places[k])->0,
                    ),
                    context: line,
                })
            &&& forall|i: int| #[trigger]
                places.contains(i) <==> 0 <= i <= last && crate::folding::match_end(
                    line,
                    pattern,
                    case_sensitive,
                    i,
                ) is Some
            &&& forall|j: int, k: int| 0 <= j < k < places.len() ==> places[j] < places[k]
        }),
{
    crate::folding::law_places_are_the_occurrences(line, pattern, case_sensitive);
}

/// A literal pattern finds in a text as many matches as it finds in its lines, and
/// those of a line stand together, in order, behind those of the lines before it.
pub proof fn law_literal_searches_every_line(
    text: Seq<char>,
    pattern: Seq<char>,
    case_sensitive: bool,
    k: int,
)
    requires
        0 <= k < crate::text::lines_of(text).len(),
    ensures
        ({
            let matches = crate::matching::literal_matches(text, pattern, case_sensitive);
            let all = crate::text::lines_of(text);
            let here = crate::matching::literal_line_matches(all[k], pattern, case_sensitive);
            let count = |n: nat, line: Seq<char>|
                n + crate::matching::literal_line_matches(line, pattern, case_sensitive).len();
            let start = all.take(k).fold_left(0nat, count) as int;
            &&& matches.len() == all.fold_left(0nat, count)
            &&& start + here.len() <= matches.len()
            &&& matches.subrange(start, start + here.len()) == here
        }),
{
    let all = crate::text::lines_of(text);
    let f = |line: Seq<char>|
        crate::matching::literal_line_matches(line, pattern, case_sensitive);
    let count = |n: nat, line: Seq<char>|
        n + crate::matching::literal_line_matches(line, pattern, case_sensitive).len();
    assert forall|n: nat, line: Seq<char>| #[trigger] count(n, line) == n + f(line).len() by {}
    lemma_blocks(all, f, count, k);
}

/// In a text that is one line a literal pattern has the matches that it has in this
/// line. A line ending changes nothing.
pub proof fn law_literal_in_one_line(line: Seq<char>, pattern: Seq<char>, case_sensitive: bool)
    requires
        !line.contains('\n'),
    ensures
        ({
            let expected = crate::matching::literal_line_matches(line, pattern, case_sensitive);
            &&& line.len() > 0 ==> crate::matching::literal_matches(line, pattern, case_sensitive)
                == expected
            &&& line.len() == 0 || line.last() != '\r' ==> crate::matching::literal_matches(
                line.push('\n'),
                pattern,
                case_sensitive,
            ) == expected
            &&& crate::matching::literal_matches(
                line.push('\r').push('\n'),
                pattern,
                case_sensitive,
            ) == expected
        }),
{
    let f = |l: Seq<char>| crate::matching::literal_line_matches(l, pattern, case_sensitive);
    crate::laws::lines::law_a_line_is_itself(line);
    seq![line].lemma_flat_map_singleton(f);
}

// ---- Without regard to case -----------------------------------------------

/// In an ASCII line an ASCII pattern has, without regard to case, one match for each
/// place at which the line has its characters or the same letters in the other case;
/// what is matched is what the line has there.
pub proof fn law_one_match_in_any_case(line: Seq<char>, pattern: Seq<char>)
    requires
        vstd::utf8::is_ascii_chars(line),
        vstd::utf8::is_ascii_chars(pattern),
        pattern.len() > 0,
    ensures
        ({
            let matches = crate::matching::literal_line_matches(line, pattern, false);
            let stands = Seq::new(line.len(), |i: int| i).filter(
                |i: int|
                    i + pattern.len() <= line.len() && forall|j: int|
                        0 <= j < pattern.len() ==> same_letter(
                            #[trigger] line[i + j],
                            pattern[j],
                        ),
            );
            &&& matches.len() == stands.len()
            &&& forall|k: int|
                0 <= k < matches.len() ==> (#[trigger] matches[k]) == (MatchView {
                    matched_text: line.subrange(stands[k], stands[k] + pattern.len()),
                    context: line,
                })
        }),
{
    let stands = |i: int|
        i + pattern.len() <= line.len() && forall|j: int|
            0 <= j < pattern.len() ==> same_letter(#[trigger] line[i + j], pattern[j]);
    let needle = crate::folding::folded(pattern, false);
    let begins = |i: int| crate::folding::folded_end(line, needle, false, i) is Some;
    let all = Seq::new(line.len(), |i: int| i);
    let places = crate::folding::match_places(line, pattern, false);
    assert forall|i: int| 0 <= i < crate::folding::places(line) implies #[trigger] begins(i)
        == stands(i) && (stands(i) ==> crate::folding::match_end(line, pattern, false, i) == Some(
        i + pattern.len(),
    )) by {
        crate::folding::law_ascii_matches(line, pattern, i);
        lemma_same_letters(line, pattern, i);
    }
    if line.len() > 0 {
        assert forall|i: int| 0 <= i < all.len() implies begins(#[trigger] all[i]) == stands(
            all[i],
        ) by {
            assert(begins(i) == stands(i));
        }
        lemma_same_filter(all, begins, stands);
    } else {
        reveal(Seq::filter);
        let one = Seq::new(1, |i: int| i);
        assert(one.drop_last() =~= Seq::<int>::empty());
        assert(begins(0) == stands(0));
        reveal_with_fuel(Seq::filter, 2);
        assert(one.filter(begins) =~= Seq::<int>::empty());
        assert(all.filter(stands) =~= Seq::<int>::empty());
    }
    assert(places =~= all.filter(stands));
    assert forall|k: int| 0 <= k < places.len() implies crate::folding::match_end(
        line,
        pattern,
        false,
        #[trigger] places[k],
    ) == Some(places[k] + pattern.len()) by {
        all.lemma_filter_pred(stands, k);
        all.lemma_filter_contains_rev(stands, places[k]);
        assert(begins(places[k]) == stands(places[k]));
    }
}

/// The characters are the same, or the same letter in another case.
pub open spec fn same_letter(a: char, b: char) -> bool {
    ||| a == b
    ||| 'A' <= a <= 'Z' && b as int == a as int + 32
    ||| 'A' <= b <= 'Z' && a as int == b as int + 32
}

proof fn lemma_same_letters(line: Seq<char>, pattern: Seq<char>, i: int)
    requires
        0 <= i,
    ensures
        crate::text::occurs_at(
            crate::text::ascii_lowercase(line),
            crate::text::ascii_lowercase(pattern),
            i,
        ) <==> i + pattern.len() <= line.len() && forall|j: int|
            0 <= j < pattern.len() ==> same_letter(#[trigger] line[i + j], pattern[j]),
{
    let hay = crate::text::ascii_lowercase(line);
    let needle = crate::text::ascii_lowercase(pattern);
    if i + pattern.len() <= line.len() {
        let part = hay.subrange(i, i + pattern.len());
        assert forall|j: int| 0 <= j < pattern.len() implies (part[j] == needle[j]) == same_letter(
            #[trigger] line[i + j],
            pattern[j],
        ) by {
            assert(part[j] == crate::text::ascii_lower(line[i + j]));
        }
        if part == needle {
            assert forall|j: int| 0 <= j < pattern.len() implies same_letter(
                #[trigger] line[i + j],
                pattern[j],
            ) by {
                assert(part[j] == needle[j]);
            }
        }
        if forall|j: int|
            0 <= j < pattern.len() ==> same_letter(#[trigger] line[i + j], pattern[j]) {
            assert forall|j: int| 0 <= j < pattern.len() implies part[j] == needle[j] by {
                assert(same_letter(line[i + j], pattern[j]));
            }
            assert(part =~= needle);
        }
    }
}

/// How many characters a text is when each of its characters is put in lowercase.
pub open spec fn lower_len(text: Seq<char>) -> nat {
    text.fold_left(0nat, |n: nat, c: char| n + crate::text::lower_of(seq![c]).len())
}

proof fn lemma_lower_len(text: Seq<char>, i: int)
    requires
        0 <= i <= text.len(),
    ensures
        crate::folding::lower_start(text, i) == lower_len(text.take(i)),
    decreases i,
{
    if i > 0 {
        lemma_lower_len(text, i - 1);
        assert(text.take(i).drop_last() =~= text.take(i - 1));
        assert(text.take(i).last() == text[i - 1]);
    }
}

/// The match in the lowercase form begins at `p`, in what comes from character `i`.
pub open spec fn begins_at(line: Seq<char>, pattern: Seq<char>, i: int, p: int) -> bool {
    let low = crate::text::lower_of(line);
    let needle = crate::text::lower_of(pattern);
    &&& p == lower_len(line.take(i)) || lower_len(line.take(i)) < p < lower_len(line.take(i + 1))
    &&& p + needle.len() <= low.len()
    &&& low.subrange(p, p + needle.len()) == needle
}

proof fn lemma_lower_end_is_first(text: Seq<char>, i: int, p: int)
    requires
        0 <= i <= text.len(),
    ensures
        ({
            let end = crate::folding::lower_end(text, i, p);
            &&& i <= end <= text.len()
            &&& end == text.len() || lower_len(text.take(end)) >= p
            &&& forall|k: int| i <= k < end ==> lower_len(#[trigger] text.take(k)) < p
        }),
    decreases text.len() - i,
{
    lemma_lower_len(text, i);
    if i < text.len() && crate::folding::lower_start(text, i) < p {
        lemma_lower_end_is_first(text, i + 1, p);
        let end = crate::folding::lower_end(text, i, p);
        assert forall|k: int| i <= k < end implies lower_len(#[trigger] text.take(k)) < p by {
            if k > i {
                assert(i + 1 <= k < end);
            }
        }
    }
}

/// Without regard to case a match begins with a character of a line exactly where
/// the lowercase form of the pattern begins in what this character is in lowercase.
/// The match ends behind the last character that part of it comes from.
pub proof fn law_match_in_any_case(line: Seq<char>, pattern: Seq<char>, i: int)
    requires
        0 <= i < line.len(),
    ensures
        crate::folding::match_end(line, pattern, false, i) is Some <==> exists|p: int| #[trigger]
            begins_at(line, pattern, i, p),
        crate::folding::match_end(line, pattern, false, i) matches Some(end) ==> exists|p: int|
            #![trigger begins_at(line, pattern, i, p)]
            {
                let last = p + crate::text::lower_of(pattern).len();
                &&& begins_at(line, pattern, i, p)
                &&& forall|q: int| #[trigger] begins_at(line, pattern, i, q) ==> p <= q
                &&& i <= end <= line.len()
                &&& end == line.len() || lower_len(line.take(end)) >= last
                &&& forall|k: int| i <= k < end ==> lower_len(#[trigger] line.take(k)) < last
            },
{
    let low = crate::text::lower_of(line);
    let needle = crate::text::lower_of(pattern);
    let start = crate::folding::lower_start(line, i) as int;
    lemma_lower_len(line, i);
    lemma_lower_len(line, i + 1);
    crate::text::lemma_first_from(low, needle, start);
    assert forall|q: int| #[trigger] begins_at(line, pattern, i, q) implies crate::text::occurs_at(
        low,
        needle,
        q,
    ) && q >= start by {}
    match crate::text::first_from(low, needle, start) {
        Some(p) => {
            lemma_lower_end_is_first(line, i, p + needle.len());
            if crate::folding::comes_from(line, i, p) {
                assert(begins_at(line, pattern, i, p));
                assert forall|q: int| #[trigger] begins_at(line, pattern, i, q) implies p <= q by {
                    if q < p {
                        assert(!crate::text::occurs_at(low, needle, q));
                    }
                }
            } else {
                assert forall|q: int| !#[trigger] begins_at(line, pattern, i, q) by {
                    if begins_at(line, pattern, i, q) && q < p {
                        assert(!crate::text::occurs_at(low, needle, q));
                    }
                }
            }
        },
        None => {},
    }
}

} // verus!
