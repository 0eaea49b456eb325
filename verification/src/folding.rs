//! Where a text stands in another one, with or without regard to case.
//!
//! Without regard to case the lowercase forms are compared. A character can be
//! more than one in lowercase, so what was found there is traced back to the
//! characters that it comes from.

use crate::text::{chars_at, chars_of, lowercase};
use vstd::prelude::*;

verus! {

// ---- Lowercase forms ------------------------------------------------------

/// How many characters a character is in lowercase.
pub open spec fn width(c: char) -> nat {
    crate::text::lower_of(seq![c]).len()
}

/// How many characters the first `i` characters of a text are in lowercase.
pub open spec fn lower_start(text: Seq<char>, i: int) -> nat
    decreases i,
{
    if i <= 0 {
        0
    } else {
        lower_start(text, i - 1) + (if i <= text.len() {
            width(text[i - 1])
        } else {
            0
        })
    }
}

/// The place `p` of a lowercase form comes from character `i` of the text.
pub open spec fn comes_from(text: Seq<char>, i: int, p: int) -> bool {
    p == lower_start(text, i) || lower_start(text, i) < p < lower_start(text, i + 1)
}

/// The first place at or after `i` in a text before which the lowercase form has
/// at least `p` characters, or the end of the text.
pub open spec fn lower_end(text: Seq<char>, i: int, p: int) -> int
    decreases text.len() - i,
{
    if i >= text.len() || lower_start(text, i) >= p {
        i
    } else {
        lower_end(text, i + 1, p)
    }
}

proof fn lemma_lower_end(text: Seq<char>, i: int, p: int)
    requires
        0 <= i <= text.len(),
    ensures
        i <= lower_end(text, i, p) <= text.len(),
    decreases text.len() - i,
{
    if i < text.len() && lower_start(text, i) < p {
        lemma_lower_end(text, i + 1, p);
    }
}

// ---- Matches --------------------------------------------------------------

/// A pattern as it is compared.
pub open spec fn folded(pattern: Seq<char>, case_sensitive: bool) -> Seq<char> {
    if case_sensitive {
        pattern
    } else {
        crate::text::lower_of(pattern)
    }
}

/// Where the match of a folded pattern ends that begins with character `i`.
pub open spec fn folded_end(
    text: Seq<char>,
    needle: Seq<char>,
    case_sensitive: bool,
    i: int,
) -> Option<int> {
    if case_sensitive {
        if crate::text::occurs_at(text, needle, i) {
            Some(i + needle.len())
        } else {
            None
        }
    } else {
        match crate::text::first_from(
            crate::text::lower_of(text),
            needle,
            lower_start(text, i) as int,
        ) {
            Some(p) if comes_from(text, i, p) => Some(lower_end(text, i, p + needle.len())),
            _ => None,
        }
    }
}

/// Where the match ends that begins with character `i` of a text; nothing where
/// none begins there. Without regard to case the match takes in every character
/// that part of it comes from.
pub open spec fn match_end(
    text: Seq<char>,
    pattern: Seq<char>,
    case_sensitive: bool,
    i: int,
) -> Option<int> {
    folded_end(text, folded(pattern, case_sensitive), case_sensitive, i)
}

/// The places at which a match can begin: at every character, and at the end of
/// an empty text.
pub open spec fn places(text: Seq<char>) -> nat {
    if text.len() == 0 {
        1
    } else {
        text.len()
    }
}

/// The places at which a folded pattern stands in a text.
pub open spec fn folded_places(
    text: Seq<char>,
    needle: Seq<char>,
    case_sensitive: bool,
) -> Seq<int> {
    Seq::new(places(text), |i: int| i).filter(
        |i: int| folded_end(text, needle, case_sensitive, i) is Some,
    )
}

/// The places at which a pattern stands in a text, overlapping ones too, from left
/// to right.
pub open spec fn match_places(
    text: Seq<char>,
    pattern: Seq<char>,
    case_sensitive: bool,
) -> Seq<int> {
    folded_places(text, folded(pattern, case_sensitive), case_sensitive)
}

/// The first match of a folded pattern at or after place `i`: where it begins, and
/// where it ends.
pub open spec fn folded_first(
    text: Seq<char>,
    needle: Seq<char>,
    case_sensitive: bool,
    i: int,
) -> Option<(int, int)>
    decreases places(text) - i,
{
    if i >= places(text) {
        None
    } else {
        match folded_end(text, needle, case_sensitive, i) {
            Some(end) => Some((i, end)),
            None => folded_first(text, needle, case_sensitive, i + 1),
        }
    }
}

/// The first match of a pattern in a text: where it begins, and where it ends.
pub open spec fn first_match(
    text: Seq<char>,
    pattern: Seq<char>,
    case_sensitive: bool,
) -> Option<(int, int)> {
    folded_first(text, folded(pattern, case_sensitive), case_sensitive, 0)
}

proof fn lemma_folded_end(text: Seq<char>, needle: Seq<char>, case_sensitive: bool, i: int)
    requires
        0 <= i <= text.len(),
    ensures
        folded_end(text, needle, case_sensitive, i) matches Some(end) ==> i <= end <= text.len(),
{
    if !case_sensitive {
        match crate::text::first_from(
            crate::text::lower_of(text),
            needle,
            lower_start(text, i) as int,
        ) {
            Some(p) => {
                lemma_lower_end(text, i, p + needle.len());
            },
            None => {},
        }
    }
}

proof fn lemma_folded_first(text: Seq<char>, needle: Seq<char>, case_sensitive: bool, i: int)
    requires
        0 <= i <= text.len(),
    ensures
        folded_first(text, needle, case_sensitive, i) matches Some((from, to)) ==> {
            &&& i <= from <= to <= text.len()
            &&& folded_end(text, needle, case_sensitive, from) == Some(to)
            &&& forall|k: int|
                i <= k < from ==> folded_end(text, needle, case_sensitive, k) is None
        },
        folded_first(text, needle, case_sensitive, i) is None ==> forall|k: int|
            i <= k < places(text) ==> folded_end(text, needle, case_sensitive, k) is None,
    decreases places(text) - i,
{
    if i < places(text) {
        lemma_folded_end(text, needle, case_sensitive, i);
        if folded_end(text, needle, case_sensitive, i) is None && i < text.len() {
            lemma_folded_first(text, needle, case_sensitive, i + 1);
        }
    }
}

// ---- Searching ------------------------------------------------------------

fn width_of(c: char) -> (r: usize)
    ensures
        r == width(c),
{
    if c <= '\u{7f}' {
        proof {
            assert(vstd::utf8::is_ascii_chars(seq![c]));
        }
        return 1;
    }
    let mut s = String::new();
    s.push(c);
    proof {
        assert(s@ =~= seq![c]);
    }
    chars_of(lowercase(s.as_str()).as_str()).len()
}

/// A text that is searched: its characters, and where case does not count, its
/// lowercase form and where each character begins in it.
pub struct Searched {
    chars: Vec<char>,
    lower: Vec<char>,
    starts: Vec<u128>,
    case_sensitive: bool,
}

impl Searched {
    /// The lowercase form belongs to the text.
    #[verifier::type_invariant]
    spec fn fits(self) -> bool {
        !self.case_sensitive ==> {
            &&& self.lower@ == crate::text::lower_of(self.chars@)
            &&& self.starts@.len() == self.chars@.len() + 1
            &&& forall|i: int|
                0 <= i <= self.chars@.len() ==> (#[trigger] self.starts@[i]) == lower_start(
                    self.chars@,
                    i,
                )
        }
    }

    /// The text.
    pub closed spec fn text(self) -> Seq<char> {
        self.chars@
    }

    /// Whether case counts.
    pub closed spec fn exact(self) -> bool {
        self.case_sensitive
    }

    /// Prepares a text to be searched.
    pub fn new(text: &str, case_sensitive: bool) -> (r: Searched)
        ensures
            r.text() == text@,
            r.exact() == case_sensitive,
    {
        let chars = chars_of(text);
        let mut starts: Vec<u128> = Vec::new();
        if case_sensitive {
            return Searched { chars, lower: Vec::new(), starts, case_sensitive };
        }
        let mut start: u128 = 0;
        starts.push(start);
        let mut i: usize = 0;
        while i < chars.len()
            invariant
                i <= chars@.len(),
                starts@.len() == i + 1,
                start == lower_start(chars@, i as int),
                start <= i * 0xffff_ffff_ffff_ffff,
                forall|k: int|
                    0 <= k <= i ==> (#[trigger] starts@[k]) == lower_start(chars@, k),
            decreases chars@.len() - i,
        {
            let w: usize = width_of(chars[i]);
            start = start + w as u128;
            starts.push(start);
            i += 1;
        }
        Searched { lower: chars_of(lowercase(text).as_str()), chars, starts, case_sensitive }
    }

    /// Where the match of a folded pattern ends that begins with character `i`.
    fn end_at(&self, needle: &Vec<char>, i: usize) -> (r: Option<usize>)
        requires
            i <= self.text().len(),
        ensures
            match r {
                Some(end) => folded_end(self.text(), needle@, self.exact(), i as int) == Some(
                    end as int,
                ) && i <= end <= self.text().len(),
                None => folded_end(self.text(), needle@, self.exact(), i as int) is None,
            },
    {
        proof {
            use_type_invariant(self);
        }
        let m = needle.len();
        if self.case_sensitive {
            if m <= self.chars.len() - i && chars_at(&self.chars, needle, i) {
                return Some(i + m);
            }
            return None;
        }
        let n = self.lower.len();
        let s = self.starts[i];
        if s > n as u128 {
            return None;
        }
        let from = s as usize;
        let stop = if i < self.chars.len() {
            self.starts[i + 1]
        } else {
            s
        };
        proof {
            crate::text::lemma_first_from(self.lower@, needle@, from as int);
            assert(stop == lower_start(self.chars@, i + 1));
        }
        if m > n - from {
            return None;
        }
        if chars_at(&self.lower, needle, from) {
            return Some(self.end_behind(i, from, m));
        }
        proof {
            assert(m > 0) by {
                if m == 0 {
                    assert(self.lower@.subrange(from as int, from as int) =~= needle@);
                }
            }
        }
        let mut p: usize = from + 1;
        while (p as u128) < stop && p < n && m <= n - p
            invariant
                from < p <= n,
                n == self.lower@.len(),
                m == needle@.len(),
                m > 0,
                self.fits(),
                !self.case_sensitive,
                i <= self.chars@.len(),
                self.starts@[i as int] == from,
                stop == lower_start(self.chars@, i + 1),
                forall|k: int|
                    from <= k < p ==> !crate::text::occurs_at(self.lower@, needle@, k),
            decreases n - p,
        {
            if chars_at(&self.lower, needle, p) {
                proof {
                    crate::text::lemma_first_from(self.lower@, needle@, from as int);
                }
                return Some(self.end_behind(i, p, m));
            }
            p += 1;
        }
        None
    }

    /// The end of a match of `m` characters at place `p` of the lowercase form.
    fn end_behind(&self, i: usize, p: usize, m: usize) -> (r: usize)
        requires
            i <= self.text().len(),
            !self.exact(),
        ensures
            r == lower_end(self.text(), i as int, p + m),
            i <= r <= self.text().len(),
    {
        proof {
            use_type_invariant(self);
        }
        let goal = p as u128 + m as u128;
        let mut e = i;
        while e < self.chars.len() && self.starts[e] < goal
            invariant
                i <= e <= self.chars@.len(),
                self.fits(),
                !self.case_sensitive,
                goal == p + m,
                lower_end(self.chars@, i as int, p + m) == lower_end(self.chars@, e as int, p + m),
            decreases self.chars@.len() - e,
        {
            e += 1;
        }
        e
    }

    /// The places at which a match can begin.
    fn place_count(&self) -> (r: usize)
        ensures
            r == places(self.text()),
    {
        if self.chars.len() == 0 {
            1
        } else {
            self.chars.len()
        }
    }

    /// Where the folded pattern stands in the text, overlapping matches too: where
    /// each match begins, and where it ends.
    pub fn find_all(&self, needle: &Vec<char>) -> (r: Vec<
        (usize, usize),
    >)
        ensures
            r@.len() == folded_places(self.text(), needle@, self.exact()).len(),
            forall|k: int|
                0 <= k < r@.len() ==> {
                    let at = folded_places(self.text(), needle@, self.exact())[k];
                    &&& (#[trigger] r@[k]).0 == at
                    &&& folded_end(self.text(), needle@, self.exact(), at) == Some(r@[k].1 as int)
                    &&& r@[k].0 <= r@[k].1 <= self.text().len()
                },
    {
        let n = self.place_count();
        let ghost begins = |i: int| folded_end(self.text(), needle@, self.exact(), i) is Some;
        let ghost all = Seq::new(places(self.text()), |i: int| i);
        let mut out: Vec<(usize, usize)> = Vec::new();
        let mut i: usize = 0;
        proof {
            reveal(Seq::filter);
            assert(all.take(0).filter(begins) =~= Seq::empty());
        }
        while i < n
            invariant
                i <= n,
                n == places(self.text()),
                begins == (|i: int| folded_end(self.text(), needle@, self.exact(), i) is Some),
                all == Seq::new(places(self.text()), |i: int| i),
                out@.len() == all.take(i as int).filter(begins).len(),
                forall|k: int|
                    0 <= k < out@.len() ==> {
                        let at = all.take(i as int).filter(begins)[k];
                        &&& (#[trigger] out@[k]).0 == at
                        &&& folded_end(self.text(), needle@, self.exact(), at) == Some(
                            out@[k].1 as int,
                        )
                        &&& out@[k].0 <= out@[k].1 <= self.text().len()
                    },
            decreases n - i,
        {
            proof {
                reveal(Seq::filter);
                assert(all.take(i + 1).drop_last() =~= all.take(i as int));
                assert(all.take(i + 1).last() == i);
            }
            match self.end_at(needle, i) {
                Some(end) => {
                    out.push((i, end));
                },
                None => {},
            }
            i += 1;
        }
        proof {
            assert(all.take(n as int) =~= all);
        }
        out
    }

    /// The first match of the folded pattern: where it begins, and where it ends.
    pub fn find_first(&self, needle: &Vec<char>) -> (r: Option<
        (usize, usize),
    >)
        ensures
            match r {
                Some((from, to)) => folded_first(self.text(), needle@, self.exact(), 0) == Some(
                    (from as int, to as int),
                ),
                None => folded_first(self.text(), needle@, self.exact(), 0) is None,
            },
    {
        let n = self.place_count();
        let mut i: usize = 0;
        while i < n
            invariant
                i <= n,
                n == places(self.text()),
                folded_first(self.text(), needle@, self.exact(), 0) == folded_first(
                    self.text(),
                    needle@,
                    self.exact(),
                    i as int,
                ),
            decreases n - i,
        {
            match self.end_at(needle, i) {
                Some(end) => {
                    return Some((i, end));
                },
                None => {},
            }
            i += 1;
        }
        None
    }
}

// ---- Laws -----------------------------------------------------------------

/// A match lies in the text.
pub proof fn law_match_lies_in_the_text(
    text: Seq<char>,
    pattern: Seq<char>,
    case_sensitive: bool,
    i: int,
)
    requires
        0 <= i <= text.len(),
    ensures
        match_end(text, pattern, case_sensitive, i) matches Some(end) ==> i <= end <= text.len(),
{
    lemma_folded_end(text, folded(pattern, case_sensitive), case_sensitive, i);
}

/// The matches of a pattern begin where it stands in the text, overlapping ones
/// too, from left to right, and nowhere else.
pub proof fn law_places_are_the_occurrences(
    text: Seq<char>,
    pattern: Seq<char>,
    case_sensitive: bool,
)
    ensures
        forall|i: int| #[trigger]
            match_places(text, pattern, case_sensitive).contains(i) <==> 0 <= i < places(text)
                && match_end(text, pattern, case_sensitive, i) is Some,
        forall|j: int, k: int|
            0 <= j < k < match_places(text, pattern, case_sensitive).len() ==> match_places(
                text,
                pattern,
                case_sensitive,
            )[j] < match_places(text, pattern, case_sensitive)[k],
{
    let needle = folded(pattern, case_sensitive);
    let begins = |i: int| folded_end(text, needle, case_sensitive, i) is Some;
    let all = Seq::new(places(text), |i: int| i);
    let found = match_places(text, pattern, case_sensitive);
    assert forall|i: int| #[trigger]
        found.contains(i) <==> 0 <= i < places(text) && match_end(
            text,
            pattern,
            case_sensitive,
            i,
        ) is Some by {
        if found.contains(i) {
            all.lemma_filter_contains_rev(begins, i);
            let k = choose|k: int| 0 <= k < found.len() && found[k] == i;
            all.lemma_filter_pred(begins, k);
        }
        if 0 <= i < places(text) && begins(i) {
            assert(all[i] == i);
            all.lemma_filter_contains(begins, i);
        }
    }
    lemma_filter_ascends(all, begins);
}

/// What a filter lets pass of numbers that ascend ascends.
proof fn lemma_filter_ascends(s: Seq<int>, keep: spec_fn(int) -> bool)
    requires
        forall|j: int, k: int| 0 <= j < k < s.len() ==> s[j] < s[k],
    ensures
        forall|j: int, k: int|
            0 <= j < k < s.filter(keep).len() ==> s.filter(keep)[j] < s.filter(keep)[k],
    decreases s.len(),
{
    reveal(Seq::filter);
    if s.len() > 0 {
        let init = s.drop_last();
        let kept = init.filter(keep);
        lemma_filter_ascends(init, keep);
        assert forall|j: int| 0 <= j < kept.len() implies (#[trigger] kept[j]) < s.last() by {
            assert(kept.contains(kept[j]));
            init.lemma_filter_contains_rev(keep, kept[j]);
            let k = choose|k: int| 0 <= k < init.len() && init[k] == kept[j];
            assert(s[k] < s[s.len() - 1]);
        }
    }
}

/// The first match is the first of all matches.
pub proof fn law_first_match_is_first(text: Seq<char>, pattern: Seq<char>, case_sensitive: bool)
    ensures
        match first_match(text, pattern, case_sensitive) {
            Some((from, to)) => {
                &&& 0 <= from <= to <= text.len()
                &&& match_end(text, pattern, case_sensitive, from) == Some(to)
                &&& forall|k: int|
                    0 <= k < from ==> match_end(text, pattern, case_sensitive, k) is None
            },
            None => forall|k: int|
                0 <= k < places(text) ==> match_end(text, pattern, case_sensitive, k) is None,
        },
{
    lemma_folded_first(text, folded(pattern, case_sensitive), case_sensitive, 0);
}

/// In ASCII text every character is one in lowercase.
proof fn lemma_ascii_start(text: Seq<char>, i: int)
    requires
        vstd::utf8::is_ascii_chars(text),
        0 <= i <= text.len(),
    ensures
        lower_start(text, i) == i,
    decreases i,
{
    if i > 0 {
        lemma_ascii_start(text, i - 1);
        assert(vstd::utf8::is_ascii_chars(seq![text[i - 1]]));
    }
}

proof fn lemma_ascii_end(text: Seq<char>, i: int, p: int)
    requires
        vstd::utf8::is_ascii_chars(text),
        0 <= i <= p <= text.len(),
    ensures
        lower_end(text, i, p) == p,
    decreases p - i,
{
    lemma_ascii_start(text, i);
    if i < p {
        lemma_ascii_end(text, i + 1, p);
    }
}

/// In ASCII text an ASCII pattern stands, without regard to case, where the text
/// with `A`..`Z` in lowercase has the pattern with them in lowercase; the match is
/// as long as the pattern.
pub proof fn law_ascii_matches(text: Seq<char>, pattern: Seq<char>, i: int)
    requires
        vstd::utf8::is_ascii_chars(text),
        vstd::utf8::is_ascii_chars(pattern),
        0 <= i < places(text),
    ensures
        match_end(text, pattern, false, i) == (if crate::text::occurs_at(
            crate::text::ascii_lowercase(text),
            crate::text::ascii_lowercase(pattern),
            i,
        ) {
            Some(i + pattern.len())
        } else {
            None
        }),
{
    let hay = crate::text::ascii_lowercase(text);
    let needle = crate::text::ascii_lowercase(pattern);
    if text.len() > 0 {
        lemma_ascii_start(text, i);
        lemma_ascii_start(text, i + 1);
    }
    crate::text::lemma_first_from(hay, needle, i);
    if crate::text::occurs_at(hay, needle, i) {
        lemma_ascii_end(text, i, i + pattern.len());
    }
}

} // verus!
