//! Finding a pattern in the lines of a text.

use crate::folding::Searched;
use crate::text::{chars_of, copied, lines, lowercase, string_of};
use crate::types::{Match, MatchView};
use regex::{Regex, RegexBuilder};
use vstd::prelude::*;

verus! {

// ---- Literal patterns -----------------------------------------------------

/// The match of a literal pattern that begins with character `i` of a line.
pub open spec fn match_at(
    line: Seq<char>,
    pattern: Seq<char>,
    case_sensitive: bool,
    i: int,
) -> MatchView {
    MatchView {
        matched_text: line.subrange(
            i,
            crate::folding::match_end(line, pattern, case_sensitive, i)->0,
        ),
        context: line,
    }
}

/// The matches of a literal pattern in one line: one for each place at which it
/// stands, overlapping ones too.
pub open spec fn literal_line_matches(
    line: Seq<char>,
    pattern: Seq<char>,
    case_sensitive: bool,
) -> Seq<MatchView> {
    crate::folding::match_places(line, pattern, case_sensitive).map_values(
        |i: int| match_at(line, pattern, case_sensitive, i),
    )
}

/// The matches of a literal pattern in a text, line by line.
pub open spec fn literal_matches(
    text: Seq<char>,
    pattern: Seq<char>,
    case_sensitive: bool,
) -> Seq<MatchView> {
    crate::text::lines_of(text).flat_map(
        |line: Seq<char>| literal_line_matches(line, pattern, case_sensitive),
    )
}

/// Each match is a part of the line that it was found in.
pub open spec fn found_in_context(matches: Seq<MatchView>) -> bool {
    forall|k: int|
        0 <= k < matches.len() ==> crate::text::occurs_in(
            (#[trigger] matches[k]).context,
            matches[k].matched_text,
        )
}

/// Finds a literal pattern in one line, and appends what it found. `needle` is the
/// pattern as it is compared.
fn find_in_line(
    line: &str,
    needle: &Vec<char>,
    Ghost(pattern): Ghost<Seq<char>>,
    case_sensitive: bool,
    out: &mut Vec<Match>,
)
    requires
        needle@ == crate::folding::folded(pattern, case_sensitive),
        found_in_context(crate::types::match_views(old(out)@)),
    ensures
        crate::types::match_views(final(out)@) == crate::types::match_views(old(out)@)
            + literal_line_matches(line@, pattern, case_sensitive),
        found_in_context(crate::types::match_views(final(out)@)),
{
    let found = Searched::new(line, case_sensitive).find_all(needle);
    let chars = chars_of(line);
    let ghost first = crate::types::match_views(out@);
    let ghost here = literal_line_matches(line@, pattern, case_sensitive);
    proof {
        assert(first + here.take(0) =~= first);
    }
    let mut k: usize = 0;
    while k < found.len()
        invariant
            k <= found@.len(),
            chars@ == line@,
            here == literal_line_matches(line@, pattern, case_sensitive),
            found@.len() == here.len(),
            forall|j: int|
                0 <= j < found@.len() ==> {
                    let at = crate::folding::match_places(line@, pattern, case_sensitive)[j];
                    &&& (#[trigger] found@[j]).0 == at
                    &&& crate::folding::match_end(line@, pattern, case_sensitive, at) == Some(
                        found@[j].1 as int,
                    )
                    &&& found@[j].0 <= found@[j].1 <= line@.len()
                },
            crate::types::match_views(out@) == first + here.take(k as int),
            found_in_context(crate::types::match_views(out@)),
        decreases found@.len() - k,
    {
        let (from, to) = found[k];
        let ghost before = out@;
        out.push(Match::new(string_of(&chars, from, to), copied(line)));
        proof {
            let m = match_at(line@, pattern, case_sensitive, from as int);
            assert(here[k as int] == m);
            assert(crate::types::match_views(out@) =~= crate::types::match_views(before).push(m));
            assert(first + here.take(k + 1) =~= (first + here.take(k as int)).push(m));
            assert(crate::text::occurs_at(line@, m.matched_text, from as int));
        }
        k += 1;
    }
    proof {
        assert(here.take(here.len() as int) =~= here);
    }
}

// ---- Regular expressions --------------------------------------------------

/// A compiled regular expression of the `regex` crate.
#[verifier::external_type_specification]
#[verifier::external_body]
pub struct ExRegex(regex::Regex);

/// What the `regex` crate says of a pattern that it does not accept.
#[verifier::external_type_specification]
#[verifier::external_body]
pub struct ExRegexError(regex::Error);

/// The expression that `regex::RegexBuilder` compiles from a pattern that it
/// accepts, with the flags `case_insensitive` and `multi_line`.
pub uninterp spec fn compiled(pattern: Seq<char>, ignore_case: bool, multi_line: bool) -> Regex;

/// The error is one that `regex::RegexBuilder` gives for a pattern and two flags.
pub uninterp spec fn refused(
    pattern: Seq<char>,
    ignore_case: bool,
    multi_line: bool,
    error: regex::Error,
) -> bool;

/// The texts of the successive matches that `Regex::find_iter` yields.
pub uninterp spec fn found_by(regex: Regex, line: Seq<char>) -> Seq<Seq<char>>;

/// The text of an error of the `regex` crate.
pub uninterp spec fn error_text(error: regex::Error) -> Seq<char>;

/// `regex::RegexBuilder`, from `new` over `case_insensitive` and `multi_line` to
/// `build`. Of a pattern that is accepted, what comes out is a function of the
/// pattern and the two flags; an error is one for that pattern and those flags.
/// Which patterns are accepted is not said here: it rests on the grammar of the
/// crate and on a size limit that is counted in bytes of the machine.
#[verifier::external_body]
fn compile(pattern: &str, ignore_case: bool, multi_line: bool) -> (r: Result<Regex, regex::Error>)
    ensures
        r matches Ok(regex) ==> regex == compiled(pattern@, ignore_case, multi_line),
        r matches Err(error) ==> refused(pattern@, ignore_case, multi_line, error),
{
    RegexBuilder::new(pattern).case_insensitive(ignore_case).multi_line(multi_line).build()
}

/// `Regex::find_iter`: the texts of the successive non-overlapping matches. The
/// text of a match is a part of the text that was searched.
#[verifier::external_body]
fn find_all(regex: &Regex, line: &str) -> (r: Vec<String>)
    ensures
        crate::text::views(r@) == found_by(*regex, line@),
        forall|k: int| 0 <= k < r@.len() ==> crate::text::occurs_in(line@, (#[trigger] r@[k])@),
{
    regex.find_iter(line).map(|m| m.as_str().to_string()).collect()
}

/// The `Display` text of a `regex::Error`.
#[verifier::external_body]
fn text_of_error(error: &regex::Error) -> (r: String)
    ensures
        r@ == error_text(*error),
{
    error.to_string()
}

/// A pattern that cannot be searched for.
#[derive(Debug)]
pub struct PatternError {
    /// What is wrong with the pattern.
    pub message: String,
}

/// The message is what is said of a text that is refused as a regular expression
/// in multi-line mode.
pub open spec fn refusal(pattern: Seq<char>, ignore_case: bool, message: Seq<char>) -> bool {
    exists|error: regex::Error| #[trigger]
        refused(pattern, ignore_case, true, error) && message == error_text(error)
}

/// The message is what is said of a text that cannot be searched for.
pub open spec fn refused_with(
    pattern: Seq<char>,
    use_regex: bool,
    case_sensitive: bool,
    message: Seq<char>,
) -> bool {
    use_regex && refusal(pattern, !case_sensitive, message)
}

/// The matches of a regular expression in one line.
pub open spec fn regex_line_matches(regex: Regex, line: Seq<char>) -> Seq<MatchView> {
    found_by(regex, line).map_values(
        |found: Seq<char>| MatchView { matched_text: found, context: line },
    )
}

/// The matches of a regular expression in a text, line by line.
pub open spec fn regex_matches(regex: Regex, text: Seq<char>) -> Seq<MatchView> {
    crate::text::lines_of(text).flat_map(|line: Seq<char>| regex_line_matches(regex, line))
}

/// Finds a regular expression in every line of a text.
pub fn find_regex(text: &str, regex: &Regex) -> (r: Vec<Match>)
    ensures
        crate::types::match_views(r@) == regex_matches(*regex, text@),
        found_in_context(crate::types::match_views(r@)),
{
    let all = lines(text);
    let mut out: Vec<Match> = Vec::new();
    let ghost of_line = |line: Seq<char>| regex_line_matches(*regex, line);
    let ghost expected = crate::text::lines_of(text@);
    proof {
        assert(crate::types::match_views(out@) =~= expected.take(0).flat_map(of_line));
    }
    let mut i: usize = 0;
    while i < all.len()
        invariant
            i <= all@.len(),
            expected == crate::text::lines_of(text@),
            crate::text::views(all@) == expected,
            of_line == (|line: Seq<char>| regex_line_matches(*regex, line)),
            crate::types::match_views(out@) == expected.take(i as int).flat_map(of_line),
            found_in_context(crate::types::match_views(out@)),
        decreases all@.len() - i,
    {
        proof {
            assert(expected[i as int] == all@[i as int]@);
            expected.lemma_flat_map_take_append(of_line, i as int);
        }
        let line = all[i].as_str();
        let found = find_all(regex, line);
        let ghost before = crate::types::match_views(out@);
        let ghost here = regex_line_matches(*regex, line@);
        proof {
            assert(before + here.take(0) =~= before);
        }
        let mut j: usize = 0;
        while j < found.len()
            invariant
                j <= found@.len(),
                crate::text::views(found@) == found_by(*regex, line@),
                forall|k: int|
                    0 <= k < found@.len() ==> crate::text::occurs_in(
                        line@,
                        (#[trigger] found@[k])@,
                    ),
                here == regex_line_matches(*regex, line@),
                here.len() == found@.len(),
                crate::types::match_views(out@) == before + here.take(j as int),
                found_in_context(crate::types::match_views(out@)),
            decreases found@.len() - j,
        {
            let ghost earlier = out@;
            out.push(Match::new(found[j].clone(), copied(line)));
            proof {
                let m = MatchView { matched_text: found@[j as int]@, context: line@ };
                assert(crate::types::match_views(out@) =~= crate::types::match_views(earlier).push(m));
                assert(here[j as int] == m) by {
                    assert(crate::text::views(found@)[j as int] == found@[j as int]@);
                }
                assert(before + here.take(j + 1) =~= (before + here.take(j as int)).push(m));
            }
            j += 1;
        }
        proof {
            assert(here.take(here.len() as int) =~= here);
        }
        i += 1;
    }
    proof {
        assert(expected.take(expected.len() as int) =~= expected);
    }
    out
}

// ---- Patterns -------------------------------------------------------------

/// A literal text to search for, with its lowercase form.
pub struct LiteralPattern {
    text: String,
    lowercase: String,
}

impl LiteralPattern {
    /// The lowercase form belongs to the text.
    #[verifier::type_invariant]
    spec fn lowercase_fits(self) -> bool {
        self.lowercase@ == crate::text::lower_of(self.text@)
    }

    /// The text that is searched for.
    pub closed spec fn pattern(self) -> Seq<char> {
        self.text@
    }

    /// The pattern for a text.
    pub fn new(text: &str) -> (r: LiteralPattern)
        ensures
            r.pattern() == text@,
    {
        LiteralPattern { text: copied(text), lowercase: lowercase(text) }
    }

    /// The matches in a text.
    pub fn find(&self, case_sensitive: bool, text: &str) -> (r: Vec<Match>)
        ensures
            crate::types::match_views(r@) == literal_matches(text@, self.pattern(), case_sensitive),
            found_in_context(crate::types::match_views(r@)),
    {
        proof {
            use_type_invariant(self);
        }
        let needle = if case_sensitive {
            chars_of(self.text.as_str())
        } else {
            chars_of(self.lowercase.as_str())
        };
        let all = lines(text);
        let ghost pattern = self.pattern();
        let mut out: Vec<Match> = Vec::new();
        let ghost of_line = |line: Seq<char>| literal_line_matches(line, pattern, case_sensitive);
        let ghost expected = crate::text::lines_of(text@);
        proof {
            assert(crate::types::match_views(out@) =~= expected.take(0).flat_map(of_line));
        }
        let mut i: usize = 0;
        while i < all.len()
            invariant
                i <= all@.len(),
                expected == crate::text::lines_of(text@),
                crate::text::views(all@) == expected,
                needle@ == crate::folding::folded(pattern, case_sensitive),
                of_line == (|line: Seq<char>| literal_line_matches(line, pattern, case_sensitive)),
                crate::types::match_views(out@) == expected.take(i as int).flat_map(of_line),
                found_in_context(crate::types::match_views(out@)),
            decreases all@.len() - i,
        {
            proof {
                assert(expected[i as int] == all@[i as int]@);
                expected.lemma_flat_map_take_append(of_line, i as int);
            }
            find_in_line(all[i].as_str(), &needle, Ghost(pattern), case_sensitive, &mut out);
            i += 1;
        }
        proof {
            assert(expected.take(expected.len() as int) =~= expected);
        }
        out
    }
}

/// What is searched for: a regular expression or a literal text.
pub enum SearchPattern {
    Regex(Regex),
    Literal(LiteralPattern),
}

impl SearchPattern {
    /// The matches in `text`.
    pub open spec fn matches_of(self, case_sensitive: bool, text: Seq<char>) -> Seq<MatchView> {
        match self {
            SearchPattern::Regex(regex) => regex_matches(regex, text),
            SearchPattern::Literal(literal) => literal_matches(
                text,
                literal.pattern(),
                case_sensitive,
            ),
        }
    }

    /// It is made from the text `pattern`: as a regular expression in multi-line
    /// mode, or as a literal.
    pub open spec fn made_from(
        self,
        pattern: Seq<char>,
        use_regex: bool,
        case_sensitive: bool,
    ) -> bool {
        match self {
            SearchPattern::Regex(regex) => use_regex && regex == compiled(
                pattern,
                !case_sensitive,
                true,
            ),
            SearchPattern::Literal(literal) => !use_regex && literal.pattern() == pattern,
        }
    }

    /// The pattern for what compiling a regular expression gave.
    pub fn from_compiled(result: Result<Regex, regex::Error>) -> (r: Result<
        SearchPattern,
        PatternError,
    >)
        ensures
            match result {
                Ok(regex) => r == Ok::<SearchPattern, PatternError>(SearchPattern::Regex(regex)),
                Err(error) => r matches Err(e) && e.message@ == error_text(error),
            },
    {
        match result {
            Ok(regex) => Ok(SearchPattern::Regex(regex)),
            Err(error) => Err(PatternError { message: text_of_error(&error) }),
        }
    }

    /// Makes a pattern from a text: a regular expression in multi-line mode, or
    /// a literal. A literal always succeeds.
    pub fn new(pattern: &str, use_regex: bool, case_sensitive: bool) -> (r: Result<
        SearchPattern,
        PatternError,
    >)
        ensures
            match r {
                Ok(p) => p.made_from(pattern@, use_regex, case_sensitive),
                Err(e) => refused_with(pattern@, use_regex, case_sensitive, e.message@),
            },
    {
        if use_regex {
            SearchPattern::from_compiled(compile(pattern, !case_sensitive, true))
        } else {
            Ok(SearchPattern::Literal(LiteralPattern::new(pattern)))
        }
    }

    /// The matches in a text.
    pub fn find(&self, case_sensitive: bool, text: &str) -> (r: Vec<Match>)
        ensures
            crate::types::match_views(r@) == self.matches_of(case_sensitive, text@),
            found_in_context(crate::types::match_views(r@)),
    {
        match self {
            SearchPattern::Regex(regex) => find_regex(text, regex),
            SearchPattern::Literal(literal) => literal.find(case_sensitive, text),
        }
    }
}

// ---- Laws -----------------------------------------------------------------

/// A case-sensitive literal search finds the pattern itself, once for each place
/// at which it stands in the line.
pub proof fn law_case_sensitive_matches_are_the_pattern(line: Seq<char>, pattern: Seq<char>)
    ensures
        forall|k: int|
            0 <= k < literal_line_matches(line, pattern, true).len() ==> (
            #[trigger] literal_line_matches(line, pattern, true)[k]) == (MatchView {
                matched_text: pattern,
                context: line,
            }),
        pattern.len() > 0 ==> forall|i: int| #[trigger]
            crate::folding::match_places(line, pattern, true).contains(i)
                <==> crate::text::occurs_at(line, pattern, i),
{
    let found = crate::folding::match_places(line, pattern, true);
    crate::folding::law_places_are_the_occurrences(line, pattern, true);
    assert forall|k: int| 0 <= k < literal_line_matches(line, pattern, true).len() implies (
    #[trigger] literal_line_matches(line, pattern, true)[k]) == (MatchView {
        matched_text: pattern,
        context: line,
    }) by {
        assert(found.contains(found[k]));
        assert(crate::text::occurs_at(line, pattern, found[k]));
    }
}

/// A text that holds the pattern in one of its lines has a match.
pub proof fn law_what_stands_there_is_found(
    text: Seq<char>,
    pattern: Seq<char>,
    case_sensitive: bool,
    k: int,
    i: int,
)
    requires
        0 <= k < crate::text::lines_of(text).len(),
        0 <= i < crate::folding::places(crate::text::lines_of(text)[k]),
        crate::folding::match_end(
            crate::text::lines_of(text)[k],
            pattern,
            case_sensitive,
            i,
        ) is Some,
    ensures
        literal_matches(text, pattern, case_sensitive).contains(
            match_at(crate::text::lines_of(text)[k], pattern, case_sensitive, i),
        ),
{
    let all = crate::text::lines_of(text);
    let of_line = |line: Seq<char>| literal_line_matches(line, pattern, case_sensitive);
    let line = all[k];
    let found = crate::folding::match_places(line, pattern, case_sensitive);
    crate::folding::law_places_are_the_occurrences(line, pattern, case_sensitive);
    assert(found.contains(i));
    let j = choose|j: int| 0 <= j < found.len() && found[j] == i;
    assert(of_line(line)[j] == match_at(line, pattern, case_sensitive, i));
    lemma_flat_map_holds(all, of_line, k, j);
}

/// What a part of a sequence is mapped to is in the whole.
proof fn lemma_flat_map_holds(
    all: Seq<Seq<char>>,
    of_line: spec_fn(Seq<char>) -> Seq<MatchView>,
    k: int,
    j: int,
)
    requires
        0 <= k < all.len(),
        0 <= j < of_line(all[k]).len(),
    ensures
        all.flat_map(of_line).contains(of_line(all[k])[j]),
    decreases all.len(),
{
    let init = all.drop_last();
    let last = all.last();
    init.lemma_flat_map_push(of_line, last);
    assert(init.push(last) =~= all);
    let whole = all.flat_map(of_line);
    let before = init.flat_map(of_line);
    if k < init.len() {
        lemma_flat_map_holds(init, of_line, k, j);
        let at = choose|at: int| 0 <= at < before.len() && before[at] == of_line(all[k])[j];
        assert(whole[at] == before[at]);
    } else {
        assert(whole[before.len() + j] == of_line(all[k])[j]);
    }
}

/// Every match, of a literal or of a regular expression, has a line of the text
/// as its context.
pub proof fn law_context_is_a_line(
    pattern: SearchPattern,
    case_sensitive: bool,
    text: Seq<char>,
)
    ensures
        forall|k: int|
            0 <= k < pattern.matches_of(case_sensitive, text).len()
                ==> crate::text::lines_of(text).contains(
                (#[trigger] pattern.matches_of(case_sensitive, text)[k]).context,
            ),
{
    let all = crate::text::lines_of(text);
    match pattern {
        SearchPattern::Regex(regex) => {
            lemma_contexts(all, |line: Seq<char>| regex_line_matches(regex, line));
        },
        SearchPattern::Literal(literal) => {
            lemma_contexts(
                all,
                |line: Seq<char>| literal_line_matches(line, literal.pattern(), case_sensitive),
            );
        },
    }
}

proof fn lemma_contexts(all: Seq<Seq<char>>, of_line: spec_fn(Seq<char>) -> Seq<MatchView>)
    requires
        forall|line: Seq<char>, k: int|
            0 <= k < of_line(line).len() ==> (#[trigger] of_line(line)[k]).context == line,
    ensures
        forall|k: int|
            0 <= k < all.flat_map(of_line).len() ==> all.contains(
                (#[trigger] all.flat_map(of_line)[k]).context,
            ),
    decreases all.len(),
{
    if all.len() > 0 {
        let init = all.drop_last();
        let last = all.last();
        lemma_contexts(init, of_line);
        init.lemma_flat_map_push(of_line, last);
        assert(init.push(last) =~= all);
        let found = all.flat_map(of_line);
        assert forall|k: int| 0 <= k < found.len() implies all.contains(
            (#[trigger] found[k]).context,
        ) by {
            let before = init.flat_map(of_line);
            if k < before.len() {
                assert(found[k] == before[k]);
                let j = choose|j: int| 0 <= j < init.len() && init[j] == before[k].context;
                assert(all[j] == found[k].context);
            } else {
                assert(found[k] == of_line(last)[k - before.len()]);
                assert(all[all.len() - 1] == found[k].context);
            }
        }
    } else {
        assert(all.flat_map(of_line) =~= Seq::empty());
    }
}

} // verus!
