//! What the main functions hand out.

use crate::matching::{LiteralPattern, PatternError, SearchPattern};
use crate::search::{SearchEngine, WalkedFile};
use crate::types::{Match, SearchResult};
use regex::Regex;
use vstd::prelude::*;

verus! {

proof fn lemma_views(matches: Seq<Match>)
    ensures
        crate::types::match_views(matches).len() == matches.len(),
        forall|k: int|
            0 <= k < matches.len() ==> (#[trigger] matches[k]).matched_text@
                == crate::types::match_views(matches)[k].matched_text && matches[k].context@
                == crate::types::match_views(matches)[k].context,
{
}

/// Searching a text for a regular expression gives, for every line, all that the
/// expression finds in it, with the line as context, behind what the lines before it
/// gave, and nothing more.
pub proof fn law_find_regex(text: &str, regex: Regex, r: Vec<Match>, k: int)
    requires
        call_ensures(crate::matching::find_regex, (text, &regex), r),
        0 <= k < crate::text::lines_of(text@).len(),
    ensures
        ({
            let all = crate::text::lines_of(text@);
            let count = |n: nat, line: Seq<char>| n + crate::matching::found_by(regex, line).len();
            let start = all.take(k).fold_left(0nat, count) as int;
            &&& r@.len() == all.fold_left(0nat, count)
            &&& start + crate::matching::found_by(regex, all[k]).len() <= r@.len()
            &&& forall|j: int|
                0 <= j < crate::matching::found_by(regex, all[k]).len() ==> (
                #[trigger] r@[start + j]).matched_text@ == crate::matching::found_by(
                    regex,
                    all[k],
                )[j] && r@[start + j].context@ == all[k]
        }),
{
    crate::laws::matches::law_regex_searches_every_line(regex, text@, k);
    lemma_views(r@);
    let all = crate::text::lines_of(text@);
    let count = |n: nat, line: Seq<char>| n + crate::matching::found_by(regex, line).len();
    let start = all.take(k).fold_left(0nat, count) as int;
    let matches = crate::matching::regex_matches(regex, text@);
    assert forall|j: int| 0 <= j < crate::matching::found_by(regex, all[k]).len() implies (
    #[trigger] r@[start + j]).matched_text@ == crate::matching::found_by(regex, all[k])[j]
        && r@[start + j].context@ == all[k] by {
        assert(matches[start + j].context == all[k]);
    }
}

/// Searching a line for a literal pattern with regard to case gives one match for each
/// place at which the pattern stands in it, and each of them is the pattern.
pub proof fn law_find_literal(pattern: LiteralPattern, text: &str, r: Vec<Match>)
    requires
        call_ensures(LiteralPattern::find, (&pattern, true, text), r),
        pattern.pattern().len() > 0,
        !text@.contains('\n'),
    ensures
        r@.len() == Seq::new(text@.len(), |i: int| i).filter(
            |i: int|
                i + pattern.pattern().len() <= text@.len() && text@.subrange(
                    i,
                    i + pattern.pattern().len(),
                ) == pattern.pattern(),
        ).len(),
        forall|k: int|
            0 <= k < r@.len() ==> (#[trigger] r@[k]).matched_text@ == pattern.pattern()
                && r@[k].context@ == text@,
{
    let p = pattern.pattern();
    lemma_views(r@);
    if text@.len() > 0 {
        crate::laws::matches::law_literal_in_one_line(text@, p, true);
        crate::laws::matches::law_one_match_for_each_place(text@, p);
        crate::matching::law_case_sensitive_matches_are_the_pattern(text@, p);
    } else {
        crate::laws::lines::law_a_line_is_itself(text@);
        assert(text@ =~= Seq::<char>::empty());
        let of_line = |line: Seq<char>| crate::matching::literal_line_matches(line, p, true);
        assert(crate::text::lines_of(text@).flat_map(of_line) =~= Seq::empty());
        reveal(Seq::filter);
    }
}

/// A search pattern finds what its expression or its literal finds.
pub proof fn law_find(pattern: SearchPattern, case_sensitive: bool, text: &str, r: Vec<Match>)
    requires
        call_ensures(SearchPattern::find, (&pattern, case_sensitive, text), r),
    ensures
        ({
            let found = match pattern {
                SearchPattern::Regex(regex) => crate::matching::regex_matches(regex, text@),
                SearchPattern::Literal(literal) => crate::matching::literal_matches(
                    text@,
                    literal.pattern(),
                    case_sensitive,
                ),
            };
            &&& r@.len() == found.len()
            &&& forall|k: int|
                0 <= k < r@.len() ==> (#[trigger] r@[k]).matched_text@ == found[k].matched_text
                    && r@[k].context@ == found[k].context
        }),
{
    lemma_views(r@);
}

/// The lines that a text is split into are its lines.
pub proof fn law_lines(text: &str, r: Vec<String>)
    requires
        call_ensures(crate::text::lines, (text,), r),
    ensures
        r@.len() == crate::text::lines_of(text@).len(),
        forall|k: int|
            0 <= k < r@.len() ==> (#[trigger] r@[k])@ == crate::text::lines_of(text@)[k],
{
    assert forall|k: int| 0 <= k < r@.len() implies (#[trigger] r@[k])@ == crate::text::lines_of(
        text@,
    )[k] by {
        assert(crate::text::views(r@)[k] == r@[k]@);
    }
    assert(crate::text::views(r@).len() == r@.len());
}

/// A file with one of the configured extensions, whichever it is, is searched, if it is
/// a text file, not binary, and no index file.
pub proof fn law_configured_extension_is_searched(
    engine: SearchEngine,
    file: WalkedFile,
    index_canonical: Option<String>,
    r: bool,
    k: int,
)
    requires
        call_ensures(SearchEngine::select_file, (&engine, &file, &index_canonical), r),
        engine.config.extensions@.len() > 0,
        index_canonical is None,
        crate::paths::file_name_of(file.path@) != Some(".argus_index.json"@),
        engine.index_config.index_file is None,
        crate::paths::components_of(file.path@) != crate::paths::components_of(
            crate::paths::joined_path(engine.config.directory@, ".argus_index.json"@),
        ),
        !file.binary,
        engine.config.ocr.enabled,
    ensures
        crate::paths::extension_of(file.path@) is None ==> !r,
        crate::paths::extension_of(file.path@) matches Some(ext) ==> {
            &&& 0 <= k < engine.config.extensions@.len() && crate::text::without_leading(
                crate::text::lower_of(engine.config.extensions@[k]@),
                '.',
            ) == crate::text::lower_of(ext) ==> r
            &&& (forall|j: int|
                0 <= j < engine.config.extensions@.len() ==> crate::text::without_leading(
                    crate::text::lower_of((#[trigger] engine.config.extensions@[j])@),
                    '.',
                ) != crate::text::lower_of(ext)) ==> !r
        },
{
    crate::laws::files::law_extension_filter(engine, file.path@);
    crate::laws::files::law_which_files_are_searched(engine, file, None);
}

/// Of the files of a walk those are searched that the engine selects, in their order.
pub proof fn law_collect_files(
    engine: SearchEngine,
    walked: Vec<WalkedFile>,
    index_canonical: Option<String>,
    r: Vec<String>,
)
    requires
        call_ensures(SearchEngine::collect_files, (&engine, &walked, &index_canonical), r),
    ensures
        ({
            let canonical = match index_canonical {
                Some(path) => Some(path@),
                None => None,
            };
            let kept = walked@.filter(|f: WalkedFile| engine.selects(f, canonical));
            &&& r@.len() == kept.len()
            &&& forall|i: int| 0 <= i < kept.len() ==> (#[trigger] r@[i])@ == kept[i].path@
        }),
{
    let canonical = crate::paths::opt_view(index_canonical);
    let kept = walked@.filter(|f: WalkedFile| engine.selects(f, canonical));
    let paths = crate::text::views(r@);
    assert(paths == kept.map_values(|f: WalkedFile| f.path@));
    assert(paths.len() == r@.len());
    assert forall|i: int| 0 <= i < kept.len() implies (#[trigger] r@[i])@ == kept[i].path@ by {
        assert(paths[i] == r@[i]@);
    }
}

/// The results that are shown have the most matches, and of as many the most
/// confidence; the first has the most of all.
pub proof fn law_limited(found: Vec<SearchResult>, limit: usize, r: Vec<SearchResult>)
    requires
        call_ensures(crate::search::limited, (found, limit), r),
    ensures
        r@.len() == (if found@.len() < limit {
            found@.len()
        } else {
            limit as nat
        }),
        forall|i: int, j: int|
            0 <= i < j < r@.len() ==> (#[trigger] r@[i]).matches@.len() >= (
            #[trigger] r@[j]).matches@.len() && (r@[i].matches@.len() == r@[j].matches@.len()
                ==> r@[i].confidence >= r@[j].confidence),
        forall|x: SearchResult, k: int|
            #![trigger found@.contains(x), r@[k]]
            found@.contains(x) && !r@.contains(x) && 0 <= k < r@.len() ==> r@[k].matches@.len()
                >= x.matches@.len() && (r@[k].matches@.len() == x.matches@.len()
                ==> r@[k].confidence >= x.confidence),
        forall|x: SearchResult| #[trigger] r@.contains(x) ==> found@.contains(x),
{
    crate::laws::shown::law_most_matches_first(found@, limit as nat, r@);
}

/// A literal query is always accepted and searched for as it is. A regular expression is
/// compiled in multi-line mode, without regard to case unless that counts; one that is
/// refused is reported with what is wrong with it.
pub proof fn law_pattern_of_a_query(
    query: &str,
    use_regex: bool,
    case_sensitive: bool,
    ignore_case: bool,
    r: Result<SearchPattern, PatternError>,
)
    requires
        ignore_case != case_sensitive,
        call_ensures(SearchPattern::new, (query, use_regex, case_sensitive), r),
    ensures
        !use_regex ==> (r matches Ok(SearchPattern::Literal(literal)) && literal.pattern()
            == query@),
        use_regex && r is Ok ==> r->Ok_0 == SearchPattern::Regex(
            crate::matching::compiled(query@, ignore_case, true),
        ),
        r is Err ==> use_regex,
        r matches Err(e) ==> exists|error: regex::Error| #[trigger]
            crate::matching::refused(query@, ignore_case, true, error) && e.message@
                == crate::matching::error_text(error),
{
}

/// A duration below a second is printed in milliseconds, and from a second on in seconds
/// with two decimals, as near to it as these allow.
pub proof fn law_printed_duration(ms: u64, r: String)
    requires
        call_ensures(crate::ui::format_duration, (ms,), r),
    ensures
        ms < 1000 ==> r@ == crate::text::decimal_of(ms as nat) + "ms"@,
        1000 <= ms < 0x20_0000_0000_0000 ==> exists|n: nat| #[trigger]
            crate::doubles::hundredths(n) == r@ && ms - 5 <= 10 * n <= ms + 5,
{
    crate::doubles::law_duration(ms as nat);
}

/// In the interface seconds have one decimal.
pub proof fn law_shown_duration(ms: u64, r: String)
    requires
        call_ensures(crate::tui::view::format_duration, (ms,), r),
    ensures
        ms < 1000 ==> r@ == crate::text::decimal_of(ms as nat) + "ms"@,
        1000 <= ms < 0x20_0000_0000_0000 ==> exists|n: nat| #[trigger]
            crate::doubles::tenths(n) == r@ && ms - 50 <= 100 * n <= ms + 50,
{
    crate::doubles::law_duration(ms as nat);
}

/// The preview of a result is that of the line of its first match, without the white
/// space at either end; a result without matches has none.
pub proof fn law_preview_of_a_result(result: SearchResult, max_len: usize, r: Option<String>)
    requires
        result.previewable(max_len as nat),
        call_ensures(SearchResult::preview, (&result, max_len), r),
    ensures
        result.matches@.len() == 0 <==> r is None,
        r matches Some(shown) ==> shown@ == crate::types::preview_of(
            crate::text::trimmed(result.matches@[0].context@),
            max_len as nat,
        ),
{
}

/// The file name and the extension of a path are those that it has.
pub proof fn law_names_of_a_path(path: &str, name: Option<String>, ext: Option<String>)
    requires
        call_ensures(crate::paths::file_name, (path,), name),
        call_ensures(crate::paths::extension, (path,), ext),
    ensures
        name is Some <==> crate::paths::file_name_of(path@) is Some,
        name matches Some(n) ==> crate::paths::file_name_of(path@) == Some(n@),
        ext is Some <==> crate::paths::extension_of(path@) is Some,
        ext matches Some(e) ==> crate::paths::extension_of(path@) == Some(e@),
{
}

} // verus!
