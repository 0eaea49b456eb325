//! What becomes of one file.

use crate::index::FileMeta;
use crate::search::{Extraction, FileFinding, FileOutcome, Lookup, SearchEngine, TextSource};
use crate::types::{Match, SearchResult};
use vstd::prelude::*;

verus! {

/// What has to be done to get at the text of a file: nothing where it is gone, nothing
/// but to take the text of its entry where the index has one for the file as it is,
/// and else to extract the text as that of a file of its type.
pub proof fn law_what_has_to_be_done(
    engine: SearchEngine,
    path: &str,
    meta: Option<FileMeta>,
    r: Lookup,
)
    requires
        engine.wf(),
        call_ensures(SearchEngine::lookup, (&engine, path, meta), r),
    ensures
        meta is None <==> r is Gone,
        r matches Lookup::Cached(text) ==> engine.index is Some
            && engine.index->0.valid_entry_for(path@, meta) is Some && text@
            == (engine.index->0.valid_entry_for(path@, meta)->0).extracted_text@,
        r matches Lookup::Extract(t) ==> t == crate::search::type_of_path(path@) && (
        engine.index is None || engine.index->0.valid_entry_for(path@, meta) is None),
{
}

/// A file whose text is known has a result if the search finds anything in the text:
/// all that it finds, in order, under the type of the file.
pub proof fn law_outcome_of_a_text(
    engine: SearchEngine,
    path: Seq<char>,
    text: Seq<char>,
    outcome: FileOutcome,
)
    requires
        engine.is_outcome(outcome, path, text),
    ensures
        ({
            let found = engine.pattern.matches_of(engine.config.case_sensitive, text);
            &&& outcome is NoMatch <==> found.len() == 0
            &&& outcome is Matched <==> found.len() > 0
            &&& outcome matches FileOutcome::Matched { file_type, matches } ==> {
                &&& file_type == crate::search::type_of_path(path)
                &&& matches@.len() == found.len()
                &&& forall|k: int|
                    0 <= k < found.len() ==> (#[trigger] matches@[k]).matched_text@
                        == found[k].matched_text && matches@[k].context@ == found[k].context
            }
        }),
{
    if let FileOutcome::Matched { file_type, matches } = outcome {
        let found = engine.matches_of(text);
        assert(crate::types::match_views(matches@).len() == matches@.len());
        assert forall|k: int| 0 <= k < found.len() implies (#[trigger] matches@[k]).matched_text@
            == found[k].matched_text && matches@[k].context@ == found[k].context by {
            assert(crate::types::match_views(matches@)[k] == matches@[k]@);
        }
    }
}

/// A file is searched in the text that the index has for it, or in the one that was
/// extracted. A file whose text could not be extracted has a result without matches
/// that says why.
pub proof fn law_outcome_of_a_file(
    engine: SearchEngine,
    path: &str,
    meta: FileMeta,
    source: TextSource,
    r: FileFinding,
)
    requires
        call_ensures(SearchEngine::search_file_with_index, (&engine, path, meta, source), r),
    ensures
        source matches TextSource::Cached(text) ==> engine.is_outcome(r.outcome, path@, text@),
        source matches TextSource::Extracted(e) ==> {
            &&& e.success ==> engine.is_outcome(r.outcome, path@, e.text@)
            &&& !e.success ==> (r.outcome matches FileOutcome::Failed(result) && {
                &&& result.path@ == path@
                &&& result.file_type == crate::search::type_of_path(path@)
                &&& result.matches@.len() == 0
                &&& result.confidence == 0
                &&& result.error is Some
                &&& e.error is Some ==> result.error->0@ == e.error->0@
                &&& e.error is None ==> result.error->0@ == "Unknown error"@
            })
        },
{
}

/// A file leaves an entry for the index exactly if there is an index that is going to
/// be saved and its text was extracted just now: its path, type and text, with the
/// time and the size that it has.
pub proof fn law_entry_that_a_file_leaves(
    engine: SearchEngine,
    path: &str,
    meta: FileMeta,
    source: TextSource,
    r: FileFinding,
)
    requires
        call_ensures(SearchEngine::search_file_with_index, (&engine, path, meta, source), r),
    ensures
        r.entry is Some <==> engine.index is Some && engine.index_config.save_index
            && source is Extracted && source->Extracted_0.success,
        r.entry matches Some(entry) ==> {
            &&& entry.path@ == path@
            &&& entry.file_type == crate::search::type_of_path(path@)
            &&& entry.extracted_text@ == source->Extracted_0.text@
            &&& entry.modified_timestamp == meta.modified
            &&& entry.file_size == meta.size
        },
{
}

/// Without an index a file is searched in the same way.
pub proof fn law_search_without_an_index(
    engine: SearchEngine,
    path: &str,
    extraction: Extraction,
    r: FileOutcome,
)
    requires
        call_ensures(SearchEngine::search_file, (&engine, path, extraction), r),
    ensures
        extraction.success ==> engine.is_outcome(r, path@, extraction.text@),
        !extraction.success ==> (r matches FileOutcome::Failed(result) && {
            &&& result.path@ == path@
            &&& result.file_type == crate::search::type_of_path(path@)
            &&& result.matches@.len() == 0
            &&& result.error is Some
            &&& extraction.error is Some ==> result.error->0@ == extraction.error->0@
            &&& extraction.error is None ==> result.error->0@ == "Unknown error"@
        }),
{
}

/// The result of a file has the matches that were found in it, no error, and the score
/// as its confidence, but no more than the full one. A file without matches has no
/// result, and one that failed has the result that says so.
pub proof fn law_result_of_a_file(
    outcome: FileOutcome,
    path: &str,
    score: u64,
    r: Option<SearchResult>,
)
    requires
        call_ensures(FileOutcome::into_result, (outcome, path, score), r),
    ensures
        outcome is NoMatch <==> r is None,
        outcome matches FileOutcome::Failed(result) ==> r == Some(result),
        outcome matches FileOutcome::Matched { file_type, matches } ==> (r matches Some(result)
            && {
            &&& result.path@ == path@
            &&& result.file_type == file_type
            &&& result.matches@ == matches@
            &&& result.error is None
            &&& matches@.len() > 0 && score <= 0x3ff0_0000_0000_0000 ==> result.confidence == score
            &&& matches@.len() > 0 && score > 0x3ff0_0000_0000_0000 ==> result.confidence
                == 0x3ff0_0000_0000_0000
            &&& matches@.len() == 0 ==> result.confidence == 0
        }),
{
}

/// What the search hands out is what it finds: as many matches, and each with its text
/// and its line.
pub proof fn law_matches_are_handed_out(
    engine: SearchEngine,
    text: &str,
    r: Vec<Match>,
)
    requires
        call_ensures(SearchEngine::find_matches, (&engine, text), r),
    ensures
        ({
            let found = engine.pattern.matches_of(engine.config.case_sensitive, text@);
            &&& r@.len() == found.len()
            &&& forall|k: int|
                0 <= k < found.len() ==> (#[trigger] r@[k]).matched_text@ == found[k].matched_text
                    && r@[k].context@ == found[k].context
        }),
{
    let found = engine.matches_of(text@);
    assert(crate::types::match_views(r@).len() == r@.len());
    assert forall|k: int| 0 <= k < found.len() implies (#[trigger] r@[k]).matched_text@
        == found[k].matched_text && r@[k].context@ == found[k].context by {
        assert(crate::types::match_views(r@)[k] == r@[k]@);
    }
}

} // verus!
