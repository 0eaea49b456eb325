//! What a run over some files comes to.

use crate::index::IndexEntry;
use crate::search::{ProgressHandle, Tally};
use crate::types::{FileType, SearchResult};
use vstd::prelude::*;

verus! {

proof fn lemma_found(results: Seq<Option<SearchResult>>)
    ensures
        ({
            let matched = results.filter(
                |r: Option<SearchResult>|
                    r is Some && r->0.error is None && r->0.matches@.len() > 0,
            );
            let found = crate::search::found_in(results);
            &&& found.len() == matched.len()
            &&& forall|k: int| 0 <= k < found.len() ==> (#[trigger] found[k]) == matched[k]->0
            &&& crate::search::total_matches_of(found) == matched.fold_left(
                0nat,
                |n: nat, r: Option<SearchResult>| n + r->0.matches@.len(),
            )
        }),
    decreases results.len(),
{
    reveal(Seq::filter);
    let is_match = |r: Option<SearchResult>|
        r is Some && r->0.error is None && r->0.matches@.len() > 0;
    let add = |n: nat, r: Option<SearchResult>| n + r->0.matches@.len();
    if results.len() > 0 {
        let init = results.drop_last();
        lemma_found(init);
        let before = init.filter(is_match);
        let found = crate::search::found_in(init);
        if is_match(results.last()) {
            assert(before.push(results.last()).drop_last() =~= before);
            assert(found.push(results.last()->0).drop_last() =~= found);
        }
    }
}

proof fn lemma_failed(results: Seq<Option<SearchResult>>)
    ensures
        ({
            let failed = results.filter(
                |r: Option<SearchResult>| r is Some && r->0.error is Some,
            );
            let errors = crate::search::errors_in(results);
            &&& errors.len() == failed.len()
            &&& forall|k: int|
                0 <= k < errors.len() ==> (#[trigger] errors[k]) == (
                    failed[k]->0.path,
                    failed[k]->0.error->0,
                )
        }),
    decreases results.len(),
{
    reveal(Seq::filter);
    if results.len() > 0 {
        lemma_failed(results.drop_last());
    }
}

proof fn lemma_count(results: Seq<SearchResult>, file_type: FileType)
    ensures
        crate::search::count_of(results, file_type) == results.filter(
            |r: SearchResult| r.file_type == file_type,
        ).len(),
    decreases results.len(),
{
    reveal(Seq::filter);
    if results.len() > 0 {
        lemma_count(results.drop_last(), file_type);
    }
}

/// After a run every file has been scanned. The results are those with matches and
/// without an error, in the order of the files, and every one of them and of their
/// matches has been counted. The errors are those of the files that failed, in order,
/// and every one of them has been counted as skipped.
pub proof fn law_a_run_counts_every_file(
    tallies: Seq<Tally>,
    results: Seq<Option<SearchResult>>,
    entries: Seq<Option<IndexEntry>>,
)
    requires
        crate::search::is_run(tallies, results, entries),
    ensures
        ({
            let end = tallies.last();
            let matched = results.filter(
                |r: Option<SearchResult>|
                    r is Some && r->0.error is None && r->0.matches@.len() > 0,
            );
            let failed = results.filter(
                |r: Option<SearchResult>| r is Some && r->0.error is Some,
            );
            &&& end.stats.files_scanned == results.len()
            &&& end.stats.files_matched == matched.len()
            &&& end.stats.files_skipped == failed.len()
            &&& end.stats.total_matches == matched.fold_left(
                0nat,
                |n: nat, r: Option<SearchResult>| n + r->0.matches@.len(),
            )
            &&& end.results@.len() == matched.len()
            &&& forall|k: int|
                0 <= k < matched.len() ==> (#[trigger] end.results@[k]) == matched[k]->0
            &&& end.stats.errors@.len() == failed.len()
            &&& forall|k: int|
                0 <= k < failed.len() ==> (#[trigger] end.stats.errors@[k]) == (
                    failed[k]->0.path,
                    failed[k]->0.error->0,
                )
        }),
{
    crate::search::law_statistics_of_a_run(tallies, results, entries);
    lemma_found(results);
    lemma_failed(results);
}

/// A type stands in the breakdown exactly if a result is of this type, once, and with
/// the number of results that are.
pub proof fn law_breakdown_by_type(tally: Tally, file_type: FileType)
    requires
        tally.wf(),
    ensures
        ({
            let counts = tally.stats.by_type.counts@;
            let of_type = tally.results@.filter(|r: SearchResult| r.file_type == file_type);
            &&& forall|i: int|
                0 <= i < counts.len() && (#[trigger] counts[i]).0 == file_type ==> counts[i].1
                    == of_type.len() && of_type.len() > 0
            &&& of_type.len() > 0 ==> exists|i: int|
                0 <= i < counts.len() && (#[trigger] counts[i]).0 == file_type
            &&& forall|i: int, j: int|
                0 <= i < j < counts.len() ==> (#[trigger] counts[i]).0 != (#[trigger] counts[j]).0
        }),
{
    let map = tally.stats.by_type.as_map();
    let counts = tally.stats.by_type.counts@;
    lemma_count(tally.results@, file_type);
    assert(map.contains_key(file_type) <==> crate::search::count_of(tally.results@, file_type) > 0);
    assert forall|i: int| 0 <= i < counts.len() && (#[trigger] counts[i]).0 == file_type implies
        counts[i].1 == crate::search::count_of(tally.results@, file_type)
        && crate::search::count_of(tally.results@, file_type) > 0 by {
        let k = choose|k: int| 0 <= k < counts.len() && (#[trigger] counts[k]).0 == file_type;
        assert(map.contains_key(file_type));
        if i < k {
            assert(counts[i].0 != counts[k].0);
        }
        if k < i {
            assert(counts[k].0 != counts[i].0);
        }
    }
}

/// The entries that the files left are kept for the index, in the order of the files.
pub proof fn law_a_run_keeps_the_entries(
    tallies: Seq<Tally>,
    results: Seq<Option<SearchResult>>,
    entries: Seq<Option<IndexEntry>>,
)
    requires
        crate::search::is_run(tallies, results, entries),
    ensures
        ({
            let left = entries.filter(|e: Option<IndexEntry>| e is Some);
            tallies.last().new_entries@ == tallies[0].new_entries@ + Seq::new(
                left.len(),
                |k: int| left[k]->0,
            )
        }),
    decreases results.len(),
{
    reveal(Seq::filter);
    let some = |e: Option<IndexEntry>| e is Some;
    let left = entries.filter(some);
    if results.len() > 0 {
        let n = results.len() - 1;
        let init = tallies.drop_last();
        assert forall|k: int| 0 <= k < n implies (#[trigger] init[k + 1]).recorded(
            init[k],
            results.drop_last()[k],
            entries.drop_last()[k],
        ) by {
            assert(tallies[k + 1].recorded(tallies[k], results[k], entries[k]));
        }
        law_a_run_keeps_the_entries(init, results.drop_last(), entries.drop_last());
        assert(tallies[n + 1].recorded(tallies[n], results[n], entries[n]));
        assert(init.last() == tallies[n]);
        let before = entries.drop_last().filter(some);
        let so_far = Seq::new(before.len(), |k: int| before[k]->0);
        let all = Seq::new(left.len(), |k: int| left[k]->0);
        if entries.last() is Some {
            assert(all =~= so_far.push(entries.last()->0));
            assert(tallies[0].new_entries@ + all =~= (tallies[0].new_entries@ + so_far).push(
                entries.last()->0,
            ));
        } else {
            assert(all =~= so_far);
        }
    } else {
        assert(tallies[0].new_entries@ + Seq::new(left.len(), |k: int| left[k]->0)
            =~= tallies[0].new_entries@);
    }
}

/// Each file that is done moves the counter on by one, and leaves the total.
pub proof fn law_progress_moves_on(handle: ProgressHandle)
    ensures
        handle.current < usize::MAX ==> handle.advanced() == (ProgressHandle {
            current: (handle.current + 1) as usize,
            total: handle.total,
        }),
{
}

} // verus!
