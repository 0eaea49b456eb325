//! Which results are shown, and in what order.

use crate::types::SearchResult;
use std::cmp::Ordering;
use vstd::prelude::*;

verus! {

/// A result with more matches, or with as many and more confidence, does not belong
/// behind the other.
proof fn lemma_not_after(a: SearchResult, b: SearchResult)
    ensures
        crate::ranking::not_after(a, b) <==> a.matches@.len() > b.matches@.len() || (
        a.matches@.len() == b.matches@.len() && a.confidence >= b.confidence),
{
}

proof fn lemma_in_order(results: Seq<SearchResult>, i: int, j: int)
    requires
        crate::ranking::ranked(results),
        0 <= i < j < results.len(),
    ensures
        crate::ranking::not_after(results[i], results[j]),
{
    assert(results[i].ordering(results[j]) == results[i].ordering(results[j]));
}

/// In what is shown a result with more matches never stands behind one with fewer,
/// and of two with as many the one with more confidence never stands behind the
/// other. No result that the limit leaves out has more matches than one that is
/// shown, nor as many and more confidence.
pub proof fn law_most_matches_first(
    found: Seq<SearchResult>,
    limit: nat,
    shown: Seq<SearchResult>,
)
    requires
        crate::search::shown_of(found, limit, shown),
    ensures
        shown.len() == (if found.len() < limit {
            found.len()
        } else {
            limit
        }),
        forall|i: int, j: int|
            0 <= i < j < shown.len() ==> (#[trigger] shown[i]).matches@.len() >= (
            #[trigger] shown[j]).matches@.len() && (shown[i].matches@.len()
                == shown[j].matches@.len() ==> shown[i].confidence >= shown[j].confidence),
        forall|x: SearchResult, k: int|
            #![trigger found.contains(x), shown[k]]
            found.contains(x) && !shown.contains(x) && 0 <= k < shown.len()
                ==> shown[k].matches@.len() >= x.matches@.len() && (shown[k].matches@.len()
                == x.matches@.len() ==> shown[k].confidence >= x.confidence),
        forall|x: SearchResult| #[trigger] shown.contains(x) ==> found.contains(x),
        found.len() <= limit ==> forall|x: SearchResult| #[trigger]
            found.contains(x) ==> shown.contains(x),
{
    crate::search::law_shown_results(found, limit, shown);
    assert forall|i: int, j: int| 0 <= i < j < shown.len() implies (
    #[trigger] shown[i]).matches@.len() >= (#[trigger] shown[j]).matches@.len() && (
    shown[i].matches@.len() == shown[j].matches@.len() ==> shown[i].confidence
        >= shown[j].confidence) by {
        lemma_in_order(shown, i, j);
        lemma_not_after(shown[i], shown[j]);
    }
    assert forall|x: SearchResult, k: int|
        #![trigger found.contains(x), shown[k]]
        found.contains(x) && !shown.contains(x) && 0 <= k < shown.len() implies
        shown[k].matches@.len() >= x.matches@.len() && (shown[k].matches@.len() == x.matches@.len()
        ==> shown[k].confidence >= x.confidence) by {
        assert(crate::ranking::not_after(shown[k], x));
        lemma_not_after(shown[k], x);
    }
    if found.len() <= limit {
        assert forall|x: SearchResult| #[trigger] found.contains(x) implies shown.contains(x) by {
            law_ties_stay_as_they_came(found, limit, shown, x.matches@.len(), x.confidence);
            let same = |r: SearchResult|
                r.matches@.len() == x.matches@.len() && r.confidence == x.confidence;
            let k = choose|k: int| 0 <= k < found.len() && found[k] == x;
            found.lemma_filter_contains(same, k);
            shown.lemma_filter_contains_rev(same, x);
        }
    }
}

/// Of the results with a number of matches and a confidence, those that are shown are
/// the first that were found, in the order in which they were found; where the limit
/// leaves nothing out, all of them.
pub proof fn law_ties_stay_as_they_came(
    found: Seq<SearchResult>,
    limit: nat,
    shown: Seq<SearchResult>,
    count: nat,
    confidence: u64,
)
    requires
        crate::search::shown_of(found, limit, shown),
    ensures
        ({
            let same = |r: SearchResult| r.matches@.len() == count && r.confidence == confidence;
            &&& shown.filter(same).len() <= found.filter(same).len()
            &&& shown.filter(same) == found.filter(same).take(shown.filter(same).len() as int)
            &&& found.len() <= limit ==> shown.filter(same) == found.filter(same)
        }),
{
    let same = |r: SearchResult| r.matches@.len() == count && r.confidence == confidence;
    let all = choose|all: Seq<SearchResult>| #[trigger]
        crate::ranking::stably_ranked(found, all) && shown == (if all.len() > limit {
            all.take(limit as int)
        } else {
            all
        });
    assert(crate::ranking::rank_class(all, count, confidence) == crate::ranking::rank_class(
        found,
        count,
        confidence,
    ));
    if all.len() > limit {
        let rest = all.skip(limit as int);
        assert(all =~= shown + rest);
        Seq::filter_distributes_over_add(shown, rest, same);
    }
    assert(shown.filter(same) =~= found.filter(same).take(shown.filter(same).len() as int));
}

/// Of two results the one with more matches comes first, and of two with as many the
/// one with more confidence; else neither does.
pub proof fn law_which_result_comes_first(a: SearchResult, b: SearchResult, r: Ordering)
    requires
        call_ensures(SearchResult::cmp, (&a, &b), r),
    ensures
        r == Ordering::Less <==> a.matches@.len() > b.matches@.len() || (a.matches@.len()
            == b.matches@.len() && a.confidence > b.confidence),
        r == Ordering::Greater <==> a.matches@.len() < b.matches@.len() || (a.matches@.len()
            == b.matches@.len() && a.confidence < b.confidence),
        r == Ordering::Equal <==> a.matches@.len() == b.matches@.len() && a.confidence
            == b.confidence,
{
}

} // verus!
