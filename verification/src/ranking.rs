//! The order in which results are shown.

use crate::types::SearchResult;
use std::cmp::Ordering;
use vstd::prelude::*;

verus! {

/// `a` may come before `b`.
pub open spec fn not_after(a: SearchResult, b: SearchResult) -> bool {
    a.ordering(b) != Ordering::Greater
}

/// No result comes after one that is ordered behind it.
pub open spec fn ranked(results: Seq<SearchResult>) -> bool {
    forall|i: int, j: int|
        0 <= i < j < results.len() ==> #[trigger] results[i].ordering(#[trigger] results[j])
            != Ordering::Greater
}

/// The results that count as equal in the order: those with the given number of
/// matches and the given confidence.
pub open spec fn rank_class(results: Seq<SearchResult>, count: nat, confidence: u64) -> Seq<
    SearchResult,
> {
    results.filter(
        |r: SearchResult| r.matches@.len() == count && r.confidence == confidence,
    )
}

/// `sorted` holds the results of `results` in order, and those that count as
/// equal as they came.
pub open spec fn stably_ranked(results: Seq<SearchResult>, sorted: Seq<SearchResult>) -> bool {
    &&& ranked(sorted)
    &&& sorted.len() == results.len()
    &&& forall|count: nat, confidence: u64| #[trigger]
        rank_class(sorted, count, confidence) == rank_class(results, count, confidence)
}

proof fn lemma_class_add(
    a: Seq<SearchResult>,
    b: Seq<SearchResult>,
    count: nat,
    confidence: u64,
)
    ensures
        rank_class(a + b, count, confidence) == rank_class(a, count, confidence) + rank_class(
            b,
            count,
            confidence,
        ),
{
    Seq::filter_distributes_over_add(
        a,
        b,
        |r: SearchResult| r.matches@.len() == count && r.confidence == confidence,
    );
}

/// A class of results of another rank holds nothing.
proof fn lemma_class_absent(s: Seq<SearchResult>, x: SearchResult)
    requires
        forall|i: int| 0 <= i < s.len() ==> (#[trigger] s[i]).ordering(x) != Ordering::Equal,
    ensures
        rank_class(s, x.matches@.len(), x.confidence).len() == 0,
    decreases s.len(),
{
    reveal(Seq::filter);
    if s.len() > 0 {
        assert forall|i: int| 0 <= i < s.drop_last().len() implies (
        #[trigger] s.drop_last()[i]).ordering(x) != Ordering::Equal by {
            assert(s.drop_last()[i] == s[i]);
        }
        lemma_class_absent(s.drop_last(), x);
        assert(s.last() == s[s.len() - 1]);
    }
}

proof fn lemma_class_single(x: SearchResult, count: nat, confidence: u64)
    ensures
        rank_class(seq![x], count, confidence) == (if x.matches@.len() == count && x.confidence
            == confidence {
            seq![x]
        } else {
            Seq::empty()
        }),
{
    reveal(Seq::filter);
    reveal_with_fuel(Seq::filter, 2);
    assert(seq![x].drop_last() =~= Seq::<SearchResult>::empty());
}

/// `s` backwards.
spec fn backwards(s: Seq<SearchResult>) -> Seq<SearchResult> {
    s.reverse()
}

fn reversed(v: Vec<SearchResult>) -> (r: Vec<SearchResult>)
    ensures
        r@ == backwards(v@),
{
    let mut rest = v;
    let mut out: Vec<SearchResult> = Vec::new();
    let ghost all = rest@;
    while rest.len() > 0
        invariant
            rest@.len() <= all.len(),
            rest@ == all.take(rest@.len() as int),
            out@.len() + rest@.len() == all.len(),
            forall|k: int| 0 <= k < out@.len() ==> out@[k] == all[all.len() - 1 - k],
        decreases rest@.len(),
    {
        match rest.pop() {
            Some(x) => {
                out.push(x);
            },
            None => {},
        }
    }
    proof {
        assert(out@ =~= backwards(all));
    }
    out
}

/// Merges two ranked runs; of equal results those of `a` come first.
fn merge(a: Vec<SearchResult>, b: Vec<SearchResult>) -> (r: Vec<SearchResult>)
    requires
        ranked(a@),
        ranked(b@),
    ensures
        stably_ranked(a@ + b@, r@),
{
    let ghost a0 = a@;
    let ghost b0 = b@;
    let mut a = a;
    let mut b = b;
    let mut out: Vec<SearchResult> = Vec::new();
    proof {
        assert(a0 + b0 + backwards(out@) =~= a0 + b0);
    }
    while a.len() > 0 || b.len() > 0
        invariant
            a@.len() + b@.len() + out@.len() == a0.len() + b0.len(),
            ranked(a@),
            ranked(b@),
            ranked(backwards(out@)),
            forall|i: int, j: int|
                0 <= i < a@.len() && 0 <= j < out@.len() ==> #[trigger] a@[i].ordering(
                    #[trigger] out@[j],
                ) != Ordering::Greater,
            forall|i: int, j: int|
                0 <= i < b@.len() && 0 <= j < out@.len() ==> #[trigger] b@[i].ordering(
                    #[trigger] out@[j],
                ) != Ordering::Greater,
            forall|count: nat, confidence: u64| #[trigger]
                rank_class(a0 + b0, count, confidence) == rank_class(
                    a@ + b@ + backwards(out@),
                    count,
                    confidence,
                ),
        decreases a@.len() + b@.len(),
    {
        let from_b = if a.len() == 0 {
            true
        } else if b.len() == 0 {
            false
        } else {
            match a[a.len() - 1].cmp(&b[b.len() - 1]) {
                Ordering::Greater => false,
                _ => true,
            }
        };
        let ghost a1 = a@;
        let ghost b1 = b@;
        let ghost out1 = out@;
        let taken = if from_b {
            b.pop()
        } else {
            a.pop()
        };
        match taken {
            Some(x) => {
                out.push(x);
                proof {
                    if from_b {
                        assert(b@.push(x) =~= b1);
                    } else {
                        assert(a@.push(x) =~= a1);
                    }
                    lemma_step(a1, b1, out1, from_b, x, a@, b@, out@);
                    assert forall|count: nat, confidence: u64| #[trigger]
                        rank_class(a0 + b0, count, confidence) == rank_class(
                        a@ + b@ + backwards(out@),
                        count,
                        confidence,
                    ) by {
                        assert(rank_class(a1 + b1 + backwards(out1), count, confidence)
                            == rank_class(a@ + b@ + backwards(out@), count, confidence));
                    }
                }
            },
            None => {},
        }
    }
    proof {
        assert(a@ + b@ + backwards(out@) =~= backwards(out@));
    }
    reversed(out)
}

/// One step of a merge from the back.
proof fn lemma_step(
    a1: Seq<SearchResult>,
    b1: Seq<SearchResult>,
    out1: Seq<SearchResult>,
    from_b: bool,
    x: SearchResult,
    a2: Seq<SearchResult>,
    b2: Seq<SearchResult>,
    out2: Seq<SearchResult>,
)
    requires
        ranked(a1),
        ranked(b1),
        ranked(backwards(out1)),
        forall|i: int, j: int|
            0 <= i < a1.len() && 0 <= j < out1.len() ==> #[trigger] a1[i].ordering(
                #[trigger] out1[j],
            ) != Ordering::Greater,
        forall|i: int, j: int|
            0 <= i < b1.len() && 0 <= j < out1.len() ==> #[trigger] b1[i].ordering(
                #[trigger] out1[j],
            ) != Ordering::Greater,
        out2 == out1.push(x),
        from_b ==> {
            &&& b1.len() > 0
            &&& b2.push(x) == b1
            &&& a2 == a1
            &&& a1.len() > 0 ==> a1.last().ordering(x) != Ordering::Greater
        },
        !from_b ==> {
            &&& a1.len() > 0
            &&& a2.push(x) == a1
            &&& b2 == b1
            &&& b1.len() > 0 ==> x.ordering(b1.last()) == Ordering::Greater
        },
    ensures
        ranked(a2),
        ranked(b2),
        ranked(backwards(out2)),
        forall|i: int, j: int|
            0 <= i < a2.len() && 0 <= j < out2.len() ==> #[trigger] a2[i].ordering(
                #[trigger] out2[j],
            ) != Ordering::Greater,
        forall|i: int, j: int|
            0 <= i < b2.len() && 0 <= j < out2.len() ==> #[trigger] b2[i].ordering(
                #[trigger] out2[j],
            ) != Ordering::Greater,
        forall|count: nat, confidence: u64| #[trigger]
            rank_class(a1 + b1 + backwards(out1), count, confidence) == rank_class(
                a2 + b2 + backwards(out2),
                count,
                confidence,
            ),
{
    assert(backwards(out2) =~= seq![x] + backwards(out1));
    assert forall|i: int| 0 <= i < a2.len() implies (#[trigger] a2[i]).ordering(x)
        != Ordering::Greater by {
        if from_b {
            assert(a1.last() == a1[a1.len() - 1]);
            if i < a1.len() - 1 {
                assert(a1[i].ordering(a1[a1.len() - 1]) != Ordering::Greater);
            }
        } else {
            assert(a1[i] == a2[i] && a1[a1.len() - 1] == x);
        }
    }
    assert forall|i: int| 0 <= i < b2.len() implies (#[trigger] b2[i]).ordering(x)
        != Ordering::Greater by {
        if from_b {
            assert(b1[i] == b2[i] && b1[b1.len() - 1] == x);
        } else {
            assert(b1.last() == b1[b1.len() - 1]);
            if i < b1.len() - 1 {
                assert(b1[i].ordering(b1[b1.len() - 1]) != Ordering::Greater);
            }
        }
    }
    if !from_b {
        assert forall|i: int| 0 <= i < b1.len() implies (#[trigger] b1[i]).ordering(x)
            != Ordering::Equal by {
            assert(b1.last() == b1[b1.len() - 1]);
            if i < b1.len() - 1 {
                assert(b1[i].ordering(b1[b1.len() - 1]) != Ordering::Greater);
            }
        }
        lemma_class_absent(b1, x);
    }
    assert(out1 =~= out2.drop_last());
    assert forall|i: int| 0 <= i < a2.len() implies #[trigger] a2[i] == a1[i] by {}
    assert forall|i: int| 0 <= i < b2.len() implies #[trigger] b2[i] == b1[i] by {}
    assert forall|i: int, j: int| 0 <= i < j < a2.len() implies #[trigger] a2[i].ordering(
        #[trigger] a2[j],
    ) != Ordering::Greater by {
        assert(a1[i].ordering(a1[j]) != Ordering::Greater);
    }
    assert forall|i: int, j: int| 0 <= i < j < b2.len() implies #[trigger] b2[i].ordering(
        #[trigger] b2[j],
    ) != Ordering::Greater by {
        assert(b1[i].ordering(b1[j]) != Ordering::Greater);
    }
    let back = backwards(out2);
    assert forall|i: int, j: int| 0 <= i < j < back.len() implies #[trigger] back[i].ordering(
        #[trigger] back[j],
    ) != Ordering::Greater by {
        assert(back[j] == backwards(out1)[j - 1]);
        if i == 0 {
            assert(back[j] == out1[out1.len() - j]);
            if from_b {
                assert(b1[b1.len() - 1] == x);
            } else {
                assert(a1[a1.len() - 1] == x);
            }
        } else {
            assert(back[i] == backwards(out1)[i - 1]);
        }
    }
    assert forall|count: nat, confidence: u64| #[trigger]
        rank_class(a1 + b1 + backwards(out1), count, confidence) == rank_class(
        a2 + b2 + backwards(out2),
        count,
        confidence,
    ) by {
        lemma_class_add(a1 + b1, backwards(out1), count, confidence);
        lemma_class_add(a1, b1, count, confidence);
        lemma_class_add(a2 + b2, backwards(out2), count, confidence);
        lemma_class_add(a2, b2, count, confidence);
        lemma_class_add(seq![x], backwards(out1), count, confidence);
        lemma_class_single(x, count, confidence);
        if from_b {
            assert(b1 =~= b2 + seq![x]);
            lemma_class_add(b2, seq![x], count, confidence);
        } else {
            assert(a1 =~= a2 + seq![x]);
            lemma_class_add(a2, seq![x], count, confidence);
        }
        assert(rank_class(a1 + b1 + backwards(out1), count, confidence) =~= rank_class(
            a2 + b2 + backwards(out2),
            count,
            confidence,
        ));
    }
}

/// Puts results in order: more matches first, then more confidence. Results that
/// count as equal stay as they came.
pub fn rank(results: Vec<SearchResult>) -> (r: Vec<SearchResult>)
    ensures
        stably_ranked(results@, r@),
    decreases results@.len(),
{
    let mut left = results;
    if left.len() < 2 {
        return left;
    }
    let ghost all = left@;
    let middle = left.len() / 2;
    let right = left.split_off(middle);
    proof {
        assert(all =~= left@ + right@);
    }
    let ghost l0 = left@;
    let ghost r0 = right@;
    let a = rank(left);
    let b = rank(right);
    let out = merge(a, b);
    proof {
        assert forall|count: nat, confidence: u64| #[trigger]
            rank_class(out@, count, confidence) == rank_class(all, count, confidence) by {
            lemma_class_add(a@, b@, count, confidence);
            lemma_class_add(l0, r0, count, confidence);
            assert(rank_class(a@, count, confidence) == rank_class(l0, count, confidence));
            assert(rank_class(b@, count, confidence) == rank_class(r0, count, confidence));
        }
    }
    out
}

// ---- Laws -----------------------------------------------------------------

/// Any two results can be put in order, and the order does not contradict itself.
pub proof fn law_order_is_total(a: SearchResult, b: SearchResult, c: SearchResult)
    ensures
        not_after(a, b) || not_after(b, a),
        not_after(a, b) && not_after(b, c) ==> not_after(a, c),
        a.ordering(b) == Ordering::Less <==> b.ordering(a) == Ordering::Greater,
        a.ordering(b) == Ordering::Equal <==> a.matches@.len() == b.matches@.len() && a.confidence
            == b.confidence,
{
}

/// The first of some results, by rank, is the first of its class.
proof fn lemma_head_of_class(s: Seq<SearchResult>)
    requires
        s.len() > 0,
    ensures
        rank_class(s, s[0].matches@.len(), s[0].confidence).len() > 0,
        rank_class(s, s[0].matches@.len(), s[0].confidence)[0] == s[0],
        forall|count: nat, confidence: u64| #[trigger]
            rank_class(s, count, confidence) == rank_class(seq![s[0]], count, confidence)
                + rank_class(s.drop_first(), count, confidence),
{
    assert(s =~= seq![s[0]] + s.drop_first());
    assert forall|count: nat, confidence: u64| #[trigger]
        rank_class(s, count, confidence) == rank_class(seq![s[0]], count, confidence)
            + rank_class(s.drop_first(), count, confidence) by {
        lemma_class_add(seq![s[0]], s.drop_first(), count, confidence);
    }
    lemma_class_single(s[0], s[0].matches@.len(), s[0].confidence);
}

/// Some result stands at or before the head of another ranked sequence with the
/// same classes.
proof fn lemma_heads_in_order(a: Seq<SearchResult>, b: Seq<SearchResult>)
    requires
        a.len() > 0,
        b.len() > 0,
        ranked(b),
        forall|count: nat, confidence: u64| #[trigger]
            rank_class(a, count, confidence) == rank_class(b, count, confidence),
    ensures
        not_after(b[0], a[0]),
{
    let count = a[0].matches@.len();
    let confidence = a[0].confidence;
    let of_class = |r: SearchResult| r.matches@.len() == count && r.confidence == confidence;
    lemma_head_of_class(a);
    let class = rank_class(b, count, confidence);
    assert(class == rank_class(a, count, confidence));
    assert(class == b.filter(of_class));
    assert(class[0] == a[0]);
    assert(b.contains(class[0])) by {
        b.lemma_filter_contains_rev(of_class, class[0]);
    }
    let k = choose|k: int| 0 <= k < b.len() && b[k] == class[0];
    if k > 0 {
        assert(b[0].ordering(b[k]) != Ordering::Greater);
    }
}

/// What follows the same start of a sequence is the same.
proof fn lemma_same_rest(start: Seq<SearchResult>, x: Seq<SearchResult>, y: Seq<SearchResult>)
    requires
        start + x == start + y,
    ensures
        x == y,
{
    let n = start.len() as int;
    assert(x =~= (start + x).skip(n));
    assert(y =~= (start + y).skip(n));
}

/// Ranked sequences with the same classes are the same.
proof fn lemma_ranked_by_classes(a: Seq<SearchResult>, b: Seq<SearchResult>)
    requires
        ranked(a),
        ranked(b),
        a.len() == b.len(),
        forall|count: nat, confidence: u64| #[trigger]
            rank_class(a, count, confidence) == rank_class(b, count, confidence),
    ensures
        a == b,
    decreases a.len(),
{
    if a.len() > 0 {
        lemma_heads_in_order(a, b);
        lemma_heads_in_order(b, a);
        lemma_head_of_class(a);
        lemma_head_of_class(b);
        law_order_is_total(a[0], b[0], a[0]);
        assert(rank_class(a, a[0].matches@.len(), a[0].confidence) == rank_class(
            b,
            a[0].matches@.len(),
            a[0].confidence,
        ));
        assert(a[0] == b[0]);
        let x = a.drop_first();
        let y = b.drop_first();
        assert forall|count: nat, confidence: u64| #[trigger]
            rank_class(x, count, confidence) == rank_class(y, count, confidence) by {
            let head = rank_class(seq![a[0]], count, confidence);
            let s = rank_class(a, count, confidence);
            assert(s == rank_class(b, count, confidence));
            assert(s == head + rank_class(x, count, confidence));
            assert(s == head + rank_class(y, count, confidence));
            lemma_same_rest(head, rank_class(x, count, confidence), rank_class(y, count, confidence));
        }
        lemma_ranked_by_classes(x, y);
        assert(a =~= seq![a[0]] + x);
        assert(b =~= seq![b[0]] + y);
    } else {
        assert(a =~= b);
    }
}

/// There is one way to put results in order that leaves those of equal rank as
/// they came.
pub proof fn law_ranking_is_unique(
    results: Seq<SearchResult>,
    a: Seq<SearchResult>,
    b: Seq<SearchResult>,
)
    requires
        stably_ranked(results, a),
        stably_ranked(results, b),
    ensures
        a == b,
{
    assert forall|count: nat, confidence: u64| #[trigger]
        rank_class(a, count, confidence) == rank_class(b, count, confidence) by {
        assert(rank_class(a, count, confidence) == rank_class(results, count, confidence));
    }
    lemma_ranked_by_classes(a, b);
}

} // verus!
