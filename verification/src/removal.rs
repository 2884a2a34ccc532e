//! The spec-level model of bulk removal from an ordered pool.
//!
//! A strategy hands back a collection of positions. The pool resolves them
//! against the pre-removal state: it keeps the distinct in-range positions,
//! orders them descending, and swap-removes them one by one, so that removing
//! one position never shifts a not-yet-processed one. The functions here say
//! exactly which pool and which summed points that leaves, and the lemmas
//! relate those to the whole pool's totals.

use vstd::prelude::*;

use crate::die::Die;
use crate::die::dice_rolled;
use crate::die::spec_faces_value;

verus! {

/// One swap-removal at position `i`: the last die moves into position `i`
/// and the pool shrinks by one.
pub open spec fn seq_swap_remove(s: Seq<Die>, i: int) -> Seq<Die> {
    s.update(i, s.last()).drop_last()
}

/// The distinct positions below `n` that occur in `picks`, in descending
/// order. Duplicate and out-of-range picks are dropped here, never faulted on.
pub open spec fn desc_indices(picks: Seq<usize>, n: nat) -> Seq<usize>
    decreases n,
{
    if n == 0 {
        Seq::empty()
    } else {
        let lower = desc_indices(picks, (n - 1) as nat);
        if picks.contains((n - 1) as usize) {
            seq![(n - 1) as usize] + lower
        } else {
            lower
        }
    }
}

/// The pool left after swap-removing the positions `idxs`, taken in order.
pub open spec fn remove_fold(s: Seq<Die>, idxs: Seq<usize>) -> Seq<Die>
    decreases idxs.len(),
{
    if idxs.len() == 0 {
        s
    } else {
        remove_fold(seq_swap_remove(s, idxs[0] as int), idxs.skip(1))
    }
}

/// Sum of the points of the dice of `s` at the positions `idxs`.
pub open spec fn points_at(s: Seq<Die>, idxs: Seq<usize>) -> int
    decreases idxs.len(),
{
    if idxs.len() == 0 {
        0
    } else {
        s[idxs[0] as int].points + points_at(s, idxs.skip(1))
    }
}

/// Sum of (faces - 1) of the dice of `s` at the positions `idxs`.
pub open spec fn slack_at(s: Seq<Die>, idxs: Seq<usize>) -> int
    decreases idxs.len(),
{
    if idxs.len() == 0 {
        0
    } else {
        spec_faces_value(s[idxs[0] as int].faces) - 1 + slack_at(s, idxs.skip(1))
    }
}

/// Sum of (faces - 1) over the whole pool: the most its dice can add to a
/// score, since a rolled die's points is at most its face count less one.
pub open spec fn pool_slack(s: Seq<Die>) -> int
    decreases s.len(),
{
    if s.len() == 0 {
        0
    } else {
        pool_slack(s.drop_last()) + spec_faces_value(s.last().faces) - 1
    }
}

/// `idxs` is strictly descending and every entry is a position of a pool of
/// size `n`.
pub open spec fn descending_below(idxs: Seq<usize>, n: nat) -> bool {
    &&& forall|k: int| 0 <= k < idxs.len() ==> (#[trigger] idxs[k]) < n
    &&& forall|k: int| 0 < k < idxs.len() ==> idxs[k - 1] > (#[trigger] idxs[k])
}

/// `desc_indices` is what its doc comment says: strictly descending, made of
/// exactly the in-range values that occur in `picks`.
pub proof fn lemma_desc_indices(picks: Seq<usize>, n: nat)
    requires
        n <= usize::MAX,
    ensures
        descending_below(desc_indices(picks, n), n),
        forall|k: int|
            0 <= k < desc_indices(picks, n).len()
                ==> picks.contains(#[trigger] desc_indices(picks, n)[k]),
        forall|v: usize| v < n && picks.contains(v) ==> desc_indices(picks, n).contains(v),
    decreases n,
{
    if n > 0 {
        lemma_desc_indices(picks, (n - 1) as nat);
        let lower = desc_indices(picks, (n - 1) as nat);
        let cur = desc_indices(picks, n);
        if picks.contains((n - 1) as usize) {
            assert(cur == seq![(n - 1) as usize] + lower);
            assert(cur[0] == (n - 1) as usize);
            assert(forall|k: int| 0 < k < cur.len() ==> (#[trigger] cur[k]) == lower[k - 1]);
            assert forall|k: int| 0 < k < cur.len() implies cur[k - 1] > (#[trigger] cur[k]) by {
                if k > 1 {
                    assert(cur[k - 1] == lower[k - 2]);
                }
            }
            assert forall|v: usize| v < n && picks.contains(v) implies cur.contains(v) by {
                if v == (n - 1) as usize {
                    assert(cur[0] == v);
                } else {
                    assert(lower.contains(v));
                    let j = choose|j: int| 0 <= j < lower.len() && lower[j] == v;
                    assert(cur[j + 1] == v);
                }
            }
        } else {
            assert(cur == lower);
            assert forall|v: usize| v < n && picks.contains(v) implies cur.contains(v) by {
                assert(v != (n - 1) as usize);
            }
        }
    }
}

/// In a strictly descending sequence of positions below `n`, the entry at
/// offset `k` is below `n - k`.
pub proof fn lemma_desc_entry_bound(idxs: Seq<usize>, n: nat, k: int)
    requires
        descending_below(idxs, n),
        0 <= k < idxs.len(),
    ensures
        idxs[k] < n - k,
    decreases k,
{
    if k > 0 {
        lemma_desc_entry_bound(idxs, n, k - 1);
    }
}

/// In a strictly descending sequence, every entry stays at or below the head
/// less its offset.
pub proof fn lemma_desc_head_bound(idxs: Seq<usize>, n: nat, k: int)
    requires
        descending_below(idxs, n),
        0 <= k < idxs.len(),
    ensures
        idxs[k] + k <= idxs[0],
    decreases k,
{
    if k > 0 {
        lemma_desc_head_bound(idxs, n, k - 1);
    }
}

/// Updating one die trades its slack for the new die's slack.
proof fn lemma_slack_update(s: Seq<Die>, i: int, d: Die)
    requires
        0 <= i < s.len(),
    ensures
        pool_slack(s.update(i, d)) == pool_slack(s) - (spec_faces_value(s[i].faces) - 1) + (
        spec_faces_value(d.faces) - 1),
    decreases s.len(),
{
    let t = s.update(i, d);
    if i == s.len() - 1 {
        assert(t.drop_last() =~= s.drop_last());
    } else {
        lemma_slack_update(s.drop_last(), i, d);
        assert(t.drop_last() =~= s.drop_last().update(i, d));
        assert(t.last() == s.last());
    }
}

/// One swap-removal: the pool shrinks by one, loses exactly the removed
/// die's slack, and leaves every position below `i` untouched.
pub proof fn lemma_swap_remove_props(s: Seq<Die>, i: int)
    requires
        0 <= i < s.len(),
    ensures
        seq_swap_remove(s, i).len() == s.len() - 1,
        pool_slack(seq_swap_remove(s, i)) == pool_slack(s) - (spec_faces_value(s[i].faces) - 1),
        forall|j: int| 0 <= j < i ==> #[trigger] seq_swap_remove(s, i)[j] == s[j],
{
    let t = s.update(i, s.last());
    lemma_slack_update(s, i, s.last());
    assert(t.last() == s.last());
    assert(pool_slack(seq_swap_remove(s, i)) == pool_slack(t) - (spec_faces_value(t.last().faces)
        - 1));
}

/// Two pools that agree on the picked positions give the same sums there.
proof fn lemma_sum_at_agree(s: Seq<Die>, t: Seq<Die>, idxs: Seq<usize>)
    requires
        forall|k: int|
            0 <= k < idxs.len()
                ==> (#[trigger] idxs[k]) < s.len() && idxs[k] < t.len() && s[idxs[k] as int]
                == t[idxs[k] as int],
    ensures
        points_at(s, idxs) == points_at(t, idxs),
        slack_at(s, idxs) == slack_at(t, idxs),
    decreases idxs.len(),
{
    if idxs.len() > 0 {
        let rest = idxs.skip(1);
        assert(forall|k: int| 0 <= k < rest.len() ==> (#[trigger] rest[k]) == idxs[k + 1]);
        lemma_sum_at_agree(s, t, rest);
    }
}

/// The tail of a strictly descending position list is strictly descending
/// below the head.
proof fn lemma_desc_tail(s: Seq<Die>, idxs: Seq<usize>)
    requires
        descending_below(idxs, s.len() as nat),
        idxs.len() > 0,
    ensures
        descending_below(idxs.skip(1), (s.len() - 1) as nat),
        forall|k: int| 0 <= k < idxs.skip(1).len() ==> (#[trigger] idxs.skip(1)[k]) == idxs[k + 1],
        forall|k: int| 0 <= k < idxs.skip(1).len() ==> (#[trigger] idxs.skip(1)[k]) < idxs[0],
{
    let rest = idxs.skip(1);
    assert(forall|k: int| 0 <= k < rest.len() ==> (#[trigger] rest[k]) == idxs[k + 1]);
    assert forall|k: int| 0 <= k < rest.len() implies (#[trigger] rest[k]) < idxs[0] by {
        lemma_desc_head_bound(idxs, s.len() as nat, k + 1);
    }
}

/// Swap-removing a strictly descending list of positions shrinks the pool by
/// their number and costs exactly their summed slack.
pub proof fn lemma_remove_fold(s: Seq<Die>, idxs: Seq<usize>)
    requires
        descending_below(idxs, s.len() as nat),
    ensures
        remove_fold(s, idxs).len() == s.len() - idxs.len(),
        pool_slack(remove_fold(s, idxs)) == pool_slack(s) - slack_at(s, idxs),
    decreases idxs.len(),
{
    if idxs.len() > 0 {
        let i = idxs[0] as int;
        let s1 = seq_swap_remove(s, i);
        let rest = idxs.skip(1);
        lemma_swap_remove_props(s, i);
        lemma_desc_tail(s, idxs);
        lemma_remove_fold(s1, rest);
        assert forall|k: int|
            0 <= k < rest.len() implies (#[trigger] rest[k]) < s.len() && rest[k] < s1.len()
            && s[rest[k] as int] == s1[rest[k] as int] by {
            assert(rest[k] < idxs[0]);
        }
        lemma_sum_at_agree(s, s1, rest);
    }
}

/// Swap-removal of a strictly descending list leaves every position below
/// the last (smallest) removed one untouched.
pub proof fn lemma_remove_fold_prefix(s: Seq<Die>, idxs: Seq<usize>)
    requires
        descending_below(idxs, s.len() as nat),
        idxs.len() > 0,
    ensures
        forall|j: int|
            0 <= j < idxs[idxs.len() - 1] ==> #[trigger] remove_fold(s, idxs)[j] == s[j],
    decreases idxs.len(),
{
    let i = idxs[0] as int;
    let s1 = seq_swap_remove(s, i);
    let rest = idxs.skip(1);
    let result = remove_fold(s, idxs);
    lemma_swap_remove_props(s, i);
    lemma_desc_tail(s, idxs);
    if rest.len() == 0 {
        assert(remove_fold(s1, rest) == s1);
        assert(result == s1);
    } else {
        lemma_remove_fold_prefix(s1, rest);
        assert(result == remove_fold(s1, rest));
        assert(rest[rest.len() - 1] == idxs[idxs.len() - 1]);
        assert(idxs[idxs.len() - 1] < idxs[0]);
        assert forall|j: int| 0 <= j < idxs[idxs.len() - 1] implies #[trigger] result[j]
            == s[j] by {
            assert(0 <= j < rest[rest.len() - 1]);
            assert(remove_fold(s1, rest)[j] == s1[j]);
            assert(s1[j] == s[j]);
        }
    }
}

/// Point sums over picked positions are never negative.
pub proof fn lemma_points_at_nonneg(s: Seq<Die>, idxs: Seq<usize>)
    ensures
        points_at(s, idxs) >= 0,
    decreases idxs.len(),
{
    if idxs.len() > 0 {
        lemma_points_at_nonneg(s, idxs.skip(1));
    }
}

/// On a rolled pool, the points picked up at any in-range positions stay at
/// or below those positions' slack.
pub proof fn lemma_points_at_le_slack_at(s: Seq<Die>, idxs: Seq<usize>)
    requires
        dice_rolled(s),
        forall|k: int| 0 <= k < idxs.len() ==> (#[trigger] idxs[k]) < s.len(),
    ensures
        points_at(s, idxs) <= slack_at(s, idxs),
    decreases idxs.len(),
{
    if idxs.len() > 0 {
        let rest = idxs.skip(1);
        assert(forall|k: int| 0 <= k < rest.len() ==> (#[trigger] rest[k]) == idxs[k + 1]);
        lemma_points_at_le_slack_at(s, rest);
        assert(idxs[0] < s.len());
    }
}

/// Point sums distribute over concatenation of position lists.
pub proof fn lemma_points_at_append(s: Seq<Die>, a: Seq<usize>, b: Seq<usize>)
    ensures
        points_at(s, a + b) == points_at(s, a) + points_at(s, b),
    decreases a.len(),
{
    if a.len() == 0 {
        assert((a + b) =~= b);
    } else {
        assert((a + b).skip(1) =~= a.skip(1) + b);
        assert((a + b)[0] == a[0]);
        lemma_points_at_append(s, a.skip(1), b);
    }
}

/// Swap-removal folds distribute over concatenation of position lists.
pub proof fn lemma_remove_fold_append(s: Seq<Die>, a: Seq<usize>, b: Seq<usize>)
    ensures
        remove_fold(s, a + b) == remove_fold(remove_fold(s, a), b),
    decreases a.len(),
{
    if a.len() == 0 {
        assert((a + b) =~= b);
    } else {
        assert((a + b).skip(1) =~= a.skip(1) + b);
        assert((a + b)[0] == a[0]);
        lemma_remove_fold_append(seq_swap_remove(s, a[0] as int), a.skip(1), b);
    }
}

/// The whole pool's slack is never negative.
pub proof fn lemma_pool_slack_nonneg(s: Seq<Die>)
    ensures
        pool_slack(s) >= 0,
    decreases s.len(),
{
    if s.len() > 0 {
        lemma_pool_slack_nonneg(s.drop_last());
    }
}

/// Slack depends only on the face counts: pools with the same faces in the
/// same order have the same slack, whatever their dice show.
pub proof fn lemma_pool_slack_same_faces(a: Seq<Die>, b: Seq<Die>)
    requires
        a.len() == b.len(),
        forall|i: int| 0 <= i < a.len() ==> (#[trigger] a[i]).faces == b[i].faces,
    ensures
        pool_slack(a) == pool_slack(b),
    decreases a.len(),
{
    if a.len() > 0 {
        assert(forall|i: int|
            0 <= i < a.drop_last().len() ==> (#[trigger] a.drop_last()[i]).faces
                == b.drop_last()[i].faces);
        lemma_pool_slack_same_faces(a.drop_last(), b.drop_last());
        assert(a.last().faces == b.last().faces);
    }
}

/// Appending a die adds its slack.
pub proof fn lemma_pool_slack_push(s: Seq<Die>, d: Die)
    ensures
        pool_slack(s.push(d)) == pool_slack(s) + spec_faces_value(d.faces) - 1,
{
    assert(s.push(d).drop_last() =~= s);
    assert(s.push(d).last() == d);
}

} // verus!
