//! The strategy catalog: pure decision rules mapping an observed pool to a
//! non-empty set of positions to remove. Every rule is deterministic in the
//! pool's (faces, points) pairs; randomness only enters through the roll that
//! produced the pool. Each rule's exec function returns exactly the value of
//! its spec counterpart, so two calls on equal pools return equal picks.

use vstd::prelude::*;

use crate::die::Die;
use crate::die::Faces;
use crate::die::dice_wf;
use crate::die::spec_faces_value;
use vstd::string::StringExecFns;

verus! {

/// Positions below `n` whose die shows exactly `v` points, ascending.
pub open spec fn value_indices_upto(s: Seq<Die>, n: int, v: u8) -> Seq<usize>
    decreases n,
{
    if n <= 0 {
        Seq::empty()
    } else {
        value_indices_upto(s, n - 1, v) + if s[n - 1].points == v {
            seq![(n - 1) as usize]
        } else {
            Seq::empty()
        }
    }
}

/// Positions whose die rolled its maximum face: zero points left.
pub open spec fn zero_indices(s: Seq<Die>) -> Seq<usize> {
    value_indices_upto(s, s.len() as int, 0)
}

/// Positions below `n` of zero-point distinguished (non-six-faced) dice,
/// ascending.
pub open spec fn big_zero_indices_upto(s: Seq<Die>, n: int) -> Seq<usize>
    decreases n,
{
    if n <= 0 {
        Seq::empty()
    } else {
        big_zero_indices_upto(s, n - 1) + if s[n - 1].points == 0 && s[n - 1].faces != Faces::Six {
            seq![(n - 1) as usize]
        } else {
            Seq::empty()
        }
    }
}

/// Positions whose die shows `v` points are listed exactly, in ascending
/// order, by `value_indices_upto`.
pub proof fn lemma_value_indices(s: Seq<Die>, n: int, v: u8)
    requires
        0 <= n <= usize::MAX,
        n <= s.len(),
    ensures
        forall|k: int|
            0 <= k < value_indices_upto(s, n, v).len()
                ==> (#[trigger] value_indices_upto(s, n, v)[k]) < n && s[value_indices_upto(
                s,
                n,
                v,
            )[k] as int].points == v,
        forall|j: int|
            0 <= j < n && s[j].points == v ==> value_indices_upto(s, n, v).contains(j as usize),
        forall|k: int|
            0 < k < value_indices_upto(s, n, v).len()
                ==> (#[trigger] value_indices_upto(s, n, v)[k]) > value_indices_upto(s, n, v)[k
                - 1],
    decreases n,
{
    if n > 0 {
        lemma_value_indices(s, n - 1, v);
        let lower = value_indices_upto(s, n - 1, v);
        let cur = value_indices_upto(s, n, v);
        if s[n - 1].points == v {
            assert(cur == lower + seq![(n - 1) as usize]);
            assert(forall|k: int| 0 <= k < lower.len() ==> (#[trigger] cur[k]) == lower[k]);
            assert(cur[cur.len() - 1] == (n - 1) as usize);
            assert forall|j: int| 0 <= j < n && s[j].points == v implies cur.contains(
                j as usize,
            ) by {
                if j == n - 1 {
                    assert(cur[cur.len() - 1] == j as usize);
                } else {
                    assert(lower.contains(j as usize));
                    let k = choose|k: int| 0 <= k < lower.len() && lower[k] == j as usize;
                    assert(cur[k] == j as usize);
                }
            }
        } else {
            assert(cur == lower);
            assert forall|j: int| 0 <= j < n && s[j].points == v implies cur.contains(
                j as usize,
            ) by {
                assert(j != n - 1);
            }
        }
    }
}

/// Zero-point distinguished dice are listed exactly, in ascending order, by
/// `big_zero_indices_upto`.
pub proof fn lemma_big_zero_indices(s: Seq<Die>, n: int)
    requires
        0 <= n <= usize::MAX,
        n <= s.len(),
    ensures
        forall|k: int|
            0 <= k < big_zero_indices_upto(s, n).len()
                ==> (#[trigger] big_zero_indices_upto(s, n)[k]) < n && s[big_zero_indices_upto(
                s,
                n,
            )[k] as int].points == 0 && s[big_zero_indices_upto(s, n)[k] as int].faces
                != Faces::Six,
        forall|j: int|
            0 <= j < n && s[j].points == 0 && s[j].faces != Faces::Six ==> big_zero_indices_upto(
                s,
                n,
            ).contains(j as usize),
    decreases n,
{
    if n > 0 {
        lemma_big_zero_indices(s, n - 1);
        let lower = big_zero_indices_upto(s, n - 1);
        let cur = big_zero_indices_upto(s, n);
        if s[n - 1].points == 0 && s[n - 1].faces != Faces::Six {
            assert(cur == lower + seq![(n - 1) as usize]);
            assert(forall|k: int| 0 <= k < lower.len() ==> (#[trigger] cur[k]) == lower[k]);
            assert(cur[cur.len() - 1] == (n - 1) as usize);
            assert forall|j: int|
                0 <= j < n && s[j].points == 0 && s[j].faces != Faces::Six implies cur.contains(
                j as usize,
            ) by {
                if j == n - 1 {
                    assert(cur[cur.len() - 1] == j as usize);
                } else {
                    assert(lower.contains(j as usize));
                    let k = choose|k: int| 0 <= k < lower.len() && lower[k] == j as usize;
                    assert(cur[k] == j as usize);
                }
            }
        } else {
            assert(cur == lower);
            assert forall|j: int|
                0 <= j < n && s[j].points == 0 && s[j].faces != Faces::Six implies cur.contains(
                j as usize,
            ) by {
                assert(j != n - 1);
            }
        }
    }
}

/// The first position among `s[..n]` with the lowest points.
pub open spec fn min_index_upto(s: Seq<Die>, n: int) -> int
    decreases n,
{
    if n <= 1 {
        0
    } else {
        let p = min_index_upto(s, n - 1);
        if s[n - 1].points < s[p].points {
            n - 1
        } else {
            p
        }
    }
}

/// The first position of the whole pool with the lowest points.
pub open spec fn min_points_index(s: Seq<Die>) -> int {
    min_index_upto(s, s.len() as int)
}

/// `min_index_upto` is in range, carries points at or below every die's, and
/// every earlier die carries strictly more: it is the first minimum.
pub proof fn lemma_min_index(s: Seq<Die>, n: int)
    requires
        1 <= n <= s.len(),
    ensures
        0 <= min_index_upto(s, n) < n,
        forall|j: int| 0 <= j < n ==> s[min_index_upto(s, n)].points <= (#[trigger] s[j]).points,
        forall|j: int|
            0 <= j < min_index_upto(s, n) ==> (#[trigger] s[j]).points > s[min_index_upto(
                s,
                n,
            )].points,
    decreases n,
{
    if n > 1 {
        lemma_min_index(s, n - 1);
    }
}

/// `a` beats `b` for the big-min pick: strictly lower points, or equal
/// points on strictly more faces.
pub open spec fn big_min_prefers(a: Die, b: Die) -> bool {
    ||| a.points < b.points
    ||| (a.points == b.points && spec_faces_value(a.faces) > spec_faces_value(b.faces))
}

/// The first position among `s[..n]` that no die beats under
/// `big_min_prefers`.
pub open spec fn big_min_index_upto(s: Seq<Die>, n: int) -> int
    decreases n,
{
    if n <= 1 {
        0
    } else {
        let p = big_min_index_upto(s, n - 1);
        if big_min_prefers(s[n - 1], s[p]) {
            n - 1
        } else {
            p
        }
    }
}

/// The first position of the whole pool that no die beats under
/// `big_min_prefers`.
pub open spec fn big_min_index(s: Seq<Die>) -> int {
    big_min_index_upto(s, s.len() as int)
}

/// `big_min_index_upto` is in range, beaten by no die, and beats every
/// earlier die: it is the first optimum under `big_min_prefers`.
pub proof fn lemma_big_min_index(s: Seq<Die>, n: int)
    requires
        1 <= n <= s.len(),
    ensures
        0 <= big_min_index_upto(s, n) < n,
        forall|j: int|
            0 <= j < n ==> !big_min_prefers(#[trigger] s[j], s[big_min_index_upto(s, n)]),
        forall|j: int|
            0 <= j < big_min_index_upto(s, n) ==> big_min_prefers(
                s[big_min_index_upto(s, n)],
                #[trigger] s[j],
            ),
    decreases n,
{
    if n > 1 {
        lemma_big_min_index(s, n - 1);
    }
}

/// The removal-priority score of a die: its face count less four times its
/// points. Higher is better - it favours high-faced dice showing low points.
pub open spec fn prio_score(d: Die) -> int {
    spec_faces_value(d.faces) - 4 * d.points
}

/// `a` beats `b` for the priority pick: strictly higher score, or an equal
/// score on strictly more faces.
pub open spec fn prio_prefers(a: Die, b: Die) -> bool {
    ||| prio_score(a) > prio_score(b)
    ||| (prio_score(a) == prio_score(b) && spec_faces_value(a.faces) > spec_faces_value(b.faces))
}

/// The first position among `s[..n]` that no die beats under `prio_prefers`.
pub open spec fn prio_index_upto(s: Seq<Die>, n: int) -> int
    decreases n,
{
    if n <= 1 {
        0
    } else {
        let p = prio_index_upto(s, n - 1);
        if prio_prefers(s[n - 1], s[p]) {
            n - 1
        } else {
            p
        }
    }
}

/// The first position of the whole pool that no die beats under
/// `prio_prefers`.
pub open spec fn prio_index(s: Seq<Die>) -> int {
    prio_index_upto(s, s.len() as int)
}

/// `prio_index_upto` is in range, beaten by no die, and beats every earlier
/// die: it is the first optimum under `prio_prefers`.
pub proof fn lemma_prio_index(s: Seq<Die>, n: int)
    requires
        1 <= n <= s.len(),
    ensures
        0 <= prio_index_upto(s, n) < n,
        forall|j: int| 0 <= j < n ==> !prio_prefers(#[trigger] s[j], s[prio_index_upto(s, n)]),
        forall|j: int|
            0 <= j < prio_index_upto(s, n) ==> prio_prefers(
                s[prio_index_upto(s, n)],
                #[trigger] s[j],
            ),
    decreases n,
{
    if n > 1 {
        lemma_prio_index(s, n - 1);
    }
}

/// Find all dice with zero points (maximum value rolled), by position.
pub fn find_zero_point_dice(dice: &Vec<Die>) -> (r: Vec<usize>)
    ensures
        r@ == zero_indices(dice@),
{
    find_value_point_dice(dice, 0)
}

/// Positions of all dice showing exactly `v` points, ascending.
fn find_value_point_dice(dice: &Vec<Die>, v: u8) -> (r: Vec<usize>)
    ensures
        r@ == value_indices_upto(dice@, dice@.len() as int, v),
{
    let mut r: Vec<usize> = Vec::new();
    let n = dice.len();
    let mut i: usize = 0;
    proof {
        assert(r@ =~= value_indices_upto(dice@, 0, v));
    }
    while i < n
        invariant
            i <= n,
            n == dice@.len(),
            r@ == value_indices_upto(dice@, i as int, v),
        decreases n - i,
    {
        if dice[i].points() == v {
            proof {
                assert(r@ + seq![i] =~= value_indices_upto(dice@, i + 1, v));
            }
            r.push(i);
        } else {
            proof {
                assert(r@ + Seq::<usize>::empty() =~= r@);
            }
        }
        i += 1;
    }
    r
}

/// Find all zero-point dice whose face count is not the default six.
pub fn find_big_zero_dice(dice: &Vec<Die>) -> (r: Vec<usize>)
    ensures
        r@ == big_zero_indices_upto(dice@, dice@.len() as int),
{
    let mut r: Vec<usize> = Vec::new();
    let n = dice.len();
    let mut i: usize = 0;
    proof {
        assert(r@ =~= big_zero_indices_upto(dice@, 0));
    }
    while i < n
        invariant
            i <= n,
            n == dice@.len(),
            r@ == big_zero_indices_upto(dice@, i as int),
        decreases n - i,
    {
        let d = dice[i];
        if d.points() == 0 && !matches!(d.faces, Faces::Six) {
            proof {
                assert(r@ + seq![i] =~= big_zero_indices_upto(dice@, i + 1));
            }
            r.push(i);
        } else {
            proof {
                assert(r@ + Seq::<usize>::empty() =~= r@);
            }
        }
        i += 1;
    }
    r
}

/// Find the position of the single die with minimum points; ties go to the
/// first position encountered.
pub fn find_min_points_die(dice: &Vec<Die>) -> (r: usize)
    requires
        dice@.len() > 0,
    ensures
        r as int == min_points_index(dice@),
{
    let mut best: usize = 0;
    let mut i: usize = 1;
    while i < dice.len()
        invariant
            1 <= i <= dice@.len(),
            best < i,
            best as int == min_index_upto(dice@, i as int),
        decreases dice@.len() - i,
    {
        if dice[i].points() < dice[best].points() {
            best = i;
        }
        i += 1;
    }
    best
}

/// Find the position of the die with minimum points, ties broken by
/// preferring the larger face count, then the first position.
pub fn find_big_min_die(dice: &Vec<Die>) -> (r: usize)
    requires
        dice@.len() > 0,
    ensures
        r as int == big_min_index(dice@),
{
    let mut best: usize = 0;
    let mut i: usize = 1;
    while i < dice.len()
        invariant
            1 <= i <= dice@.len(),
            best < i,
            best as int == big_min_index_upto(dice@, i as int),
        decreases dice@.len() - i,
    {
        let cur = dice[i];
        let b = dice[best];
        if cur.points < b.points || (cur.points == b.points && cur.faces.value()
            > b.faces.value()) {
            best = i;
        }
        i += 1;
    }
    best
}

/// The removal-priority score of a die: face count less four times points.
pub fn prio_min_for(die: &Die) -> (r: i8)
    requires
        crate::die::die_wf(*die),
    ensures
        r as int == prio_score(*die),
{
    die.faces.value() as i8 - 4 * (die.points() as i8)
}

/// What MinPoints picks: the single first-minimum-points position.
pub open spec fn spec_min_points_select(s: Seq<Die>) -> Seq<usize> {
    seq![min_points_index(s) as usize]
}

/// What ZeroOrMin picks: every zero-point position if any exists, otherwise
/// the MinPoints pick.
pub open spec fn spec_zero_or_min_select(s: Seq<Die>) -> Seq<usize> {
    if zero_indices(s).len() > 0 {
        zero_indices(s)
    } else {
        spec_min_points_select(s)
    }
}

/// What PrioritizeMaxValue picks: every zero-point position if any exists,
/// otherwise the single first optimum under `prio_prefers`.
pub open spec fn spec_prio_select(s: Seq<Die>) -> Seq<usize> {
    if zero_indices(s).len() > 0 {
        zero_indices(s)
    } else {
        seq![prio_index(s) as usize]
    }
}

/// What ZeroOrBigMin picks: every zero-point position if any exists,
/// otherwise the single first optimum under `big_min_prefers`.
pub open spec fn spec_zero_or_big_min_select(s: Seq<Die>) -> Seq<usize> {
    if zero_indices(s).len() > 0 {
        zero_indices(s)
    } else {
        seq![big_min_index(s) as usize]
    }
}

/// Remove the single die with the lowest points; ties go to the first
/// position.
pub fn one_min_strategy(dice: &Vec<Die>) -> (r: Vec<usize>)
    requires
        dice@.len() > 0,
    ensures
        r@ == spec_min_points_select(dice@),
{
    let m = find_min_points_die(dice);
    let mut r: Vec<usize> = Vec::new();
    r.push(m);
    proof {
        assert(r@ =~= spec_min_points_select(dice@));
    }
    r
}

/// Remove all dice with zero points, or the single minimum-points die if
/// none shows zero.
pub fn all_zero_or_one_min_strategy(dice: &Vec<Die>) -> (r: Vec<usize>)
    requires
        dice@.len() > 0,
    ensures
        r@ == spec_zero_or_min_select(dice@),
{
    let zero_indices = find_zero_point_dice(dice);
    if zero_indices.len() > 0 {
        zero_indices
    } else {
        one_min_strategy(dice)
    }
}

/// Remove all zero-point dice; otherwise the die with the best priority
/// score (high face count, low points), ties preferring more faces, then the
/// first position.
pub fn all_zero_or_prio_min_strategy(dice: &Vec<Die>) -> (r: Vec<usize>)
    requires
        dice@.len() > 0,
        crate::die::dice_wf(dice@),
    ensures
        r@ == spec_prio_select(dice@),
{
    let zero_indices = find_zero_point_dice(dice);
    if zero_indices.len() > 0 {
        return zero_indices;
    }

    let mut best: usize = 0;
    let mut i: usize = 1;
    while i < dice.len()
        invariant
            1 <= i <= dice@.len(),
            best < i,
            crate::die::dice_wf(dice@),
            best as int == prio_index_upto(dice@, i as int),
        decreases dice@.len() - i,
    {
        let cur = dice[i];
        let b = dice[best];
        let cur_score = prio_min_for(&cur);
        let best_score = prio_min_for(&b);
        if cur_score > best_score || (cur_score == best_score && cur.faces.value()
            > b.faces.value()) {
            best = i;
        }
        i += 1;
    }
    let mut r: Vec<usize> = Vec::new();
    r.push(best);
    proof {
        assert(r@ =~= spec_prio_select(dice@));
    }
    r
}

/// Twice a die's regret: what removing it now forfeits against re-rolling
/// it. The expected shortfall of a re-roll is (faces - 1) / 2, so the regret
/// is points - (faces - 1) / 2; it is doubled here to stay in integers
/// without changing the order.
pub open spec fn regret_score(d: Die) -> int {
    2 * d.points - (spec_faces_value(d.faces) - 1)
}

/// `a` beats `b` for the regret pick: strictly lower regret.
pub open spec fn regret_prefers(a: Die, b: Die) -> bool {
    regret_score(a) < regret_score(b)
}

/// The first position among `s[..n]` that no die beats under
/// `regret_prefers`.
pub open spec fn regret_index_upto(s: Seq<Die>, n: int) -> int
    decreases n,
{
    if n <= 1 {
        0
    } else {
        let p = regret_index_upto(s, n - 1);
        if regret_prefers(s[n - 1], s[p]) {
            n - 1
        } else {
            p
        }
    }
}

/// The first position of the whole pool with the lowest regret.
pub open spec fn regret_index(s: Seq<Die>) -> int {
    regret_index_upto(s, s.len() as int)
}

/// `regret_index_upto` is in range, beaten by no die, and beats every
/// earlier die: it is the first minimum-regret position.
pub proof fn lemma_regret_index(s: Seq<Die>, n: int)
    requires
        1 <= n <= s.len(),
    ensures
        0 <= regret_index_upto(s, n) < n,
        forall|j: int| 0 <= j < n ==> !regret_prefers(#[trigger] s[j], s[regret_index_upto(s, n)]),
        forall|j: int|
            0 <= j < regret_index_upto(s, n) ==> regret_prefers(
                s[regret_index_upto(s, n)],
                #[trigger] s[j],
            ),
    decreases n,
{
    if n > 1 {
        lemma_regret_index(s, n - 1);
    }
}

/// A die's relative-value weight numerator: minimizing
/// points * (1 + (1 - rolled_value / faces)) = points * (faces + points) / faces
/// over the pool. Weights are compared as exact fractions, by
/// cross-multiplication with the face counts.
pub open spec fn hybrid_weight(d: Die) -> int {
    d.points * (spec_faces_value(d.faces) + d.points)
}

/// `a` beats `b` for the hybrid pick: a strictly lower relative-value
/// weight, compared by cross-multiplication.
pub open spec fn hybrid_prefers(a: Die, b: Die) -> bool {
    hybrid_weight(a) * spec_faces_value(b.faces) < hybrid_weight(b) * spec_faces_value(a.faces)
}

/// The first position among `s[..n]` that no die beats under
/// `hybrid_prefers`.
pub open spec fn hybrid_index_upto(s: Seq<Die>, n: int) -> int
    decreases n,
{
    if n <= 1 {
        0
    } else {
        let p = hybrid_index_upto(s, n - 1);
        if hybrid_prefers(s[n - 1], s[p]) {
            n - 1
        } else {
            p
        }
    }
}

/// The first position of the whole pool with the lowest hybrid weight.
pub open spec fn hybrid_index(s: Seq<Die>) -> int {
    hybrid_index_upto(s, s.len() as int)
}

/// Comparing fractions by cross-multiplication is transitive: if
/// wa/fa < wb/fb and wb/fb <= wj/fj, then wa/fa < wj/fj.
proof fn lemma_ratio_trans(wa: int, fa: int, wb: int, fb: int, wj: int, fj: int)
    requires
        fa > 0,
        fb > 0,
        fj > 0,
        wa * fb < wb * fa,
        wb * fj <= wj * fb,
    ensures
        wa * fj < wj * fa,
{
    assert(wa * fj < wj * fa) by (nonlinear_arith)
        requires
            fa > 0,
            fb > 0,
            fj > 0,
            wa * fb < wb * fa,
            wb * fj <= wj * fb,
    ;
}

/// `hybrid_index_upto` is in range, beaten by no die, and beats every
/// earlier die: it is the first optimum under `hybrid_prefers`.
pub proof fn lemma_hybrid_index(s: Seq<Die>, n: int)
    requires
        1 <= n <= s.len(),
    ensures
        0 <= hybrid_index_upto(s, n) < n,
        forall|j: int| 0 <= j < n ==> !hybrid_prefers(#[trigger] s[j], s[hybrid_index_upto(s, n)]),
        forall|j: int|
            0 <= j < hybrid_index_upto(s, n) ==> hybrid_prefers(
                s[hybrid_index_upto(s, n)],
                #[trigger] s[j],
            ),
    decreases n,
{
    if n > 1 {
        lemma_hybrid_index(s, n - 1);
        let p = hybrid_index_upto(s, n - 1);
        let b = hybrid_index_upto(s, n);
        let d = s[n - 1];
        if hybrid_prefers(d, s[p]) {
            assert forall|j: int| 0 <= j < n - 1 implies hybrid_prefers(d, #[trigger] s[j]) by {
                lemma_ratio_trans(
                    hybrid_weight(d),
                    spec_faces_value(d.faces) as int,
                    hybrid_weight(s[p]),
                    spec_faces_value(s[p].faces) as int,
                    hybrid_weight(s[j]),
                    spec_faces_value(s[j].faces) as int,
                );
            }
        }
    }
}

/// The number of distinguished (non-six-faced) dice among `s[..n]`.
pub open spec fn big_count_upto(s: Seq<Die>, n: int) -> int
    decreases n,
{
    if n <= 0 {
        0
    } else {
        big_count_upto(s, n - 1) + if s[n - 1].faces != Faces::Six {
            1int
        } else {
            0int
        }
    }
}

/// Count the distinguished (non-six-faced) dice of the pool.
fn count_big_dice(dice: &Vec<Die>) -> (r: usize)
    ensures
        r as int == big_count_upto(dice@, dice@.len() as int),
{
    let mut r: usize = 0;
    let n = dice.len();
    let mut i: usize = 0;
    while i < n
        invariant
            i <= n,
            n == dice@.len(),
            r <= i,
            r as int == big_count_upto(dice@, i as int),
        decreases n - i,
    {
        if !matches!(dice[i].faces, Faces::Six) {
            r += 1;
        }
        i += 1;
    }
    r
}

/// What SameValue picks: every position whose points equal the minimum.
pub open spec fn spec_same_value_select(s: Seq<Die>) -> Seq<usize> {
    value_indices_upto(s, s.len() as int, s[min_points_index(s)].points)
}

/// What MinimizeRegret picks: every zero-point position if any exists,
/// otherwise the single first minimum-regret position.
pub open spec fn spec_regret_select(s: Seq<Die>) -> Seq<usize> {
    if zero_indices(s).len() > 0 {
        zero_indices(s)
    } else {
        seq![regret_index(s) as usize]
    }
}

/// What Hybrid picks: every zero-point position if any exists, otherwise the
/// single first minimum-weight position.
pub open spec fn spec_hybrid_select(s: Seq<Die>) -> Seq<usize> {
    if zero_indices(s).len() > 0 {
        zero_indices(s)
    } else {
        seq![hybrid_index(s) as usize]
    }
}

/// What BigZeroOrMin picks. Zero-point distinguished dice take priority: all
/// of them, or all zero-point dice of any kind when every distinguished die
/// shows zero. With no distinguished zero but some ordinary zero: all zeros
/// if no distinguished die remains, else only the first zero. Otherwise the
/// big-min pick.
pub open spec fn spec_big_zero_select(s: Seq<Die>) -> Seq<usize> {
    let bz = big_zero_indices_upto(s, s.len() as int);
    let zeros = zero_indices(s);
    if bz.len() > 0 {
        if big_count_upto(s, s.len() as int) == bz.len() {
            zeros
        } else {
            bz
        }
    } else if zeros.len() > 0 {
        if big_count_upto(s, s.len() as int) == 0 {
            zeros
        } else {
            seq![zeros[0]]
        }
    } else {
        seq![big_min_index(s) as usize]
    }
}

/// Remove every die whose points equal the pool's minimum points.
pub fn same_value_strategy(dice: &Vec<Die>) -> (r: Vec<usize>)
    requires
        dice@.len() > 0,
    ensures
        r@ == spec_same_value_select(dice@),
{
    let m = find_min_points_die(dice);
    proof {
        lemma_min_index(dice@, dice@.len() as int);
    }
    let v = dice[m].points();
    find_value_point_dice(dice, v)
}

/// Remove all zero-point dice; otherwise the single die whose removal
/// forfeits the least expected future value.
pub fn minimize_regret_strategy(dice: &Vec<Die>) -> (r: Vec<usize>)
    requires
        dice@.len() > 0,
    ensures
        r@ == spec_regret_select(dice@),
{
    let zero_indices = find_zero_point_dice(dice);
    if zero_indices.len() > 0 {
        return zero_indices;
    }

    let mut best: usize = 0;
    let mut i: usize = 1;
    while i < dice.len()
        invariant
            1 <= i <= dice@.len(),
            best < i,
            best as int == regret_index_upto(dice@, i as int),
        decreases dice@.len() - i,
    {
        let cur = dice[i];
        let b = dice[best];
        let cur_regret = 2 * (cur.points as i32) - (cur.faces.value() as i32 - 1);
        let best_regret = 2 * (b.points as i32) - (b.faces.value() as i32 - 1);
        if cur_regret < best_regret {
            best = i;
        }
        i += 1;
    }
    let mut r: Vec<usize> = Vec::new();
    r.push(best);
    proof {
        assert(r@ =~= spec_regret_select(dice@));
    }
    r
}

/// Remove all zero-point dice; otherwise the single die with the lowest
/// relative-value weight points * (1 + (1 - rolled_value / faces)), compared
/// as an exact fraction.
pub fn hybrid_strategy(dice: &Vec<Die>) -> (r: Vec<usize>)
    requires
        dice@.len() > 0,
    ensures
        r@ == spec_hybrid_select(dice@),
{
    let zero_indices = find_zero_point_dice(dice);
    if zero_indices.len() > 0 {
        return zero_indices;
    }

    let mut best: usize = 0;
    let mut i: usize = 1;
    while i < dice.len()
        invariant
            1 <= i <= dice@.len(),
            best < i,
            best as int == hybrid_index_upto(dice@, i as int),
        decreases dice@.len() - i,
    {
        let cur = dice[i];
        let b = dice[best];
        let pc = cur.points as u32;
        let fc = cur.faces.value() as u32;
        let pb = b.points as u32;
        let fb = b.faces.value() as u32;
        proof {
            assert(pc * (fc + pc) <= 68085) by (nonlinear_arith)
                requires
                    pc <= 255,
                    fc <= 12,
            ;
            assert(pb * (fb + pb) <= 68085) by (nonlinear_arith)
                requires
                    pb <= 255,
                    fb <= 12,
            ;
        }
        let wc = pc * (fc + pc);
        let wb = pb * (fb + pb);
        proof {
            assert(wc * fb <= 817020) by (nonlinear_arith)
                requires
                    wc <= 68085,
                    fb <= 12,
            ;
            assert(wb * fc <= 817020) by (nonlinear_arith)
                requires
                    wb <= 68085,
                    fc <= 12,
            ;
        }
        if wc * fb < wb * fc {
            best = i;
        }
        i += 1;
    }
    let mut r: Vec<usize> = Vec::new();
    r.push(best);
    proof {
        assert(r@ =~= spec_hybrid_select(dice@));
    }
    r
}

/// Zero-point distinguished dice take priority; see `spec_big_zero_select`
/// for the exact tie-resolution rule.
pub fn all_big_zero_or_one_zero_or_big_min_strategy(dice: &Vec<Die>) -> (r: Vec<usize>)
    requires
        dice@.len() > 0,
    ensures
        r@ == spec_big_zero_select(dice@),
{
    let big_zeros = find_big_zero_dice(dice);
    if big_zeros.len() > 0 {
        let big_dice_count = count_big_dice(dice);
        if big_dice_count == big_zeros.len() {
            return find_zero_point_dice(dice);
        }
        return big_zeros;
    }

    let all_zeros = find_zero_point_dice(dice);
    if all_zeros.len() > 0 {
        if count_big_dice(dice) == 0 {
            return all_zeros;
        }
        let first = all_zeros[0];
        let mut r: Vec<usize> = Vec::new();
        r.push(first);
        proof {
            assert(r@ =~= spec_big_zero_select(dice@));
        }
        return r;
    }

    let m = find_big_min_die(dice);
    let mut r: Vec<usize> = Vec::new();
    r.push(m);
    proof {
        assert(r@ =~= spec_big_zero_select(dice@));
    }
    r
}

/// Remove all zero-point dice; otherwise the big-min pick: lowest points,
/// ties preferring more faces.
pub fn all_zero_or_big_min_strategy(dice: &Vec<Die>) -> (r: Vec<usize>)
    requires
        dice@.len() > 0,
    ensures
        r@ == spec_zero_or_big_min_select(dice@),
{
    let zero_indices = find_zero_point_dice(dice);
    if zero_indices.len() > 0 {
        return zero_indices;
    }

    let m = find_big_min_die(dice);
    let mut r: Vec<usize> = Vec::new();
    r.push(m);
    proof {
        assert(r@ =~= spec_zero_or_big_min_select(dice@));
    }
    r
}

/// The catalog of removal strategies, selectable by name. Each is a pure
/// rule over the observed pool's (faces, points) pairs.
#[derive(Clone, Copy, PartialEq, Eq, Structural)]
pub enum StrategyKind {
    MinPoints,
    ZeroOrMin,
    SameValue,
    PrioritizeMaxValue,
    MinimizeRegret,
    Hybrid,
    ZeroOrBigMin,
    BigZeroOrMin,
}

/// The positions a strategy picks from an observed pool.
pub open spec fn spec_select(kind: StrategyKind, s: Seq<Die>) -> Seq<usize> {
    match kind {
        StrategyKind::MinPoints => spec_min_points_select(s),
        StrategyKind::ZeroOrMin => spec_zero_or_min_select(s),
        StrategyKind::SameValue => spec_same_value_select(s),
        StrategyKind::PrioritizeMaxValue => spec_prio_select(s),
        StrategyKind::MinimizeRegret => spec_regret_select(s),
        StrategyKind::Hybrid => spec_hybrid_select(s),
        StrategyKind::ZeroOrBigMin => spec_zero_or_big_min_select(s),
        StrategyKind::BigZeroOrMin => spec_big_zero_select(s),
    }
}

/// The registry name of a strategy.
pub open spec fn spec_strategy_name(kind: StrategyKind) -> Seq<char> {
    match kind {
        StrategyKind::MinPoints => "One Min"@,
        StrategyKind::ZeroOrMin => "All Zero/One Min"@,
        StrategyKind::SameValue => "Same Value"@,
        StrategyKind::PrioritizeMaxValue => "All Zero/Prio Min"@,
        StrategyKind::MinimizeRegret => "Minimize Regret"@,
        StrategyKind::Hybrid => "Hybrid"@,
        StrategyKind::ZeroOrBigMin => "All Zero/Big Min"@,
        StrategyKind::BigZeroOrMin => "All Big Zero/One Zero/Big Min"@,
    }
}

impl StrategyKind {
    /// Ask the strategy which positions to remove from the observed pool.
    pub fn select(&self, dice: &Vec<Die>) -> (r: Vec<usize>)
        requires
            dice@.len() > 0,
            dice_wf(dice@),
        ensures
            r@ == spec_select(*self, dice@),
    {
        match self {
            StrategyKind::MinPoints => one_min_strategy(dice),
            StrategyKind::ZeroOrMin => all_zero_or_one_min_strategy(dice),
            StrategyKind::SameValue => same_value_strategy(dice),
            StrategyKind::PrioritizeMaxValue => all_zero_or_prio_min_strategy(dice),
            StrategyKind::MinimizeRegret => minimize_regret_strategy(dice),
            StrategyKind::Hybrid => hybrid_strategy(dice),
            StrategyKind::ZeroOrBigMin => all_zero_or_big_min_strategy(dice),
            StrategyKind::BigZeroOrMin => all_big_zero_or_one_zero_or_big_min_strategy(dice),
        }
    }

    /// The strategy's registry name.
    pub fn name(&self) -> (r: String)
        ensures
            r@ == spec_strategy_name(*self),
    {
        match self {
            StrategyKind::MinPoints => String::from_str("One Min"),
            StrategyKind::ZeroOrMin => String::from_str("All Zero/One Min"),
            StrategyKind::SameValue => String::from_str("Same Value"),
            StrategyKind::PrioritizeMaxValue => String::from_str("All Zero/Prio Min"),
            StrategyKind::MinimizeRegret => String::from_str("Minimize Regret"),
            StrategyKind::Hybrid => String::from_str("Hybrid"),
            StrategyKind::ZeroOrBigMin => String::from_str("All Zero/Big Min"),
            StrategyKind::BigZeroOrMin => String::from_str("All Big Zero/One Zero/Big Min"),
        }
    }
}

/// Every strategy picks at least one position, and only positions of the
/// observed pool: each round is guaranteed to shrink it.
pub proof fn lemma_select_valid(kind: StrategyKind, s: Seq<Die>)
    requires
        0 < s.len() <= usize::MAX,
    ensures
        spec_select(kind, s).len() > 0,
        forall|k: int|
            0 <= k < spec_select(kind, s).len() ==> (#[trigger] spec_select(kind, s)[k])
                < s.len(),
{
    let n = s.len() as int;
    lemma_value_indices(s, n, 0);
    lemma_big_zero_indices(s, n);
    lemma_min_index(s, n);
    lemma_big_min_index(s, n);
    lemma_prio_index(s, n);
    lemma_regret_index(s, n);
    lemma_hybrid_index(s, n);
    match kind {
        StrategyKind::SameValue => {
            let v = s[min_points_index(s)].points;
            lemma_value_indices(s, n, v);
            assert(value_indices_upto(s, n, v).contains(min_points_index(s) as usize));
        },
        StrategyKind::BigZeroOrMin => {
            let bz = big_zero_indices_upto(s, n);
            if bz.len() > 0 {
                assert(s[bz[0] as int].points == 0);
                assert(zero_indices(s).contains(bz[0]));
            }
        },
        _ => {},
    }
}

/// Zero-point dice are always removed under ZeroOrMin, SameValue,
/// PrioritizeMaxValue, MinimizeRegret and Hybrid: whenever at least one die
/// shows zero points after a roll, every position showing zero is picked.
pub proof fn lemma_zero_dice_always_removed(kind: StrategyKind, s: Seq<Die>)
    requires
        0 < s.len() <= usize::MAX,
        kind is ZeroOrMin || kind is SameValue || kind is PrioritizeMaxValue
            || kind is MinimizeRegret || kind is Hybrid,
        exists|i: int| 0 <= i < s.len() && (#[trigger] s[i]).points == 0,
    ensures
        forall|i: int|
            0 <= i < s.len() && (#[trigger] s[i]).points == 0 ==> spec_select(kind, s).contains(
                i as usize,
            ),
{
    let n = s.len() as int;
    lemma_value_indices(s, n, 0);
    let w = choose|i: int| 0 <= i < s.len() && (#[trigger] s[i]).points == 0;
    assert(zero_indices(s).contains(w as usize));
    if kind is SameValue {
        lemma_min_index(s, n);
        assert(s[min_points_index(s)].points <= s[w].points);
        assert(s[min_points_index(s)].points == 0);
        assert(spec_select(kind, s) == zero_indices(s));
    }
}

} // verus!
