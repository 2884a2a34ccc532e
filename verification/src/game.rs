//! One game's state: an ordered pool of live dice. The pool is created with
//! the full composition, rolled and shrunk once per round by strategy-directed
//! removal, and the game is over when it is empty.

use vstd::prelude::*;

use vstd::pervasive::VecAdditionalExecFns;

use crate::die::Die;
use crate::die::Faces;
use crate::die::dice_rolled;
use crate::die::dice_wf;
use crate::removal::desc_indices;
use crate::removal::descending_below;
use crate::removal::lemma_desc_entry_bound;
use crate::removal::lemma_desc_indices;
use crate::removal::lemma_points_at_append;
use crate::removal::lemma_points_at_nonneg;
use crate::removal::lemma_pool_slack_push;
use crate::removal::lemma_remove_fold;
use crate::removal::lemma_remove_fold_append;
use crate::removal::lemma_remove_fold_prefix;
use crate::removal::points_at;
use crate::removal::pool_slack;
use crate::removal::remove_fold;
use crate::removal::seq_swap_remove;

verus! {

/// The default pool: twelve six-faced dice, then one each of eight, ten and
/// twelve faces, all fresh (points equal to the face count).
pub open spec fn default_composition(s: Seq<Die>) -> bool {
    &&& s.len() == 15
    &&& forall|i: int| 0 <= i < 12 ==> #[trigger] s[i] == (Die { faces: Faces::Six, points: 6u8 })
    &&& s[12] == (Die { faces: Faces::Eight, points: 8u8 })
    &&& s[13] == (Die { faces: Faces::Ten, points: 10u8 })
    &&& s[14] == (Die { faces: Faces::Twelve, points: 12u8 })
}

/// The state of one game: the pool of dice still in play.
pub struct Game {
    pub dice: Vec<Die>,
}

/// Whether `x` occurs among the picked positions.
fn contains_index(picks: &Vec<usize>, x: usize) -> (b: bool)
    ensures
        b == picks@.contains(x),
{
    let mut j: usize = 0;
    while j < picks.len()
        invariant
            j <= picks@.len(),
            forall|k: int| 0 <= k < j ==> picks@[k] != x,
        decreases picks@.len() - j,
    {
        if picks[j] == x {
            assert(picks@[j as int] == x);
            return true;
        }
        j += 1;
    }
    false
}

impl Game {
    /// A fresh pool with the default composition. Its slack - the most the
    /// whole game can still score - is 12*5 + 7 + 9 + 11 = 87.
    pub fn new() -> (g: Game)
        ensures
            default_composition(g.dice@),
            dice_wf(g.dice@),
            pool_slack(g.dice@) == 87,
    {
        let mut dice: Vec<Die> = Vec::with_capacity(15);
        let mut i: usize = 0;
        while i < 12
            invariant
                i <= 12,
                dice@.len() == i,
                forall|j: int|
                    0 <= j < i ==> #[trigger] dice@[j] == (Die {
                        faces: Faces::Six,
                        points: 6u8,
                    }),
                pool_slack(dice@) == 5 * i,
            decreases 12 - i,
        {
            proof {
                lemma_pool_slack_push(dice@, Die { faces: Faces::Six, points: 6u8 });
            }
            dice.push(Die::six());
            i += 1;
        }
        proof {
            lemma_pool_slack_push(dice@, Die { faces: Faces::Eight, points: 8u8 });
        }
        dice.push(Die::eight());
        proof {
            lemma_pool_slack_push(dice@, Die { faces: Faces::Ten, points: 10u8 });
        }
        dice.push(Die::ten());
        proof {
            lemma_pool_slack_push(dice@, Die { faces: Faces::Twelve, points: 12u8 });
        }
        dice.push(Die::twelve());
        Game { dice }
    }

    /// Roll every live die, independently and in order; face counts and the
    /// pool's size and order are untouched.
    pub fn roll_all(&mut self, rng: &mut rand::rngs::SmallRng)
        ensures
            final(self).dice@.len() == old(self).dice@.len(),
            forall|i: int|
                0 <= i < old(self).dice@.len() ==> (#[trigger] final(self).dice@[i]).faces == old(
                    self,
                ).dice@[i].faces,
            dice_rolled(final(self).dice@),
    {
        let n = self.dice.len();
        let mut i: usize = 0;
        while i < n
            invariant
                i <= n,
                self.dice@.len() == n,
                n == old(self).dice@.len(),
                forall|j: int|
                    0 <= j < n ==> (#[trigger] self.dice@[j]).faces == old(self).dice@[j].faces,
                forall|j: int| 0 <= j < i ==> crate::die::die_rolled(#[trigger] self.dice@[j]),
            decreases n - i,
        {
            let mut d = self.dice[i];
            d.roll(rng);
            self.dice.set(i, d);
            i += 1;
        }
    }

    /// Remove the dice at the picked positions and return their summed
    /// points. All picks are resolved against the pre-removal pool:
    /// duplicates and out-of-range picks are ignored, and the distinct valid
    /// positions are swap-removed in descending order, so removing one never
    /// shifts another still to be removed.
    pub fn remove_dice(&mut self, indices: &Vec<usize>) -> (points: u8)
        requires
            points_at(old(self).dice@, desc_indices(indices@, old(self).dice@.len() as nat))
                <= u8::MAX,
        ensures
            final(self).dice@ == remove_fold(
                old(self).dice@,
                desc_indices(indices@, old(self).dice@.len() as nat),
            ),
            points as int == points_at(
                old(self).dice@,
                desc_indices(indices@, old(self).dice@.len() as nat),
            ),
    {
        let ghost orig = self.dice@;
        let n = self.dice.len();
        let ghost dseq = desc_indices(indices@, n as nat);
        proof {
            lemma_desc_indices(indices@, n as nat);
        }

        // Gather the distinct in-range picks, largest position first.
        let mut desc: Vec<usize> = Vec::new();
        let mut i: usize = n;
        proof {
            assert(desc@ + desc_indices(indices@, n as nat) =~= dseq);
        }
        while i > 0
            invariant
                i <= n,
                dseq == desc_indices(indices@, n as nat),
                desc@ + desc_indices(indices@, i as nat) == dseq,
            decreases i,
        {
            i -= 1;
            if contains_index(indices, i) {
                proof {
                    assert(desc_indices(indices@, (i + 1) as nat) == seq![i] + desc_indices(
                        indices@,
                        i as nat,
                    ));
                    assert((desc@ + seq![i]) + desc_indices(indices@, i as nat) =~= desc@ + (
                    seq![i] + desc_indices(indices@, i as nat)));
                }
                desc.push(i);
            }
        }
        proof {
            assert(desc_indices(indices@, 0nat) =~= Seq::<usize>::empty());
            assert(desc@ =~= dseq);
        }

        // Swap-remove them in that order, summing points at time of removal.
        let mut acc: u8 = 0;
        let mut k: usize = 0;
        proof {
            assert(dseq.take(0) =~= Seq::<usize>::empty());
            assert(remove_fold(orig, dseq.take(0)) == orig);
            assert(points_at(orig, dseq.take(0)) == 0);
        }
        while k < desc.len()
            invariant
                k <= desc@.len(),
                desc@ == dseq,
                n == orig.len(),
                descending_below(dseq, n as nat),
                points_at(orig, dseq) <= u8::MAX,
                self.dice@ == remove_fold(orig, dseq.take(k as int)),
                acc as int == points_at(orig, dseq.take(k as int)),
            decreases desc@.len() - k,
        {
            let idx = desc[k];
            proof {
                let taken = dseq.take(k as int);
                assert(forall|j: int| 0 <= j < taken.len() ==> #[trigger] taken[j] == dseq[j]);
                assert(descending_below(taken, n as nat));
                lemma_remove_fold(orig, taken);
                lemma_desc_entry_bound(dseq, n as nat, k as int);
                // the die at `idx` is still the original one: every removal so
                // far happened at a strictly larger position
                if k > 0 {
                    assert(taken[taken.len() - 1] == dseq[k - 1]);
                    lemma_remove_fold_prefix(orig, taken);
                    assert(self.dice@[idx as int] == orig[idx as int]);
                } else {
                    assert(self.dice@ == orig);
                }
                // the running sum plus this die stays within the requested total
                let step = seq![dseq[k as int]];
                assert(step.skip(1) =~= Seq::<usize>::empty());
                assert(step[0] == idx);
                assert(points_at(orig, Seq::<usize>::empty()) == 0);
                assert(points_at(orig, step) == orig[idx as int].points);
                lemma_points_at_append(orig, taken, step);
                assert(taken + step =~= dseq.take(k + 1));
                lemma_points_at_append(orig, dseq.take(k + 1), dseq.skip(k + 1));
                assert(dseq.take(k + 1) + dseq.skip(k + 1) =~= dseq);
                lemma_points_at_nonneg(orig, dseq.skip(k + 1));
            }
            let d = self.dice[idx];
            acc = acc + d.points();
            let ghost before = self.dice@;
            self.dice.swap_remove(idx);
            proof {
                let taken = dseq.take(k as int);
                let step = seq![dseq[k as int]];
                assert(step.skip(1) =~= Seq::<usize>::empty());
                assert(step[0] == idx);
                assert(self.dice@ == seq_swap_remove(before, idx as int));
                assert(remove_fold(seq_swap_remove(before, idx as int), Seq::<usize>::empty())
                    == seq_swap_remove(before, idx as int));
                assert(remove_fold(before, step) == seq_swap_remove(before, idx as int));
                lemma_remove_fold_append(orig, taken, step);
                assert(taken + step =~= dseq.take(k + 1));
            }
            k += 1;
        }
        proof {
            assert(dseq.take(desc@.len() as int) =~= dseq);
        }
        acc
    }

    /// The terminal-state test: the game is over when no dice remain.
    pub fn is_over(&self) -> (b: bool)
        ensures
            b == (self.dice@.len() == 0),
    {
        self.dice.is_empty()
    }
}

} // verus!
