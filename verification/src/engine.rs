//! The round engine: the game's state machine. Each round rolls every live
//! die, asks the strategy which positions to remove, removes them and adds
//! their points to the running total; the game is over when the pool is
//! empty. Every strategy picks at least one valid position, so every round
//! strictly shrinks the pool and a game ends within (initial pool size)
//! rounds.

use vstd::prelude::*;

use crate::die::Die;
use crate::die::dice_rolled;
use crate::die::dice_wf;
use crate::game::Game;
use crate::removal::desc_indices;
use crate::removal::lemma_desc_indices;
use crate::removal::lemma_points_at_le_slack_at;
use crate::removal::lemma_points_at_nonneg;
use crate::removal::lemma_pool_slack_nonneg;
use crate::removal::lemma_pool_slack_same_faces;
use crate::removal::lemma_remove_fold;
use crate::removal::points_at;
use crate::removal::pool_slack;
use crate::removal::remove_fold;
use crate::rng::rng_from_seed;
use crate::strategy::StrategyKind;
use crate::strategy::lemma_select_valid;
use crate::strategy::spec_select;

verus! {

/// The pool one round leaves behind, as a function of the rolled pool the
/// strategy observed.
pub open spec fn round_pool(kind: StrategyKind, rolled: Seq<Die>) -> Seq<Die> {
    remove_fold(rolled, desc_indices(spec_select(kind, rolled), rolled.len() as nat))
}

/// The points one round scores, as a function of the rolled pool the
/// strategy observed.
pub open spec fn round_points(kind: StrategyKind, rolled: Seq<Die>) -> int {
    points_at(rolled, desc_indices(spec_select(kind, rolled), rolled.len() as nat))
}

/// `rolled` is `prior` with every die freshly rolled: the same dice in the
/// same order, each showing a shortfall strictly below its face count.
pub open spec fn pool_rolled_from(prior: Seq<Die>, rolled: Seq<Die>) -> bool {
    &&& rolled.len() == prior.len()
    &&& forall|i: int| 0 <= i < prior.len() ==> (#[trigger] rolled[i]).faces == prior[i].faces
    &&& dice_rolled(rolled)
}

/// Play one round. The pool strictly shrinks; the running total never
/// decreases, and total plus remaining slack never grows, so a game's score
/// can never pass its starting pool's slack. Beyond the roll itself, the
/// round is a pure function of the rolled pool: the new pool and the points
/// scored are exactly `round_pool` and `round_points` of it.
pub fn play_round(
    game: &mut Game,
    strategy: &StrategyKind,
    rng: &mut rand::rngs::SmallRng,
    total: u8,
) -> (new_total: u8)
    requires
        old(game).dice@.len() > 0,
        total + pool_slack(old(game).dice@) <= u8::MAX,
    ensures
        final(game).dice@.len() < old(game).dice@.len(),
        new_total >= total,
        new_total + pool_slack(final(game).dice@) <= total + pool_slack(old(game).dice@),
        exists|rolled: Seq<Die>|
            {
                &&& #[trigger] pool_rolled_from(old(game).dice@, rolled)
                &&& final(game).dice@ == round_pool(*strategy, rolled)
                &&& new_total == total + round_points(*strategy, rolled)
            },
{
    game.roll_all(rng);
    let pool_len = game.dice.len();
    let ghost rolled = game.dice@;
    let ghost n = pool_len as nat;
    proof {
        assert(dice_wf(rolled));
        lemma_pool_slack_same_faces(old(game).dice@, rolled);
        lemma_select_valid(*strategy, rolled);
    }
    let picks = strategy.select(&game.dice);
    let ghost dseq = desc_indices(picks@, n);
    proof {
        lemma_desc_indices(picks@, n);
        assert(picks@[0] < n);
        assert(picks@.contains(picks@[0]));
        assert(dseq.contains(picks@[0]));
        lemma_remove_fold(rolled, dseq);
        lemma_points_at_le_slack_at(rolled, dseq);
        lemma_points_at_nonneg(rolled, dseq);
        lemma_pool_slack_nonneg(remove_fold(rolled, dseq));
    }
    let pts = game.remove_dice(&picks);
    let new_total = total + pts;
    proof {
        assert(pool_rolled_from(old(game).dice@, rolled) && final(game).dice@ == round_pool(
            *strategy,
            rolled,
        ) && new_total == total + round_points(*strategy, rolled));
    }
    new_total
}

/// The rounds of one game link `start` to `end`: each entry is a roll of the
/// pool the previous round left, and the last round leaves `end`.
pub open spec fn trace_links(
    kind: StrategyKind,
    rounds: Seq<Seq<Die>>,
    start: Seq<Die>,
    end: Seq<Die>,
) -> bool
    decreases rounds.len(),
{
    if rounds.len() == 0 {
        end == start
    } else {
        pool_rolled_from(start, rounds[0]) && trace_links(
            kind,
            rounds.skip(1),
            round_pool(kind, rounds[0]),
            end,
        )
    }
}

/// The score such a game collects: the sum of its rounds' points.
pub open spec fn trace_points(kind: StrategyKind, rounds: Seq<Seq<Die>>) -> int
    decreases rounds.len(),
{
    if rounds.len() == 0 {
        0
    } else {
        round_points(kind, rounds[0]) + trace_points(kind, rounds.skip(1))
    }
}

/// Appending one more round to a linked trace links it one round further.
proof fn lemma_trace_links_push(
    kind: StrategyKind,
    rounds: Seq<Seq<Die>>,
    start: Seq<Die>,
    mid: Seq<Die>,
    rolled: Seq<Die>,
)
    requires
        trace_links(kind, rounds, start, mid),
        pool_rolled_from(mid, rolled),
    ensures
        trace_links(kind, rounds.push(rolled), start, round_pool(kind, rolled)),
    decreases rounds.len(),
{
    if rounds.len() == 0 {
        assert(rounds.push(rolled).skip(1) =~= Seq::<Seq<Die>>::empty());
        assert(rounds.push(rolled)[0] == rolled);
        assert(trace_links(
            kind,
            Seq::<Seq<Die>>::empty(),
            round_pool(kind, rolled),
            round_pool(kind, rolled),
        ));
        assert(mid == start);
    } else {
        assert(rounds.push(rolled)[0] == rounds[0]);
        assert(rounds.push(rolled).skip(1) =~= rounds.skip(1).push(rolled));
        lemma_trace_links_push(kind, rounds.skip(1), round_pool(kind, rounds[0]), mid, rolled);
        assert(trace_links(
            kind,
            rounds.skip(1).push(rolled),
            round_pool(kind, rounds[0]),
            round_pool(kind, rolled),
        ));
    }
}

/// Appending one more round adds exactly that round's points.
proof fn lemma_trace_points_push(kind: StrategyKind, rounds: Seq<Seq<Die>>, rolled: Seq<Die>)
    ensures
        trace_points(kind, rounds.push(rolled)) == trace_points(kind, rounds) + round_points(
            kind,
            rolled,
        ),
    decreases rounds.len(),
{
    if rounds.len() == 0 {
        assert(rounds.push(rolled).skip(1) =~= Seq::<Seq<Die>>::empty());
        assert(rounds.push(rolled)[0] == rolled);
        assert(trace_points(kind, Seq::<Seq<Die>>::empty()) == 0);
    } else {
        assert(rounds.push(rolled)[0] == rounds[0]);
        assert(rounds.push(rolled).skip(1) =~= rounds.skip(1).push(rolled));
        lemma_trace_points_push(kind, rounds.skip(1), rolled);
        assert(trace_points(kind, rounds.skip(1).push(rolled)) == trace_points(
            kind,
            rounds.skip(1),
        ) + round_points(kind, rolled));
    }
}

/// Simulate one full game: a fresh default pool, driven by a random source
/// seeded from `seed`, repeatedly rolled and shrunk by the strategy's picks
/// until empty. Returns the game's score - the total points collected, 0
/// being the best outcome - which never passes the default pool's slack,
/// the sum of (faces - 1) over its dice: 87.
///
/// The whole game is pinned down to its rolls: there is a trace of at most
/// 15 rounds - one per die of the default composition - whose rolled pools
/// link the fresh pool to the empty one round by round, and the score is
/// exactly the sum of the points those rounds' picks carried.
pub fn simulate_game(strategy: StrategyKind, seed: u64) -> (score: u8)
    ensures
        score <= 87,
        exists|start: Seq<Die>, rounds: Seq<Seq<Die>>|
            {
                &&& crate::game::default_composition(start)
                &&& rounds.len() <= start.len()
                &&& #[trigger] trace_links(strategy, rounds, start, Seq::<Die>::empty())
                &&& score as int == trace_points(strategy, rounds)
            },
{
    let mut rng = rng_from_seed(seed);
    let mut game = Game::new();
    let ghost start = game.dice@;
    let ghost mut rounds = Seq::<Seq<Die>>::empty();
    let mut total_points: u8 = 0;

    while !game.is_over()
        invariant
            total_points + pool_slack(game.dice@) <= 87,
            crate::game::default_composition(start),
            trace_links(strategy, rounds, start, game.dice@),
            total_points as int == trace_points(strategy, rounds),
            rounds.len() + game.dice@.len() <= start.len(),
        decreases game.dice@.len(),
    {
        let ghost pre = game.dice@;
        total_points = play_round(&mut game, &strategy, &mut rng, total_points);
        proof {
            let rolled = choose|rolled: Seq<Die>|
                {
                    &&& #[trigger] pool_rolled_from(pre, rolled)
                    &&& game.dice@ == round_pool(strategy, rolled)
                    &&& total_points == trace_points(strategy, rounds) + round_points(
                        strategy,
                        rolled,
                    )
                };
            lemma_trace_links_push(strategy, rounds, start, pre, rolled);
            lemma_trace_points_push(strategy, rounds, rolled);
            rounds = rounds.push(rolled);
        }
    }
    proof {
        lemma_pool_slack_nonneg(game.dice@);
        assert(game.dice@ =~= Seq::<Die>::empty());
    }
    total_points
}

} // verus!
