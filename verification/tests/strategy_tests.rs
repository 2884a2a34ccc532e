use dice_sim::Die;
use dice_sim::StrategyKind;
use dice_sim::all_big_zero_or_one_zero_or_big_min_strategy;
use dice_sim::all_zero_or_big_min_strategy;
use dice_sim::all_zero_or_one_min_strategy;
use dice_sim::all_zero_or_prio_min_strategy;
use dice_sim::find_big_min_die;
use dice_sim::find_big_zero_dice;
use dice_sim::find_min_points_die;
use dice_sim::find_zero_point_dice;
use dice_sim::hybrid_strategy;
use dice_sim::minimize_regret_strategy;
use dice_sim::one_min_strategy;
use dice_sim::prio_min_for;
use dice_sim::same_value_strategy;

#[test]
fn test_find_zero_point_dice() {
    let dice = vec![
        Die::six().with_points(0),
        Die::six().with_points(3),
        Die::eight().with_points(0),
        Die::ten().with_points(1),
    ];

    let zero_indices = find_zero_point_dice(&dice);
    assert_eq!(zero_indices, vec![0, 2]); // Only indices 0 and 2 have zero points
}

#[test]
fn test_find_min_points_die() {
    let dice = vec![
        Die::six().with_points(3),
        Die::eight().with_points(1),
        Die::ten().with_points(4),
        Die::twelve().with_points(2),
    ];

    let min_index = find_min_points_die(&dice);
    assert_eq!(min_index, 1);
}

#[test]
fn test_find_big_min_die() {
    let mut dice = vec![Die::six().with_points(1), Die::ten().with_points(1)];

    let min_index = find_big_min_die(&dice);
    assert_eq!(1, min_index);

    dice.reverse();

    let min_index = find_big_min_die(&dice);
    assert_eq!(0, min_index);
}

#[test]
fn test_all_zero_or_prio_min_strategy() {
    let mut dice = vec![
        Die::six().with_points(3),
        Die::eight().with_points(1),
        Die::ten().with_points(4),
        Die::twelve().with_points(2),
    ];

    let prio_min = all_zero_or_prio_min_strategy(&dice);
    assert_eq!(vec![3], prio_min); // 12 - 4 * 2 = 4

    dice.remove(prio_min[0]);
    let prio_min = all_zero_or_prio_min_strategy(&dice);
    assert_eq!(vec![1], prio_min); // 8 - 4 * 1 = 4

    dice.remove(prio_min[0]);
    let prio_min = all_zero_or_prio_min_strategy(&dice);
    assert_eq!(vec![1], prio_min); // 10 - 4 * 4 = -6

    dice.remove(prio_min[0]);
    let prio_min = all_zero_or_prio_min_strategy(&dice);
    assert_eq!(vec![0], prio_min); // 6 - 4 * 3 = -6
}

#[test]
fn test_all_zero_or_prio_min_strategy_hmm() {
    let mut dice = vec![Die::six().with_points(1), Die::twelve().with_points(3)];

    let prio_min = all_zero_or_prio_min_strategy(&dice);
    assert_eq!(vec![0], prio_min); // 6 - 4 * 1 = 2

    dice.remove(prio_min[0]);
    let prio_min = all_zero_or_prio_min_strategy(&dice);
    assert_eq!(vec![0], prio_min); // 12 - 4 * 3 = 0
}

#[test]
fn test_all_zero_or_prio_min_deterministic() {
    let mut dice = vec![Die::eight().with_points(1), Die::twelve().with_points(2)];
    // 8 - 4 * 1 = 4
    // 12 - 4 * 2 = 4
    dice.iter().for_each(|d| assert_eq!(4, prio_min_for(d)));

    let prio_min = all_zero_or_prio_min_strategy(&dice);
    assert_eq!(12, dice[prio_min[0]].faces.value());

    dice.reverse();

    let prio_min = all_zero_or_prio_min_strategy(&dice);
    assert_eq!(12, dice[prio_min[0]].faces.value());
}

#[test]
fn test_tie_break_exactness() {
    // MinPoints picks the lowest points; PrioritizeMaxValue scores each die
    // and keeps picking the best scorer, breaking score ties by more faces.
    let mut dice = vec![
        Die::six().with_points(3),
        Die::eight().with_points(1),
        Die::ten().with_points(4),
        Die::twelve().with_points(2),
    ];
    assert_eq!(1, find_min_points_die(&dice));

    let first = all_zero_or_prio_min_strategy(&dice);
    assert_eq!(vec![3], first);
    dice.remove(3);
    let second = all_zero_or_prio_min_strategy(&dice);
    assert_eq!(vec![1], second);
}

#[test]
fn test_one_min_strategy_picks_first_minimum() {
    let dice = vec![
        Die::six().with_points(2),
        Die::eight().with_points(1),
        Die::ten().with_points(1),
    ];
    assert_eq!(vec![1], one_min_strategy(&dice));
}

#[test]
fn test_all_zero_or_one_min_removes_every_zero() {
    let dice = vec![
        Die::six().with_points(0),
        Die::six().with_points(2),
        Die::ten().with_points(0),
    ];
    assert_eq!(vec![0, 2], all_zero_or_one_min_strategy(&dice));

    let no_zeros = vec![Die::six().with_points(2), Die::ten().with_points(1)];
    assert_eq!(vec![1], all_zero_or_one_min_strategy(&no_zeros));
}

#[test]
fn test_same_value_strategy_removes_all_minima() {
    let dice = vec![
        Die::six().with_points(3),
        Die::eight().with_points(1),
        Die::ten().with_points(1),
        Die::twelve().with_points(2),
    ];
    assert_eq!(vec![1, 2], same_value_strategy(&dice));
}

#[test]
fn test_same_value_strategy_removes_all_zeros() {
    let dice = vec![
        Die::six().with_points(0),
        Die::eight().with_points(2),
        Die::ten().with_points(0),
    ];
    assert_eq!(vec![0, 2], same_value_strategy(&dice));
}

#[test]
fn test_minimize_regret_strategy() {
    // doubled regret: 2*points - (faces - 1); lower is better
    let dice = vec![
        Die::six().with_points(1),   // 2 - 5 = -3
        Die::twelve().with_points(1), // 2 - 11 = -9
    ];
    assert_eq!(vec![1], minimize_regret_strategy(&dice));

    let zeros = vec![Die::six().with_points(0), Die::eight().with_points(2)];
    assert_eq!(vec![0], minimize_regret_strategy(&zeros));
}

#[test]
fn test_hybrid_strategy() {
    // weights as fractions: points * (faces + points) / faces
    let dice = vec![
        Die::six().with_points(2),   // 2 * 8 / 6  = 16/6
        Die::twelve().with_points(3), // 3 * 15 / 12 = 45/12
    ];
    assert_eq!(vec![0], hybrid_strategy(&dice));

    let zeros = vec![Die::six().with_points(1), Die::eight().with_points(0)];
    assert_eq!(vec![1], hybrid_strategy(&zeros));
}

#[test]
fn test_find_big_zero_dice() {
    let dice = vec![
        Die::six().with_points(0),
        Die::eight().with_points(0),
        Die::ten().with_points(2),
        Die::twelve().with_points(0),
    ];
    assert_eq!(vec![1, 3], find_big_zero_dice(&dice));
}

#[test]
fn test_big_zero_strategy_branches() {
    // some distinguished zeros, but not all distinguished dice show zero
    let dice = vec![
        Die::six().with_points(1),
        Die::eight().with_points(0),
        Die::ten().with_points(2),
    ];
    assert_eq!(vec![1], all_big_zero_or_one_zero_or_big_min_strategy(&dice));

    // every distinguished die shows zero: fold in the ordinary zeros too
    let dice = vec![
        Die::six().with_points(0),
        Die::eight().with_points(0),
        Die::ten().with_points(0),
    ];
    assert_eq!(
        vec![0, 1, 2],
        all_big_zero_or_one_zero_or_big_min_strategy(&dice)
    );

    // ordinary zeros only, while distinguished dice remain: just the first
    let dice = vec![
        Die::six().with_points(0),
        Die::six().with_points(0),
        Die::eight().with_points(1),
    ];
    assert_eq!(vec![0], all_big_zero_or_one_zero_or_big_min_strategy(&dice));

    // ordinary zeros and no distinguished die left: all of them
    let dice = vec![
        Die::six().with_points(0),
        Die::six().with_points(2),
        Die::six().with_points(0),
    ];
    assert_eq!(
        vec![0, 2],
        all_big_zero_or_one_zero_or_big_min_strategy(&dice)
    );

    // no zeros at all: the big-min pick, ties broken by more faces
    let dice = vec![
        Die::six().with_points(2),
        Die::eight().with_points(1),
        Die::ten().with_points(1),
    ];
    assert_eq!(vec![2], all_big_zero_or_one_zero_or_big_min_strategy(&dice));
}

#[test]
fn test_zero_dice_always_removed() {
    // Whenever a zero-point die exists, these strategies pick every zero.
    let dice = vec![
        Die::six().with_points(0),
        Die::eight().with_points(3),
        Die::ten().with_points(0),
        Die::twelve().with_points(5),
    ];
    for kind in [
        StrategyKind::ZeroOrMin,
        StrategyKind::SameValue,
        StrategyKind::PrioritizeMaxValue,
        StrategyKind::MinimizeRegret,
        StrategyKind::Hybrid,
    ] {
        let picks = kind.select(&dice);
        assert!(picks.contains(&0), "{} missed position 0", kind.name());
        assert!(picks.contains(&2), "{} missed position 2", kind.name());
    }
}

#[test]
fn test_strategy_names() {
    assert_eq!("One Min", StrategyKind::MinPoints.name());
    assert_eq!(
        "All Big Zero/One Zero/Big Min",
        StrategyKind::BigZeroOrMin.name()
    );
}
