use dice_sim::StrategyKind;
use dice_sim::default_strategies;
use dice_sim::evaluate;
use dice_sim::run_simulations;
use dice_sim::simulate_game;

const ALL_KINDS: [StrategyKind; 8] = [
    StrategyKind::MinPoints,
    StrategyKind::ZeroOrMin,
    StrategyKind::SameValue,
    StrategyKind::PrioritizeMaxValue,
    StrategyKind::MinimizeRegret,
    StrategyKind::Hybrid,
    StrategyKind::ZeroOrBigMin,
    StrategyKind::BigZeroOrMin,
];

#[test]
fn test_full_game_simulation() {
    let points = simulate_game(StrategyKind::ZeroOrBigMin, 800);
    assert_eq!(0, points);
}

#[test]
fn test_score_bounds() {
    // Every game terminates and scores within [0, 87]: 87 is the sum of
    // (faces - 1) over the default composition.
    for kind in ALL_KINDS {
        for seed in 0..200u64 {
            let score = simulate_game(kind, seed);
            assert!(score <= 87);
        }
    }
}

#[test]
fn test_determinism() {
    // The same strategy and seed replay to the same score, every invocation.
    for kind in ALL_KINDS {
        for seed in [0u64, 1, 17, 800, 4242] {
            let first = simulate_game(kind, seed);
            let second = simulate_game(kind, seed);
            assert_eq!(first, second);
        }
    }
    // and in whatever order the trials run
    let backwards: Vec<u8> = (0..20u64).rev().map(|s| simulate_game(StrategyKind::MinPoints, s)).collect();
    for seed in 0..20u64 {
        assert_eq!(
            simulate_game(StrategyKind::MinPoints, seed),
            backwards[(19 - seed) as usize]
        );
    }
}

#[test]
fn test_aggregate_consistency() {
    let trials = 500u64;
    for kind in ALL_KINDS {
        let agg = run_simulations(kind, trials);
        assert_eq!(agg.count, trials);

        let mut total = 0u64;
        let mut minimum = u8::MAX;
        let mut maximum = 0u8;
        let mut zero_count = 0u64;
        for seed in 0..trials {
            let score = simulate_game(kind, seed);
            total += score as u64;
            minimum = minimum.min(score);
            maximum = maximum.max(score);
            if score == 0 {
                zero_count += 1;
            }
        }
        assert_eq!(agg.total, total);
        assert_eq!(agg.minimum, minimum);
        assert_eq!(agg.maximum, maximum);
        assert_eq!(agg.zero_count, zero_count);

        let average = agg.total as f64 / agg.count as f64;
        assert!(agg.minimum as f64 <= average);
        assert!(average <= agg.maximum as f64);
    }
}

#[test]
fn test_end_to_end_zero_outcome() {
    // With the default 15-die composition and the MinPoints strategy, some
    // seed produces an all-zero outcome; evaluate over a batch holding that
    // seed must report minimum == 0, and that trial's score is exactly 0.
    let mut zero_seed = None;
    for seed in 0..10000u64 {
        if simulate_game(StrategyKind::MinPoints, seed) == 0 {
            zero_seed = Some(seed);
            break;
        }
    }
    let seed = zero_seed.expect("no all-zero trial among the scanned seeds");
    assert_eq!(simulate_game(StrategyKind::MinPoints, seed), 0);

    let registry = vec![("One Min".to_string(), StrategyKind::MinPoints)];
    let results = evaluate(&registry, seed + 1);
    assert_eq!(results.len(), 1);
    assert_eq!(results[0].0, "One Min");
    assert_eq!(results[0].1.minimum, 0);
    assert!(results[0].1.zero_count >= 1);
}

#[test]
fn test_default_strategies_registry() {
    let registry = default_strategies();
    assert_eq!(registry.len(), 8);
    let names: Vec<&str> = registry.iter().map(|(n, _)| n.as_str()).collect();
    assert_eq!(
        names,
        vec![
            "One Min",
            "All Zero/One Min",
            "Same Value",
            "All Zero/Prio Min",
            "Minimize Regret",
            "Hybrid",
            "All Zero/Big Min",
            "All Big Zero/One Zero/Big Min",
        ]
    );
}

#[test]
fn test_evaluate_keys_results_by_name() {
    let registry = default_strategies();
    let results = evaluate(&registry, 25);
    assert_eq!(results.len(), registry.len());
    for (i, (name, agg)) in results.iter().enumerate() {
        assert_eq!(name, &registry[i].0);
        assert_eq!(agg.count, 25);
        assert!(agg.minimum <= agg.maximum);
        assert!(agg.total <= 87 * agg.count);
    }
}

#[test]
fn test_empty_batch_aggregates() {
    let agg = run_simulations(StrategyKind::Hybrid, 0);
    assert_eq!(agg.count, 0);
    assert_eq!(agg.total, 0);
    assert_eq!(agg.minimum, u8::MAX);
    assert_eq!(agg.maximum, 0);
    assert_eq!(agg.zero_count, 0);
}
