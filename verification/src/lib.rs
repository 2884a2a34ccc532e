//! A verified simulator for a single-player dice-elimination game.
//!
//! A game starts with a pool of dice. Each round every live die is rolled,
//! a strategy picks which positions to remove, and the removed dice's
//! shortfall ("points") is added to the running total. The game ends when
//! the pool is empty; lower totals are better. A Monte Carlo harness runs
//! many seeded trials per strategy and aggregates the scores.

pub mod die;
pub mod engine;
pub mod game;
pub mod removal;
pub mod rng;
pub mod stats;
pub mod strategy;

pub use die::Die;
pub use die::Faces;
pub use engine::play_round;
pub use engine::simulate_game;
pub use game::Game;
pub use stats::Aggregates;
pub use stats::default_strategies;
pub use stats::evaluate;
pub use stats::run_simulations;
pub use strategy::StrategyKind;
pub use strategy::all_big_zero_or_one_zero_or_big_min_strategy;
pub use strategy::all_zero_or_big_min_strategy;
pub use strategy::all_zero_or_one_min_strategy;
pub use strategy::all_zero_or_prio_min_strategy;
pub use strategy::find_big_zero_dice;
pub use strategy::find_big_min_die;
pub use strategy::find_min_points_die;
pub use strategy::find_zero_point_dice;
pub use strategy::hybrid_strategy;
pub use strategy::minimize_regret_strategy;
pub use strategy::one_min_strategy;
pub use strategy::prio_min_for;
pub use strategy::same_value_strategy;
