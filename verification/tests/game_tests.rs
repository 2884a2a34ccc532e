use dice_sim::Die;
use dice_sim::Game;
use dice_sim::rng::rng_from_seed;

#[test]
fn test_game_remove_dice() {
    let mut game = Game::new();
    game.dice = vec![
        Die::six().with_points(3),
        Die::eight().with_points(1),
        Die::ten().with_points(5),
        Die::twelve().with_points(2),
    ];

    let points = game.remove_dice(&vec![1, 3]);
    assert_eq!(points, 3); // 1 + 2 = 3 points
    assert_eq!(game.dice.len(), 2); // Should have 2 dice left
    assert_eq!(game.dice[0].points, 3); // First die should remain
    assert_eq!(game.dice[1].points, 5); // Third die should remain
}

#[test]
fn test_pool_removal_correctness() {
    // Removing positions {1, 3} from a pool showing [3, 1, 5, 2] yields 3
    // points and leaves the dice of positions 0 and 2, in that order.
    let mut game = Game::new();
    game.dice = vec![
        Die::six().with_points(3),
        Die::six().with_points(1),
        Die::six().with_points(5),
        Die::six().with_points(2),
    ];
    let points = game.remove_dice(&vec![1, 3]);
    assert_eq!(points, 3);
    assert_eq!(game.dice.len(), 2);
    assert_eq!(game.dice[0].points, 3);
    assert_eq!(game.dice[1].points, 5);
}

#[test]
fn test_remove_dice_ignores_duplicates_and_out_of_range() {
    let mut game = Game::new();
    game.dice = vec![
        Die::six().with_points(3),
        Die::eight().with_points(1),
        Die::ten().with_points(5),
        Die::twelve().with_points(2),
    ];

    let points = game.remove_dice(&vec![1, 1, 99, 3, 3]);
    assert_eq!(points, 3);
    assert_eq!(game.dice.len(), 2);
    assert_eq!(game.dice[0].points, 3);
    assert_eq!(game.dice[1].points, 5);
}

#[test]
fn test_new_game_composition() {
    let game = Game::new();
    assert_eq!(game.dice.len(), 15);
    for i in 0..12 {
        assert_eq!(game.dice[i].faces.value(), 6);
    }
    assert_eq!(game.dice[12].faces.value(), 8);
    assert_eq!(game.dice[13].faces.value(), 10);
    assert_eq!(game.dice[14].faces.value(), 12);
    assert!(!game.is_over());
}

#[test]
fn test_roll_all_keeps_faces_and_bounds_points() {
    let mut game = Game::new();
    let mut rng = rng_from_seed(7);
    game.roll_all(&mut rng);
    assert_eq!(game.dice.len(), 15);
    for i in 0..15 {
        let d = &game.dice[i];
        assert!(d.points() < d.faces.value());
    }
    assert_eq!(game.dice[14].faces.value(), 12);
}

#[test]
fn test_empty_pool_is_over() {
    let mut game = Game::new();
    let picks: Vec<usize> = (0..15).collect();
    game.remove_dice(&picks);
    assert!(game.is_over());
    assert_eq!(game.dice.len(), 0);
}
