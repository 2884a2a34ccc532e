use dice_sim::Die;
use dice_sim::Faces;
use dice_sim::rng::rng_from_seed;

#[test]
fn test_points() {
    let mut die = Die::six();
    die.points = 2;
    assert_eq!(die.points(), 2); // 6 - 4 = 2 points

    die.points = 0;
    assert_eq!(die.points(), 0); // 6 - 6 = 0 points
}

#[test]
fn test_face_values() {
    assert_eq!(Faces::Six.value(), 6);
    assert_eq!(Faces::Eight.value(), 8);
    assert_eq!(Faces::Ten.value(), 10);
    assert_eq!(Faces::Twelve.value(), 12);
}

#[test]
fn test_fresh_dice_carry_their_face_count() {
    assert_eq!(Die::six().points(), 6);
    assert_eq!(Die::eight().points(), 8);
    assert_eq!(Die::ten().points(), 10);
    assert_eq!(Die::twelve().points(), 12);
    assert_eq!(Die::twelve().faces.value(), 12);
}

#[test]
fn test_roll_stays_below_face_count() {
    let mut rng = rng_from_seed(42);
    let mut die = Die::twelve();
    for _ in 0..200 {
        die.roll(&mut rng);
        assert!(die.points() < 12);
        assert_eq!(die.faces.value(), 12);
    }
    let mut small = Die::six();
    for _ in 0..200 {
        small.roll(&mut rng);
        assert!(small.points() < 6);
    }
}

#[test]
fn test_with_points_keeps_faces() {
    let die = Die::ten().with_points(4);
    assert_eq!(die.points(), 4);
    assert_eq!(die.faces.value(), 10);
}
