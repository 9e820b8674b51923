use gymnust::utils::seeding::{generator_from_seed, rs_random};
use rand::RngCore;

#[test]
fn test_rs_random() {
    let (_rng, seed) = rs_random(None);
    assert!(seed > 0);
}

#[test]
fn test_rs_random_1() {
    let (_rng, seed) = rs_random(Some(42));
    assert_eq!(seed, 42);
}

#[test]
fn given_seed_gives_equal_generators() {
    let (first, first_seed) = rs_random(Some(42));
    let (second, second_seed) = rs_random(Some(42));
    assert_eq!(first_seed, 42);
    assert_eq!(second_seed, 42);
    assert_eq!(first, second);
}

#[test]
fn given_seed_gives_the_same_numbers_again() {
    let (mut first, _) = rs_random(Some(42));
    let (mut second, _) = rs_random(Some(42));
    for _ in 0..100 {
        assert_eq!(first.next_u64(), second.next_u64());
    }
}

#[test]
fn seed_42_gives_the_known_numbers() {
    let (mut rng, _) = rs_random(Some(42));
    assert_eq!(rng.next_u64(), 1581911519303979561);
    assert_eq!(rng.next_u64(), 5726079574540882823);
    assert_eq!(rng.next_u64(), 1154208747244521758);
}

#[test]
fn seed_0_gives_the_known_numbers() {
    let (mut rng, seed) = rs_random(Some(0));
    assert_eq!(seed, 0);
    assert_eq!(rng.next_u64(), 15757075719729598363);
    assert_eq!(rng.next_u64(), 3555206913761248309);
}

#[test]
fn different_seeds_give_different_generators() {
    let (first, _) = rs_random(Some(1));
    let (second, _) = rs_random(Some(2));
    assert_ne!(first, second);
}

#[test]
fn missing_seed_is_drawn_anew_each_time() {
    let (first, first_seed) = rs_random(None);
    let (second, second_seed) = rs_random(None);
    assert_ne!(first_seed, second_seed);
    assert_ne!(first, second);
}

#[test]
fn missing_seed_is_the_seed_of_the_generator() {
    let (rng, seed) = rs_random(None);
    let (again, same) = rs_random(Some(seed));
    assert_eq!(same, seed);
    assert_eq!(rng, again);
}

#[test]
fn generator_from_seed_keeps_the_seed() {
    let (mut rng, seed) = generator_from_seed(7);
    assert_eq!(seed, 7);
    assert_eq!(rng.next_u64(), 17944255529193846690);
    assert_eq!(rng.next_u64(), 4375291510852498528);
}
