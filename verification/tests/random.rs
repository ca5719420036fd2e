use pomme_client::java_random::JavaRandom;

#[test]
fn bounded_numbers_follow_the_documented_sequence() {
    let mut rng = JavaRandom::new(42);
    let drawn: Vec<i32> = (0..8).map(|_| rng.next_int(10)).collect();
    assert_eq!(drawn, vec![0, 3, 8, 4, 0, 5, 5, 8]);
    let mut rng = JavaRandom::new(42);
    let drawn: Vec<i32> = (0..8).map(|_| rng.next_int(100)).collect();
    assert_eq!(drawn, vec![30, 63, 48, 84, 70, 25, 5, 18]);
}

#[test]
fn a_power_of_two_takes_the_high_bits() {
    let mut rng = JavaRandom::new(0);
    let drawn: Vec<i32> = (0..4).map(|_| rng.next_int(1 << 20)).collect();
    assert_eq!(drawn, vec![766475, 871829, 252220, 635799]);
}

#[test]
fn samples_are_the_high_bits_of_the_state() {
    let mut rng = JavaRandom::new(42);
    assert_eq!(rng.next(31), 1562431130);
    assert_eq!(rng.next(31), 117392763);
}

#[test]
fn samples_of_all_bits_are_cut_to_a_signed_number() {
    let mut rng = JavaRandom::new(0);
    let drawn: Vec<i32> = (0..3).map(|_| rng.next(32)).collect();
    assert_eq!(drawn, vec![-1155484576, -723955400, 1033096058]);
    let mut rng = JavaRandom::new(0);
    assert_eq!(rng.next(0), 0);
    // The low 32 bits of the third state.
    rng.next(48);
    let mut same = JavaRandom::new(0);
    same.next(1);
    same.next(1);
    assert_eq!(rng.next(48) as u32 >> 16, same.next(32) as u32 & 0xFFFF);
}

#[test]
fn a_negative_seed_is_scrambled_too() {
    let mut rng = JavaRandom::new(-1);
    let drawn: Vec<i32> = (0..6).map(|_| rng.next_int(6)).collect();
    assert_eq!(drawn, vec![5, 5, 3, 5, 2, 0]);
}

#[test]
fn biased_samples_are_drawn_again() {
    let mut rng = JavaRandom::new(0);
    assert_eq!(rng.next_int((1 << 30) + 1), 516548029);
}

#[test]
fn reseeding_starts_the_sequence_over() {
    let mut rng = JavaRandom::new(7);
    let first = rng.next_int(1000);
    rng.next_int(1000);
    rng.set_seed(7);
    assert_eq!(rng.next_int(1000), first);
}

#[test]
fn a_moment_seeds_with_seconds_and_nanoseconds() {
    let mut a = JavaRandom::from_moment(Some((40, 2)));
    let mut b = JavaRandom::new(42);
    assert_eq!(a.next_int(1 << 30), b.next_int(1 << 30));
    let mut a = JavaRandom::from_moment(None);
    let mut b = JavaRandom::new(0);
    assert_eq!(a.next_int(1 << 30), b.next_int(1 << 30));
}

#[test]
fn the_clock_seeds_a_working_generator() {
    let mut rng = JavaRandom::from_time();
    for _ in 0..100 {
        let n = rng.next_int(7);
        assert!((0..7).contains(&n));
    }
}
