use raymond::prng::{rand_u32, rand_u64, Prng, DEFAULT_SEED};

#[test]
fn rand_u32_from_default_seed() {
    let mut rng = Prng::with_default_seed();
    assert_eq!(rng.state, DEFAULT_SEED);
    assert_eq!(rand_u32(&mut rng), 1481765933);
    assert_eq!(rng.state, 6364136223846793006);
    assert_eq!(rand_u32(&mut rng), 3232861391);
}

#[test]
fn rand_u32_from_chosen_seed() {
    let mut rng = Prng::new(42);
    assert_eq!(rand_u32(&mut rng), 2104627054);
    assert_eq!(rng.state, 9039304369631583587);
}

#[test]
fn rand_u64_joins_two_draws_low_first() {
    let mut rng = Prng::with_default_seed();
    assert_eq!(rand_u64(&mut rng), 13885033948327834669);
    assert_eq!(rand_u32(&mut rng), 3417699910);
}

#[test]
fn same_seed_same_sequence() {
    let mut a = Prng::new(7);
    let mut b = Prng::new(7);
    for _ in 0..5 {
        assert_eq!(rand_u64(&mut a), rand_u64(&mut b));
    }
}
