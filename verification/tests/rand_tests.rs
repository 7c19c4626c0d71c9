use gpt2::rand::{
    init_identity_permutation, manual_seed, randint32, randint64, random_permutation,
    Mt19937State,
};

#[test]
fn mt19937_matches_torch_reference() {
    // the exact sequence documented for torch.manual_seed(137); torch.randint(0, 0xFFFFFFFF, [1])
    let mut state = Mt19937State::default();
    manual_seed(&mut state, 137);
    let expected = [4053805790u32, 2173880614, 380293709, 1237255315, 2986595568];
    for &e in &expected {
        assert_eq!(randint32(&mut state), e);
    }
}

#[test]
fn random_permutation_is_deterministic_and_bijective() {
    let mut state = Mt19937State::default();
    manual_seed(&mut state, 42);
    let mut data = vec![0i32; 100];
    init_identity_permutation(&mut data);
    random_permutation(&mut data, &mut state);
    let mut sorted = data.clone();
    sorted.sort();
    for (i, &s) in sorted.iter().enumerate() {
        assert_eq!(s, i as i32);
    }
    // determinism: same seed, same permutation
    let mut state2 = Mt19937State::default();
    manual_seed(&mut state2, 42);
    let mut data2 = vec![0i32; 100];
    init_identity_permutation(&mut data2);
    random_permutation(&mut data2, &mut state2);
    assert_eq!(data, data2);
}

#[test]
fn unseeded_state_draws_the_default_seed_stream() {
    let mut state = Mt19937State::default();
    assert_eq!(randint32(&mut state), 3499211612);
    assert_eq!(randint32(&mut state), 581869302);
    assert_eq!(randint32(&mut state), 3890346734);
}

#[test]
fn reseeding_restarts_the_stream() {
    let mut state = Mt19937State::default();
    manual_seed(&mut state, 137);
    let first: Vec<u32> = (0..700).map(|_| randint32(&mut state)).collect();
    manual_seed(&mut state, 137);
    let second: Vec<u32> = (0..700).map(|_| randint32(&mut state)).collect();
    assert_eq!(first, second);
    assert_eq!(first[0], 4053805790);
}

#[test]
fn randint64_puts_the_first_draw_in_the_high_half() {
    let mut state = Mt19937State::default();
    manual_seed(&mut state, 42);
    let v = randint64(&mut state);
    assert_eq!(v, 6909045637428952499);
    let mut state2 = Mt19937State::default();
    manual_seed(&mut state2, 42);
    let hi = randint32(&mut state2) as u64;
    let lo = randint32(&mut state2) as u64;
    assert_eq!(v, (hi << 32) | lo);
}

#[test]
fn identity_permutation_counts_up() {
    let mut data = vec![7i32; 5];
    init_identity_permutation(&mut data);
    assert_eq!(data, vec![0, 1, 2, 3, 4]);
    let mut empty: Vec<i32> = Vec::new();
    init_identity_permutation(&mut empty);
    assert!(empty.is_empty());
}

#[test]
fn random_permutation_of_ten_with_seed_42() {
    let mut state = Mt19937State::default();
    manual_seed(&mut state, 42);
    let mut data = vec![0i32; 10];
    init_identity_permutation(&mut data);
    random_permutation(&mut data, &mut state);
    assert_eq!(data, vec![1, 3, 9, 7, 6, 0, 8, 4, 5, 2]);
}

#[test]
fn random_permutation_of_short_slices() {
    let mut state = Mt19937State::default();
    manual_seed(&mut state, 1);
    let mut empty: Vec<i32> = Vec::new();
    random_permutation(&mut empty, &mut state);
    assert!(empty.is_empty());
    let mut one = vec![5i32];
    random_permutation(&mut one, &mut state);
    assert_eq!(one, vec![5]);
    // no draw is made for fewer than two elements
    let mut fresh = Mt19937State::default();
    manual_seed(&mut fresh, 1);
    assert_eq!(randint32(&mut state), randint32(&mut fresh));
}

#[test]
fn random_permutation_keeps_repeated_values() {
    let mut state = Mt19937State::default();
    manual_seed(&mut state, 3);
    let mut data = vec![4i32, 4, 1, 9, 1, 1, -2];
    let mut before = data.clone();
    random_permutation(&mut data, &mut state);
    data.sort();
    before.sort();
    assert_eq!(data, before);
}
