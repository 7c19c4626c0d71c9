use gpt2::sampler::random_u32;

#[test]
fn xorshift_sequence_from_1337() {
    let mut state: u64 = 1337;
    assert_eq!(random_u32(&mut state), 989205090);
    assert_eq!(state, 44862276727);
    assert_eq!(random_u32(&mut state), 818269915);
    assert_eq!(state, 1505695687211150372);
    assert_eq!(random_u32(&mut state), 1335155955);
    assert_eq!(state, 4407930892292281700);
}

#[test]
fn xorshift_zero_state_stays_zero() {
    let mut state: u64 = 0;
    assert_eq!(random_u32(&mut state), 0);
    assert_eq!(state, 0);
}
