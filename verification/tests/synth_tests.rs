use gpt2::rand::{manual_seed, randint32, Mt19937State};
use gpt2::synth::{random_tokens, token_name};

#[test]
fn random_tokens_are_draws_modulo_the_vocabulary() {
    let mut rng = Mt19937State::default();
    manual_seed(&mut rng, 137);
    let tokens = random_tokens(&mut rng, 5, 512);
    let expected: Vec<u16> = [4053805790u32, 2173880614, 380293709, 1237255315, 2986595568]
        .iter()
        .map(|r| (r % 512) as u16)
        .collect();
    assert_eq!(tokens, expected);
    let mut again = Mt19937State::default();
    manual_seed(&mut again, 137);
    for _ in 0..5 {
        randint32(&mut again);
    }
    assert_eq!(randint32(&mut rng), randint32(&mut again));
}

#[test]
fn token_names_are_short_and_printable() {
    assert_eq!(token_name(0), b"aa".to_vec());
    assert_eq!(token_name(27), b"bb".to_vec());
    assert_eq!(token_name(675), b"zz".to_vec());
    assert_eq!(token_name(676), b"aab".to_vec());
    assert_eq!(token_name(511), b"rt".to_vec());
}
