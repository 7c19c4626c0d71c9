//! Synthetic data for exercising the trainer without downloads: random token
//! streams and short printable token names.

use vstd::prelude::*;
use crate::rand::{draw, randint32, Mt19937State, MtView};

verus! {

/// `n` tokens drawn as `randint32 % vocab`, and the generator state after
/// the draws.
pub open spec fn random_tokens_spec(v: MtView, n: nat, vocab: u32) -> (MtView, Seq<u16>)
    decreases n,
{
    if n == 0 {
        (v, Seq::empty())
    } else {
        let (v1, prefix) = random_tokens_spec(v, (n - 1) as nat, vocab);
        let (v2, r) = draw(v1);
        (v2, prefix.push((r % vocab) as u16))
    }
}

/// Draws `ntok` tokens below `vocab`.
pub fn random_tokens(rng: &mut Mt19937State, ntok: usize, vocab: u32) -> (tokens: Vec<u16>)
    requires
        0 < vocab <= 0x1_0000,
    ensures
        (final(rng)@, tokens@) == random_tokens_spec(old(rng)@, ntok as nat, vocab),
        forall|i: int| 0 <= i < tokens@.len() ==> #[trigger] tokens@[i] < vocab,
{
    let mut tokens: Vec<u16> = Vec::new();
    let mut i: usize = 0;
    while i < ntok
        invariant
            i <= ntok,
            0 < vocab <= 0x1_0000,
            (rng@, tokens@) == random_tokens_spec(old(rng)@, i as nat, vocab),
            forall|k: int| 0 <= k < tokens@.len() ==> #[trigger] tokens@[k] < vocab,
        decreases ntok - i,
    {
        let t = (randint32(rng) % vocab) as u16;
        tokens.push(t);
        i += 1;
    }
    tokens
}

/// The name of synthetic token `i`: two lowercase letters (`i % 26`, then
/// `(i / 26) % 26`), and a third (`(i / 676) % 26`) from `i = 676` on.
pub open spec fn token_name_spec(i: int) -> Seq<u8> {
    let first: int = 0x61 + i % 26;
    let second: int = 0x61 + (i / 26) % 26;
    let third: int = 0x61 + (i / 676) % 26;
    let two: Seq<u8> = seq![first as u8, second as u8];
    if i >= 676 {
        two.push(third as u8)
    } else {
        two
    }
}

/// Short printable token names, so that generated text is legible.
pub fn token_name(i: usize) -> (name: Vec<u8>)
    ensures
        name@ == token_name_spec(i as int),
{
    let mut name: Vec<u8> = Vec::new();
    name.push(0x61u8 + (i % 26) as u8);
    name.push(0x61u8 + ((i / 26) % 26) as u8);
    if i >= 26 * 26 {
        name.push(0x61u8 + ((i / (26 * 26)) % 26) as u8);
    }
    name
}

} // verus!
