//! Checks and encodings shared by the training programs.

use vstd::prelude::*;
use crate::bytes::{encode_i32s, encode_i32s_spec, le_i32s, lemma_decode_encode_i32s};

verus! {

/// Number of words in every binary file header.
pub const HEADER_WORDS: usize = 256;

/// `i` is the first position whose token lies outside `0..vocab_size`.
pub open spec fn first_bad_token(tokens: Seq<i32>, vocab_size: i32, i: int) -> bool {
    &&& 0 <= i < tokens.len()
    &&& !(0 <= tokens[i] < vocab_size)
    &&& forall|k: int| 0 <= k < i ==> 0 <= #[trigger] tokens[k] < vocab_size
}

/// Checks that all tokens are within range: `Err((position, token))` names
/// the first token outside `0..vocab_size`.
pub fn token_check(tokens: &[i32], vocab_size: i32) -> (r: Result<(), (usize, i32)>)
    ensures
        match r {
            Ok(()) => forall|k: int| 0 <= k < tokens@.len() ==> 0 <= #[trigger] tokens@[k] < vocab_size,
            Err((i, tok)) => first_bad_token(tokens@, vocab_size, i as int) && tok == tokens@[i as int],
        },
{
    let n = tokens.len();
    let mut i: usize = 0;
    while i < n
        invariant
            n == tokens@.len(),
            i <= n,
            forall|k: int| 0 <= k < i ==> 0 <= #[trigger] tokens@[k] < vocab_size,
        decreases n - i,
    {
        let tok = tokens[i];
        if !(0 <= tok && tok < vocab_size) {
            return Err((i, tok));
        }
        i += 1;
    }
    Ok(())
}

/// `vals` followed by zeros up to `HEADER_WORDS` words.
pub open spec fn header_words(vals: Seq<i32>) -> Seq<i32> {
    vals + Seq::new((HEADER_WORDS - vals.len()) as nat, |k: int| 0i32)
}

/// A file header: `vals` followed by zeros up to `HEADER_WORDS` words.
pub fn i32_header(vals: &[i32]) -> (header: Vec<i32>)
    requires
        vals@.len() <= HEADER_WORDS,
    ensures
        header@ == header_words(vals@),
        header@.len() == HEADER_WORDS,
        forall|k: int| 0 <= k < vals@.len() ==> #[trigger] header@[k] == vals@[k],
        forall|k: int| vals@.len() <= k < HEADER_WORDS ==> #[trigger] header@[k] == 0,
{
    let mut header: Vec<i32> = vec![0i32; HEADER_WORDS];
    let n = vals.len();
    let mut i: usize = 0;
    while i < n
        invariant
            n == vals@.len(),
            n <= HEADER_WORDS,
            i <= n,
            header@.len() == HEADER_WORDS,
            forall|k: int| 0 <= k < i ==> #[trigger] header@[k] == vals@[k],
            forall|k: int| i <= k < HEADER_WORDS ==> #[trigger] header@[k] == 0,
        decreases n - i,
    {
        header[i] = vals[i];
        i += 1;
    }
    assert(header@ =~= header_words(vals@));
    header
}

/// The bytes of a file header: `vals` followed by zeros up to
/// `HEADER_WORDS` words, each written as a little-endian `i32`.
pub fn i32_header_bytes(vals: &[i32]) -> (bytes: Vec<u8>)
    requires
        vals@.len() <= HEADER_WORDS,
    ensures
        bytes@ == encode_i32s_spec(header_words(vals@)),
        bytes@.len() == 4 * HEADER_WORDS,
        le_i32s(bytes@) == header_words(vals@),
{
    let header = i32_header(vals);
    let bytes = encode_i32s(header.as_slice());
    proof {
        lemma_header_round_trip(vals@);
    }
    bytes
}

/// Reading back a written header gives the values, then zeros up to
/// `HEADER_WORDS` words; the header takes `4 * HEADER_WORDS` bytes.
pub proof fn lemma_header_round_trip(vals: Seq<i32>)
    requires
        vals.len() <= HEADER_WORDS,
    ensures
        encode_i32s_spec(header_words(vals)).len() == 4 * HEADER_WORDS,
        le_i32s(encode_i32s_spec(header_words(vals))) == header_words(vals),
        forall|k: int| 0 <= k < vals.len() ==> #[trigger] le_i32s(encode_i32s_spec(header_words(vals)))[k] == vals[k],
        forall|k: int|
            vals.len() <= k < HEADER_WORDS ==> #[trigger] le_i32s(encode_i32s_spec(header_words(vals)))[k] == 0,
{
    lemma_decode_encode_i32s(header_words(vals));
}

} // verus!
