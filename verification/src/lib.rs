//! Verified integer core of a GPT-2 trainer: the MT19937 generator, the
//! sampler's xorshift generator, and the binary formats and bookkeeping
//! around the model.
use vstd::prelude::*;

pub mod bytes;
pub mod dataloader;
pub mod model;
pub mod rand;
pub mod sampler;
pub mod synth;
pub mod tokenizer;
pub mod utils;

verus! {

} // verus!
