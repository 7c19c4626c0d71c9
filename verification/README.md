# gpt2

GPT-2 training on the CPU, split in two:

- `src/` is a Verus-verified library holding the integer logic:
  - `rand`: the MT19937 generator (seeding, twisting, tempering, 64-bit draws)
    and the Fisher-Yates shuffle, specified over a mathematical model of the
    generator state, with proofs that the stream depends only on the seed and
    that shuffles are permutations;
  - `sampler`: the xorshift* generator used when sampling tokens;
  - `bytes`: little-endian encoding and decoding of the binary files, with
    proofs that decoding an encoding gives the values back;
  - `tokenizer`: the tokenizer file format (reading and writing, with a
    round-trip proof) and token decoding;
  - `model`: the model config, tensor sizes, the back-to-back layout of the
    tensors in one allocation, the checkpoint header and the token checks of
    a forward pass;
  - `dataloader`: the data shard header and the loader's bookkeeping (which
    shard and byte offset each batch comes from, shuffling, epochs), with the
    batch decoding into inputs and shifted targets;
  - `utils`: vocabulary checks and file headers;
  - `synth`: random token streams and token names for synthetic data.
- `app/` is ordinary Rust around it: the floating-point layers and model
  (forward, backward, AdamW), file I/O, and the training, test and data
  generation programs.

`tests/` exercises the library on concrete values.
