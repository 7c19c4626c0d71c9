//! The distributed data loader's bookkeeping: which shard and which byte
//! offset each batch is read from, with optional shuffling of the shards
//! and of the samples inside a shard.
//!
//! A data shard is a header of 256 little-endian `i32`s (magic 20240520,
//! version 1, number of tokens) followed by the tokens as `u16`s. Each
//! batch is `B * T + 1` consecutive tokens; the inputs are the first
//! `B * T` of them and the targets the same tokens shifted by one.
#![allow(non_snake_case)]

use vstd::prelude::*;
use crate::rand::{
    MtView, Mt19937State, fresh, identity_seq, init_identity_permutation, manual_seed,
    random_permutation, seeded, shuffled, lemma_shuffled_identity_is_permutation,
};

verus! {

/// Number of `i32` words in a shard header.
pub const HEADER_SIZE: usize = 256;

pub const SHARD_MAGIC: i32 = 20240520;

pub const SHARD_VERSION: i32 = 1;

/// Why a data shard or a set of shards was refused.
#[derive(Debug, PartialEq, Eq, Structural)]
pub enum DataLoaderError {
    /// the header does not start with `SHARD_MAGIC`
    BadMagic,
    /// the version is not `SHARD_VERSION`
    BadVersion,
    /// the header announces no tokens
    NoTokens,
    /// the file size is not the header plus two bytes per token
    FileSizeMismatch,
    /// no shard at all
    NoShards,
    /// a shard (by index) holds fewer than `num_processes * B * T + 1` tokens
    ShardTooSmall(usize),
}

/// The result of checking a shard header against the shard's file size:
/// the number of tokens in the shard.
pub open spec fn shard_header_result(h: Seq<i32>, file_size_bytes: i64) -> Result<i64, DataLoaderError> {
    if h[0] != SHARD_MAGIC {
        Err(DataLoaderError::BadMagic)
    } else if h[1] != SHARD_VERSION {
        Err(DataLoaderError::BadVersion)
    } else if h[2] <= 0 {
        Err(DataLoaderError::NoTokens)
    } else if file_size_bytes != HEADER_SIZE * 4 + h[2] * 2 {
        Err(DataLoaderError::FileSizeMismatch)
    } else {
        Ok(h[2] as i64)
    }
}

/// Validates a shard header (`HEADER_SIZE` words) against the size of the
/// shard file and returns the number of tokens in the shard.
pub fn parse_shard_header(header: &[i32], file_size_bytes: i64) -> (r: Result<i64, DataLoaderError>)
    requires
        header@.len() >= 3,
    ensures
        r == shard_header_result(header@, file_size_bytes),
{
    if header[0] != SHARD_MAGIC {
        return Err(DataLoaderError::BadMagic);
    }
    if header[1] != SHARD_VERSION {
        return Err(DataLoaderError::BadVersion);
    }
    let ntok = header[2] as i64;  // number of tokens in the file
    if ntok <= 0 {
        return Err(DataLoaderError::NoTokens);
    }
    // we expect ntok in the file to be consistent with filesize
    let expected_file_size = (HEADER_SIZE as i64) * 4 + ntok * 2;
    if file_size_bytes != expected_file_size {
        return Err(DataLoaderError::FileSizeMismatch);
    }
    Ok(ntok)
}

/// Where the next batch is read from: `num_tokens` tokens (`u16`) at byte
/// `offset` of the shard file with index `shard`.
#[derive(Clone, Copy, Debug, PartialEq, Eq, Structural)]
pub struct BatchRead {
    pub shard: usize,
    pub offset: u64,
    pub num_tokens: usize,
}

/// The model of the loader's position and shuffling state.
pub struct LoaderView {
    pub shard_ntoks: Seq<i64>,
    pub should_shuffle: bool,
    pub total_batch_size_bytes: int,
    pub local_batch_offset_bytes: int,
    pub header_bytes: int,
    pub current_shard_idx: int,
    pub current_sample_idx: int,
    pub shard_num_samples: int,
    pub file_size_bytes: int,
    pub shuffle_rng: MtView,
    pub shard_indices: Seq<i32>,
    pub intra_shard_indices: Seq<i32>,
}

/// The shard file read at position `k` of the epoch.
pub open spec fn shard_file(v: LoaderView, k: int) -> int {
    if v.should_shuffle {
        v.shard_indices[k] as int
    } else {
        k
    }
}

/// Number of batches a shard of `ntok` tokens serves: one token is read
/// past each batch, and `total` bytes are consumed per batch.
pub open spec fn samples_in(ntok: int, total: int) -> int {
    (ntok * 2 - 2) / total
}

/// Loading the shard at epoch position `k`.
pub open spec fn load_shard(v: LoaderView, k: int) -> LoaderView {
    let ntok = v.shard_ntoks[shard_file(v, k)] as int;
    LoaderView {
        shard_num_samples: samples_in(ntok, v.total_batch_size_bytes),
        file_size_bytes: HEADER_SIZE * 4 + ntok * 2,
        ..v
    }
}

/// A fresh shuffle of the samples of the current shard.
pub open spec fn prepare_intra(v: LoaderView) -> LoaderView {
    let (rng, idx) = shuffled(v.shuffle_rng, identity_seq(v.shard_num_samples as nat));
    LoaderView { shuffle_rng: rng, intra_shard_indices: idx, ..v }
}

/// Starting a new epoch: back to the first shard and sample, with the
/// shards reshuffled when shuffling.
pub open spec fn reset(v: LoaderView) -> LoaderView {
    let v1 = LoaderView { current_shard_idx: 0, current_sample_idx: 0, ..v };
    let v2 = if v.should_shuffle {
        let (rng, idx) = shuffled(v1.shuffle_rng, v1.shard_indices);
        LoaderView { shuffle_rng: rng, shard_indices: idx, ..v1 }
    } else {
        v1
    };
    let v3 = load_shard(v2, 0);
    if v.should_shuffle {
        prepare_intra(v3)
    } else {
        v3
    }
}

/// Moving to the next shard; after the last shard a new epoch starts.
pub open spec fn advance(v: LoaderView) -> LoaderView {
    if v.current_shard_idx == v.shard_ntoks.len() - 1 {
        reset(v)
    } else {
        let k = (v.current_shard_idx + 1) % (v.shard_ntoks.len() as int);
        let v1 = LoaderView { current_shard_idx: k, current_sample_idx: 0, ..v };
        let v2 = load_shard(v1, k);
        if v.should_shuffle {
            prepare_intra(v2)
        } else {
            v2
        }
    }
}

/// The state after serving the next batch, and the file and byte offset the
/// batch is read from.
pub open spec fn next_batch(v: LoaderView) -> (LoaderView, int, int) {
    let v1 = if v.current_sample_idx >= v.shard_num_samples {
        advance(v)
    } else {
        v
    };
    let idx = if v1.should_shuffle {
        v1.intra_shard_indices[v1.current_sample_idx] as int
    } else {
        v1.current_sample_idx
    };
    (
        LoaderView { current_sample_idx: v1.current_sample_idx + 1, ..v1 },
        shard_file(v1, v1.current_shard_idx),
        v1.header_bytes + idx * v1.total_batch_size_bytes + v1.local_batch_offset_bytes,
    )
}

pub struct DataLoader {
    // variables related to distributed training
    // each process/worker has to access different parts of the data
    pub process_rank: i32,
    pub num_processes: i32,
    // batch and token information
    pub B: usize,
    pub T: usize,
    /// total number of tokens
    pub num_tokens: usize,
    /// total number of samples in the current shard per process
    pub shard_num_samples: usize,
    /// the number of tokens of each shard, in file order
    pub shard_ntoks: Vec<i64>,
    /// the current shard we are reading from
    pub current_shard_idx: usize,
    /// the current sample we are reading from
    pub current_sample_idx: usize,
    /// input tokens into transformer
    pub inputs: Vec<i32>,
    /// target tokens for the transformer
    pub targets: Vec<i32>,
    // random shuffle related variables
    pub shuffle_rng: Mt19937State,
    pub should_shuffle: bool,
    pub shard_indices: Vec<i32>,
    pub intra_shard_indices: Vec<i32>,
    // sizes in bytes
    /// total across all processes
    pub total_batch_size_bytes: usize,
    /// inner-sample offset for this process
    pub local_batch_offset_bytes: usize,
    /// header size in bytes
    pub header_bytes: usize,
    /// size of the current shard file
    pub file_size_bytes: i64,
}

impl View for DataLoader {
    type V = LoaderView;

    open spec fn view(&self) -> LoaderView {
        LoaderView {
            shard_ntoks: self.shard_ntoks@,
            should_shuffle: self.should_shuffle,
            total_batch_size_bytes: self.total_batch_size_bytes as int,
            local_batch_offset_bytes: self.local_batch_offset_bytes as int,
            header_bytes: self.header_bytes as int,
            current_shard_idx: self.current_shard_idx as int,
            current_sample_idx: self.current_sample_idx as int,
            shard_num_samples: self.shard_num_samples as int,
            file_size_bytes: self.file_size_bytes as int,
            shuffle_rng: self.shuffle_rng@,
            shard_indices: self.shard_indices@,
            intra_shard_indices: self.intra_shard_indices@,
        }
    }
}

/// All values of `s` lie in `0..bound`.
pub open spec fn values_below(s: Seq<i32>, bound: int) -> bool {
    forall|k: int| 0 <= k < s.len() ==> 0 <= #[trigger] s[k] < bound
}

proof fn lemma_values_below_shuffled(v: MtView, s: Seq<i32>, bound: int)
    requires
        values_below(s, bound),
    ensures
        shuffled(v, s).1.len() == s.len(),
        values_below(shuffled(v, s).1, bound),
{
    broadcast use vstd::seq_lib::to_multiset_contains;
    crate::rand::lemma_shuffle_from_permutes(v, s, s.len() - 1);
    let d = shuffled(v, s).1;
    assert forall|k: int| 0 <= k < d.len() implies 0 <= #[trigger] d[k] < bound by {
        assert(d.contains(d[k]));
        assert(d.to_multiset().count(d[k]) > 0);
        assert(s.to_multiset().count(d[k]) > 0);
        assert(s.contains(d[k]));
    }
}

proof fn lemma_total_positive(p: int, bt: int)
    requires
        p >= 1,
        bt >= 1,
    ensures
        p * bt * 2 >= 2,
        p * bt >= bt,
{
    assert(p * bt >= bt) by (nonlinear_arith)
        requires
            p >= 1,
            bt >= 1,
    ;
}

/// A shard of `ntok` tokens serves at least one and at most `ntok - 1`
/// batches, and all of them lie in its first `2 * ntok - 2` bytes.
proof fn lemma_samples_bounds(ntok: int, total: int)
    requires
        total >= 2,
        2 * ntok - 2 >= total,
    ensures
        1 <= samples_in(ntok, total) <= ntok - 1,
        samples_in(ntok, total) * total <= 2 * ntok - 2,
{
    let q = samples_in(ntok, total);
    vstd::arithmetic::div_mod::lemma_fundamental_div_mod(2 * ntok - 2, total);
    vstd::arithmetic::div_mod::lemma_mod_bound(2 * ntok - 2, total);
    assert(q * total <= 2 * ntok - 2) by (nonlinear_arith)
        requires
            2 * ntok - 2 == total * q + (2 * ntok - 2) % total,
            (2 * ntok - 2) % total >= 0,
    ;
    assert(q >= 1) by (nonlinear_arith)
        requires
            q == (2 * ntok - 2) / total,
            2 * ntok - 2 >= total,
            total >= 2,
    ;
    assert(q <= ntok - 1) by (nonlinear_arith)
        requires
            q * total <= 2 * ntok - 2,
            total >= 2,
            q >= 1,
    ;
}

impl DataLoader {
    /// The fields that stay fixed once the loader is built are consistent,
    /// and every shard is large enough and small enough to be addressed.
    pub open spec fn config_wf(&self) -> bool {
        let n = self.shard_ntoks@.len();
        let bt = self.B * self.T;
        &&& 1 <= n <= i32::MAX as int + 1
        &&& bt >= 1
        &&& bt + 1 <= usize::MAX
        &&& self.num_processes >= 1
        &&& self.process_rank >= 0
        &&& self.total_batch_size_bytes == self.num_processes * bt * 2
        &&& self.local_batch_offset_bytes == self.process_rank * self.B * self.T * 2
        &&& self.header_bytes == HEADER_SIZE * 4
        &&& forall|k: int|
            0 <= k < n ==> {
                &&& #[trigger] self.shard_ntoks@[k] >= self.num_processes * bt + 1
                &&& self.shard_ntoks@[k] <= i32::MAX
                &&& HEADER_SIZE * 4 + self.shard_ntoks@[k] * 2 + self.local_batch_offset_bytes
                    <= usize::MAX
            }
        &&& self.inputs@.len() == bt
        &&& self.targets@.len() == bt
    }

    /// When shuffling, the shard order is a list of shard indices.
    pub open spec fn shuffle_wf(&self) -> bool {
        let n = self.shard_ntoks@.len() as int;
        self.should_shuffle ==> self.shard_indices@.len() == n && values_below(self.shard_indices@, n)
    }

    /// The loader's position and shuffle state are consistent with its
    /// configuration.
    pub open spec fn wf(&self) -> bool {
        let n = self.shard_ntoks@.len() as int;
        &&& self.config_wf()
        &&& self.shuffle_wf()
        &&& self.current_shard_idx < n
        &&& self.should_shuffle ==> self.intra_shard_indices@.len() == self.shard_num_samples
            && values_below(self.intra_shard_indices@, self.shard_num_samples as int)
        &&& self.shard_num_samples == samples_in(
            self.shard_ntoks@[shard_file(self@, self.current_shard_idx as int)] as int,
            self.total_batch_size_bytes as int,
        )
    }

    /// `new` has the same configuration, inputs and targets as `self`.
    pub open spec fn same_config(&self, new: &DataLoader) -> bool {
        &&& new.process_rank == self.process_rank
        &&& new.num_processes == self.num_processes
        &&& new.B == self.B
        &&& new.T == self.T
        &&& new.num_tokens == self.num_tokens
        &&& new.inputs@ == self.inputs@
        &&& new.targets@ == self.targets@
    }

    fn dataloader_load_shard_(&mut self, shard_index: usize) -> (ntok: i64)
        requires
            old(self).config_wf(),
            shard_index < old(self).shard_ntoks@.len(),
            old(self).shuffle_wf(),
        ensures
            final(self)@ == load_shard(old(self)@, shard_index as int),
            old(self).same_config(final(self)),
            final(self).config_wf(),
            final(self).shuffle_wf(),
            final(self).shard_num_samples <= i32::MAX,
            final(self).shard_num_samples >= 1,
            ntok == old(self).shard_ntoks@[shard_file(old(self)@, shard_index as int)],
    {
        let shard_index = if self.should_shuffle {
            self.shard_indices[shard_index] as usize
        } else {
            shard_index
        };
        let ntok = self.shard_ntoks[shard_index];
        proof {
            lemma_total_positive(self.num_processes as int, self.B * self.T);
            lemma_samples_bounds(ntok as int, self.total_batch_size_bytes as int);
        }
        self.file_size_bytes = (HEADER_SIZE as i64) * 4 + ntok * 2;
        // -1 uint16_t due to us taking B*T+1 tokens but moving by B*T tokens
        self.shard_num_samples = (ntok as usize * 2 - 2) / self.total_batch_size_bytes;
        ntok
    }

    fn prepare_intra_shard_indices_(&mut self)
        requires
            old(self).config_wf(),
            old(self).shard_num_samples <= i32::MAX as int + 1,
        ensures
            final(self)@ == prepare_intra(old(self)@),
            old(self).same_config(final(self)),
            final(self).config_wf(),
            old(self).shuffle_wf() ==> final(self).shuffle_wf(),
            final(self).intra_shard_indices@.len() == final(self).shard_num_samples,
            values_below(final(self).intra_shard_indices@, final(self).shard_num_samples as int),
    {
        // shuffle the examples inside the shards
        let mut intra: Vec<i32> = vec![0i32; self.shard_num_samples];
        init_identity_permutation(intra.as_mut_slice());
        random_permutation(intra.as_mut_slice(), &mut self.shuffle_rng);
        proof {
            lemma_shuffled_identity_is_permutation(old(self).shuffle_rng@, old(self).shard_num_samples as nat);
        }
        self.intra_shard_indices = intra;
    }
}

proof fn lemma_loader_view_wf(l: &DataLoader)
    requires
        l.wf(),
    ensures
        loader_view_wf(l@),
{
    lemma_total_positive(l.num_processes as int, l.B * l.T);
    assert forall|k: int| 0 <= k < l.shard_ntoks@.len() implies 2 * #[trigger] l.shard_ntoks@[k] - 2
        >= l.total_batch_size_bytes by {
        assert(l.shard_ntoks@[k] >= l.num_processes * (l.B * l.T) + 1);
    }
}

impl DataLoader {
    /// Starts a new epoch: back to the first shard and its first sample;
    /// when shuffling, the shards and the samples of the first shard are
    /// reshuffled.
    pub fn reset(&mut self)
        requires
            old(self).config_wf(),
            old(self).shuffle_wf(),
        ensures
            final(self)@ == reset(old(self)@),
            final(self).wf(),
            old(self).same_config(final(self)),
    {
        self.current_shard_idx = 0;
        self.current_sample_idx = 0;
        if self.should_shuffle {
            // shuffle the shards
            proof {
                lemma_values_below_shuffled(self.shuffle_rng@, self.shard_indices@, self.shard_ntoks@.len() as int);
            }
            random_permutation(self.shard_indices.as_mut_slice(), &mut self.shuffle_rng);
        }
        self.dataloader_load_shard_(self.current_shard_idx);
        if self.should_shuffle {
            self.prepare_intra_shard_indices_();
        }
    }

    fn dataloader_advance_(&mut self)
        requires
            old(self).wf(),
        ensures
            final(self)@ == advance(old(self)@),
            final(self).wf(),
            old(self).same_config(final(self)),
    {
        if self.current_shard_idx == self.shard_ntoks.len() - 1 {
            // if we are at the last shard, we reset the loader and start a new epoch
            self.reset();
            return;
        }
        // advance the loader by loading the next data shard and resetting the position
        self.current_shard_idx = (self.current_shard_idx + 1) % self.shard_ntoks.len();
        self.current_sample_idx = 0;
        self.dataloader_load_shard_(self.current_shard_idx);
        if self.should_shuffle {
            self.prepare_intra_shard_indices_();
        }
    }

    fn dataloader_load_batch(&self) -> (r: BatchRead)
        requires
            self.wf(),
            self.current_sample_idx < self.shard_num_samples,
        ensures
            r.shard == shard_file(self@, self.current_shard_idx as int),
            r.offset == next_batch(self@).2,
            r.num_tokens == self.B * self.T + 1,
            self.process_rank < self.num_processes ==> r.offset + 2 * r.num_tokens
                <= HEADER_SIZE * 4 + 2 * self.shard_ntoks@[r.shard as int],
    {
        let idx = if self.should_shuffle {
            self.intra_shard_indices[self.current_sample_idx] as usize
        } else {
            self.current_sample_idx
        };
        let shard = if self.should_shuffle {
            self.shard_indices[self.current_shard_idx] as usize
        } else {
            self.current_shard_idx
        };
        let ghost ntok = self.shard_ntoks@[shard as int] as int;
        let ghost total = self.total_batch_size_bytes as int;
        let ghost samples = self.shard_num_samples as int;
        proof {
            lemma_total_positive(self.num_processes as int, self.B * self.T);
            lemma_samples_bounds(ntok, total);
            assert(idx * total <= (samples - 1) * total) by (nonlinear_arith)
                requires
                    idx <= samples - 1,
                    total >= 0,
            ;
            assert((samples - 1) * total == samples * total - total) by (nonlinear_arith);
            let bt = self.B * self.T;
            let p = self.num_processes as int;
            let rank = self.process_rank as int;
            if rank < p {
                let b = self.B as int;
                let t = self.T as int;
                assert(rank * b * t * 2 + bt * 2 <= p * bt * 2) by (nonlinear_arith)
                    requires
                        rank + 1 <= p,
                        bt >= 1,
                        bt == b * t,
                ;
            }
        }
        let global_batch_offset_bytes = idx * self.total_batch_size_bytes;
        let current_offset = self.header_bytes + global_batch_offset_bytes + self.local_batch_offset_bytes;
        BatchRead { shard, offset: current_offset as u64, num_tokens: self.B * self.T + 1 }
    }

    /// Moves to the next batch and says where to read it from: the shard
    /// file, the byte offset and the number of tokens. When the current
    /// shard is used up the loader advances to the next shard, and after the
    /// last shard starts a new epoch. For a process rank below the number of
    /// processes the read lies inside the shard file.
    pub fn next_batch(&mut self) -> (r: BatchRead)
        requires
            old(self).wf(),
        ensures
            final(self).wf(),
            old(self).same_config(final(self)),
            (final(self)@, r.shard as int, r.offset as int) == next_batch(old(self)@),
            r.num_tokens == old(self).B * old(self).T + 1,
            old(self).process_rank < old(self).num_processes ==> r.offset + 2 * r.num_tokens
                <= HEADER_SIZE * 4 + 2 * old(self).shard_ntoks@[r.shard as int],
            old(self).should_shuffle ==> r.shard
                == final(self).shard_indices@[final(self).current_shard_idx as int],
            old(self).should_shuffle ==> r.offset == HEADER_SIZE * 4
                + final(self).intra_shard_indices@[final(self).current_sample_idx - 1]
                * old(self).total_batch_size_bytes + old(self).local_batch_offset_bytes,
    {
        let ghost v0 = self@;
        proof {
            lemma_loader_view_wf(self);
            if v0.should_shuffle {
                lemma_shuffled_order(v0);
            }
        }
        // if the next batch would go past the end of the file, advance the loader
        if self.current_sample_idx >= self.shard_num_samples {
            self.dataloader_advance_();
        }
        proof {
            lemma_total_positive(self.num_processes as int, self.B * self.T);
            let k = shard_file(self@, self.current_shard_idx as int);
            assert(self.shard_ntoks@[k] >= self.num_processes * (self.B * self.T) + 1);
            lemma_samples_bounds(self.shard_ntoks@[k] as int, self.total_batch_size_bytes as int);
        }
        let r = self.dataloader_load_batch();
        self.current_sample_idx += 1;
        r
    }

    /// Decodes the `B * T + 1` tokens of a batch into the inputs (the first
    /// `B * T` tokens) and the targets (the same tokens shifted by one).
    pub fn fill_batch(&mut self, buffer: &[u16])
        requires
            old(self).wf(),
            buffer@.len() == old(self).B * old(self).T + 1,
        ensures
            final(self).wf(),
            final(self)@ == old(self)@,
            final(self).inputs@.len() == old(self).inputs@.len(),
            final(self).targets@.len() == old(self).targets@.len(),
            forall|i: int| 0 <= i < old(self).B * old(self).T ==> #[trigger] final(self).inputs@[i] == buffer@[i] as i32,
            forall|i: int| 0 <= i < old(self).B * old(self).T ==> #[trigger] final(self).targets@[i] == buffer@[i + 1] as i32,
            forall|i: int| 0 <= i < old(self).B * old(self).T - 1 ==> #[trigger] final(self).targets@[i] == final(self).inputs@[i + 1],
            final(self).process_rank == old(self).process_rank,
            final(self).num_processes == old(self).num_processes,
            final(self).B == old(self).B,
            final(self).T == old(self).T,
            final(self).num_tokens == old(self).num_tokens,
    {
        let bt = self.B * self.T;
        let mut i: usize = 0;
        while i < bt
            invariant
                bt == self.B * self.T,
                buffer@.len() == bt + 1,
                i <= bt,
                self.wf(),
                self@ == old(self)@,
                self.process_rank == old(self).process_rank,
                self.num_processes == old(self).num_processes,
                self.B == old(self).B,
                self.T == old(self).T,
                self.num_tokens == old(self).num_tokens,
                forall|k: int| 0 <= k < i ==> #[trigger] self.inputs@[k] == buffer@[k] as i32,
                forall|k: int| 0 <= k < i ==> #[trigger] self.targets@[k] == buffer@[k + 1] as i32,
            decreases bt - i,
        {
            self.inputs[i] = buffer[i] as i32;
            self.targets[i] = buffer[i + 1] as i32;
            i += 1;
        }
    }

    /// Jumps to sample `current_sample_idx` of the shard at epoch position
    /// `current_shard_idx` (used when training resumes from a checkpoint).
    pub fn resume(&mut self, current_shard_idx: usize, current_sample_idx: usize)
        requires
            old(self).wf(),
            current_shard_idx < old(self).shard_ntoks@.len(),
            old(self).should_shuffle ==> old(self).intra_shard_indices@.len() == samples_in(
                old(self).shard_ntoks@[shard_file(old(self)@, current_shard_idx as int)] as int,
                old(self).total_batch_size_bytes as int,
            ),
        ensures
            final(self)@ == load_shard(
                LoaderView {
                    current_shard_idx: current_shard_idx as int,
                    current_sample_idx: current_sample_idx as int,
                    ..old(self)@
                },
                current_shard_idx as int,
            ),
            final(self).wf(),
            old(self).same_config(final(self)),
    {
        self.current_shard_idx = current_shard_idx;
        self.current_sample_idx = current_sample_idx;
        self.dataloader_load_shard_(self.current_shard_idx);
    }
}

/// Without shuffling, the batches of a shard are served in file order; when
/// a shard is used up the next shard is read from its first batch, and
/// after the last shard the loader wraps around to the first batch of the
/// first shard.
pub proof fn lemma_unshuffled_order(v: LoaderView)
    requires
        !v.should_shuffle,
        0 <= v.current_shard_idx < v.shard_ntoks.len(),
    ensures
        v.current_sample_idx < v.shard_num_samples ==> {
            &&& next_batch(v).1 == v.current_shard_idx
            &&& next_batch(v).2 == v.header_bytes + v.current_sample_idx * v.total_batch_size_bytes
                + v.local_batch_offset_bytes
            &&& next_batch(v).0.current_shard_idx == v.current_shard_idx
            &&& next_batch(v).0.current_sample_idx == v.current_sample_idx + 1
        },
        v.current_sample_idx >= v.shard_num_samples && v.current_shard_idx + 1
            < v.shard_ntoks.len() ==> {
            &&& next_batch(v).1 == v.current_shard_idx + 1
            &&& next_batch(v).2 == v.header_bytes + v.local_batch_offset_bytes
            &&& next_batch(v).0.current_sample_idx == 1
        },
        v.current_sample_idx >= v.shard_num_samples && v.current_shard_idx + 1
            == v.shard_ntoks.len() ==> {
            &&& next_batch(v).1 == 0
            &&& next_batch(v).2 == v.header_bytes + v.local_batch_offset_bytes
            &&& next_batch(v).0.current_shard_idx == 0
            &&& next_batch(v).0.current_sample_idx == 1
        },
{
    if v.current_sample_idx >= v.shard_num_samples {
        let a = advance(v);
        if v.current_shard_idx + 1 < v.shard_ntoks.len() {
            vstd::arithmetic::div_mod::lemma_small_mod(
                (v.current_shard_idx + 1) as nat,
                v.shard_ntoks.len() as nat,
            );
            assert(a.current_shard_idx == v.current_shard_idx + 1);
            assert(a.current_sample_idx == 0);
        } else {
            assert(a == load_shard(LoaderView { current_shard_idx: 0, current_sample_idx: 0, ..v }, 0));
            assert(a.current_shard_idx == 0);
            assert(a.current_sample_idx == 0);
        }
        assert(!a.should_shuffle);
        assert(a.header_bytes == v.header_bytes);
        assert(a.local_batch_offset_bytes == v.local_batch_offset_bytes);
    }
}

/// A loader position that the loader can be in: at least one shard, each
/// holding at least one batch, the current shard among them, and (when
/// shuffling) a shard order made of shard indices.
pub open spec fn loader_view_wf(v: LoaderView) -> bool {
    let n = v.shard_ntoks.len() as int;
    &&& 1 <= n <= i32::MAX as int + 1
    &&& 0 <= v.current_shard_idx < n
    &&& 0 <= v.current_sample_idx
    &&& v.total_batch_size_bytes >= 2
    &&& forall|k: int|
        0 <= k < n ==> {
            &&& 2 * #[trigger] v.shard_ntoks[k] - 2 >= v.total_batch_size_bytes
            &&& v.shard_ntoks[k] <= i32::MAX
        }
    &&& v.should_shuffle ==> v.shard_indices.len() == n && values_below(v.shard_indices, n)
}

/// With shuffling on, a batch is read from the file that the shuffled shard
/// order names at the current epoch position, at the sample that the
/// shuffled sample order names at the current position within the shard.
/// While the shard has batches left the next position of the same shard is
/// served; otherwise the next epoch position (or, after the last one, the
/// first position of a reshuffled epoch) is loaded, its sample order is a
/// fresh permutation of all its samples, and its first entry is served.
/// The new orders are the loader's generator's next shuffles: of the previous
/// shard order when an epoch starts, then of the new shard's samples.
pub proof fn lemma_shuffled_order(v: LoaderView)
    requires
        v.should_shuffle,
        loader_view_wf(v),
    ensures
        ({
            let w = next_batch(v).0;
            let shard = next_batch(v).1;
            let offset = next_batch(v).2;
            let n = v.shard_ntoks.len() as int;
            let total = v.total_batch_size_bytes;
            &&& w.should_shuffle
            &&& w.shard_ntoks == v.shard_ntoks
            &&& w.header_bytes == v.header_bytes
            &&& w.total_batch_size_bytes == total
            &&& w.local_batch_offset_bytes == v.local_batch_offset_bytes
            &&& 0 <= w.current_shard_idx < n
            &&& w.current_sample_idx >= 1
            &&& w.shard_indices.len() == n
            &&& 0 <= shard < n
            &&& shard == w.shard_indices[w.current_shard_idx]
            &&& offset == v.header_bytes + w.intra_shard_indices[w.current_sample_idx - 1] * total
                + v.local_batch_offset_bytes
            &&& v.current_sample_idx < v.shard_num_samples ==> {
                &&& w.current_shard_idx == v.current_shard_idx
                &&& w.current_sample_idx == v.current_sample_idx + 1
                &&& w.shard_indices == v.shard_indices
                &&& w.intra_shard_indices == v.intra_shard_indices
                &&& w.shard_num_samples == v.shard_num_samples
                &&& shard == v.shard_indices[v.current_shard_idx]
                &&& offset == v.header_bytes + v.intra_shard_indices[v.current_sample_idx] * total
                    + v.local_batch_offset_bytes
            }
            &&& v.current_sample_idx >= v.shard_num_samples ==> {
                &&& w.current_sample_idx == 1
                &&& w.current_shard_idx == (if v.current_shard_idx + 1 < n {
                    v.current_shard_idx + 1
                } else {
                    0
                })
                &&& v.current_shard_idx + 1 < n ==> w.shard_indices == v.shard_indices
                &&& w.shard_indices.to_multiset() == v.shard_indices.to_multiset()
                &&& w.shard_num_samples == (v.shard_ntoks[shard] * 2 - 2) / total
                &&& w.shard_num_samples >= 1
                &&& w.intra_shard_indices.len() == w.shard_num_samples
                &&& w.intra_shard_indices.no_duplicates()
                &&& forall|k: int|
                    0 <= k < w.shard_num_samples ==> #[trigger] w.intra_shard_indices.contains(k as i32)
                &&& values_below(w.intra_shard_indices, w.shard_num_samples)
            }
            &&& v.current_sample_idx >= v.shard_num_samples && v.current_shard_idx + 1 < n
                ==> w.intra_shard_indices == shuffled(
                v.shuffle_rng,
                identity_seq(w.shard_num_samples as nat),
            ).1
            &&& v.current_sample_idx >= v.shard_num_samples && v.current_shard_idx + 1 == n ==> {
                &&& w.shard_indices == shuffled(v.shuffle_rng, v.shard_indices).1
                &&& w.intra_shard_indices == shuffled(
                    shuffled(v.shuffle_rng, v.shard_indices).0,
                    identity_seq(w.shard_num_samples as nat),
                ).1
            }
        }),
{
    let n = v.shard_ntoks.len() as int;
    if v.current_sample_idx >= v.shard_num_samples {
        let a = advance(v);
        let v1 = LoaderView { current_shard_idx: 0, current_sample_idx: 0, ..v };
        let v2 = if v.current_shard_idx == n - 1 {
            let (rng, idx) = shuffled(v1.shuffle_rng, v1.shard_indices);
            LoaderView { shuffle_rng: rng, shard_indices: idx, ..v1 }
        } else {
            LoaderView {
                current_shard_idx: (v.current_shard_idx + 1) % n,
                current_sample_idx: 0,
                ..v
            }
        };
        if v.current_shard_idx == n - 1 {
            lemma_values_below_shuffled(v1.shuffle_rng, v1.shard_indices, n);
            crate::rand::lemma_shuffle_from_permutes(
                v1.shuffle_rng,
                v1.shard_indices,
                v1.shard_indices.len() - 1,
            );
        } else {
            vstd::arithmetic::div_mod::lemma_small_mod((v.current_shard_idx + 1) as nat, n as nat);
        }
        assert(values_below(v2.shard_indices, n));
        assert(0 <= v2.current_shard_idx < n);
        let f = v2.shard_indices[v2.current_shard_idx] as int;
        assert(0 <= f < n);
        let v3 = load_shard(v2, v2.current_shard_idx);
        assert(v3.shard_num_samples == samples_in(v.shard_ntoks[f] as int, v.total_batch_size_bytes));
        lemma_samples_bounds(v.shard_ntoks[f] as int, v.total_batch_size_bytes);
        lemma_intra_order_is_permutation(v3);
        assert(a == prepare_intra(v3));
    } else {
        assert(0 <= v.shard_indices[v.current_shard_idx] < n);
    }
}

/// When shuffling, the sample order prepared for a shard is a permutation of
/// its samples: within one pass over the shard every sample is served
/// exactly once.
pub proof fn lemma_intra_order_is_permutation(v: LoaderView)
    requires
        0 <= v.shard_num_samples <= i32::MAX as int + 1,
    ensures
        prepare_intra(v).intra_shard_indices.len() == v.shard_num_samples,
        prepare_intra(v).intra_shard_indices.no_duplicates(),
        forall|k: int|
            0 <= k < v.shard_num_samples ==> #[trigger] prepare_intra(v).intra_shard_indices.contains(
                k as i32,
            ),
        values_below(prepare_intra(v).intra_shard_indices, v.shard_num_samples),
{
    lemma_shuffled_identity_is_permutation(v.shuffle_rng, v.shard_num_samples as nat);
}

/// When shuffling, every epoch visits each shard exactly once: if the shard
/// order is a permutation of the shard indices, it still is after the
/// reshuffle that starts a new epoch.
pub proof fn lemma_epoch_shard_order_is_permutation(v: LoaderView)
    requires
        v.should_shuffle,
        v.shard_ntoks.len() <= i32::MAX as int + 1,
        v.shard_indices.to_multiset() == identity_seq(v.shard_ntoks.len()).to_multiset(),
    ensures
        reset(v).shard_indices.to_multiset() == identity_seq(v.shard_ntoks.len()).to_multiset(),
        reset(v).shard_indices.no_duplicates(),
{
    let id = identity_seq(v.shard_ntoks.len());
    let v1 = LoaderView { current_shard_idx: 0, current_sample_idx: 0, ..v };
    crate::rand::lemma_shuffle_from_permutes(v1.shuffle_rng, v1.shard_indices, v1.shard_indices.len() - 1);
    let d = reset(v).shard_indices;
    assert(d == shuffled(v1.shuffle_rng, v1.shard_indices).1);
    assert(id.no_duplicates());
    id.lemma_multiset_has_no_duplicates();
    d.lemma_multiset_has_no_duplicates_conv();
}

/// The state of a freshly built loader just before its first reset: when
/// shuffling, the generator is seeded with `42 + process_rank` and the shard
/// order is the identity.
pub open spec fn initial_view(
    shard_ntoks: Seq<i64>,
    should_shuffle: bool,
    process_rank: i32,
    total_batch_size_bytes: int,
    local_batch_offset_bytes: int,
) -> LoaderView {
    LoaderView {
        shard_ntoks: shard_ntoks,
        should_shuffle: should_shuffle,
        total_batch_size_bytes: total_batch_size_bytes,
        local_batch_offset_bytes: local_batch_offset_bytes,
        header_bytes: HEADER_SIZE * 4,
        current_shard_idx: 0,
        current_sample_idx: 0,
        shard_num_samples: 0,
        file_size_bytes: 0,
        shuffle_rng: if should_shuffle {
            seeded((42 + process_rank) as u32)
        } else {
            fresh()
        },
        shard_indices: if should_shuffle {
            identity_seq(shard_ntoks.len())
        } else {
            Seq::empty()
        },
        intra_shard_indices: Seq::empty(),
    }
}

/// The number of tokens in the first `i` shards.
pub open spec fn ntok_sum(s: Seq<i64>, i: int) -> int
    decreases i,
{
    if i <= 0 {
        0
    } else {
        ntok_sum(s, i - 1) + s[i - 1]
    }
}

impl DataLoader {
    /// Builds a loader over shards holding `shard_ntoks[k]` tokens each (as
    /// validated by `parse_shard_header`), serving batches of `B` sequences
    /// of `T` tokens to process `process_rank` of `num_processes`, shuffled
    /// when `should_shuffle` is not 0. Every shard must hold at least
    /// `num_processes * B * T + 1` tokens.
    pub fn init(
        shard_ntoks: Vec<i64>,
        B: usize,
        T: usize,
        process_rank: i32,
        num_processes: i32,
        should_shuffle: i32,
    ) -> (r: Result<DataLoader, DataLoaderError>)
        requires
            num_processes >= 1,
            process_rank >= 0,
            B * T >= 1,
            B * T + 1 <= usize::MAX,
            num_processes * (B * T) * 2 <= usize::MAX,
            process_rank * B * T * 2 <= usize::MAX,
            should_shuffle != 0 ==> 42 + process_rank <= i32::MAX,
            shard_ntoks@.len() <= i32::MAX as int + 1,
            forall|k: int|
                0 <= k < shard_ntoks@.len() ==> {
                    &&& 0 < #[trigger] shard_ntoks@[k] <= i32::MAX
                    &&& HEADER_SIZE * 4 + shard_ntoks@[k] * 2 + process_rank * B * T * 2 <= usize::MAX
                },
        ensures
            match r {
                Ok(l) => {
                    &&& l.wf()
                    &&& l@ == reset(
                        initial_view(
                            shard_ntoks@,
                            should_shuffle != 0,
                            process_rank,
                            num_processes * (B * T) * 2,
                            process_rank * B * T * 2,
                        ),
                    )
                    &&& l.process_rank == process_rank
                    &&& l.num_processes == num_processes
                    &&& l.B == B
                    &&& l.T == T
                    &&& l.num_tokens == ntok_sum(shard_ntoks@, shard_ntoks@.len() as int) as usize
                    &&& l.inputs@ == Seq::new((B * T) as nat, |i: int| 0i32)
                    &&& l.targets@ == Seq::new((B * T) as nat, |i: int| 0i32)
                },
                Err(DataLoaderError::NoShards) => shard_ntoks@.len() == 0,
                Err(DataLoaderError::ShardTooSmall(i)) => {
                    &&& 0 <= i < shard_ntoks@.len()
                    &&& shard_ntoks@[i as int] < num_processes * (B * T) + 1
                    &&& forall|k: int| 0 <= k < i ==> #[trigger] shard_ntoks@[k] >= num_processes * (B * T) + 1
                },
                Err(_) => false,
            },
    {
        let n = shard_ntoks.len();
        if n == 0 {
            return Err(DataLoaderError::NoShards);
        }
        let bt = B * T;
        let min_tokens: usize = num_processes as usize * bt + 1;
        // we need at least one batch/shard, the way things are written right now.
        let mut ntok_total: i64 = 0;
        let mut k: usize = 0;
        while k < n
            invariant
                n == shard_ntoks@.len(),
                n <= i32::MAX as int + 1,
                k <= n,
                min_tokens == num_processes * (B * T) + 1,
                ntok_total == ntok_sum(shard_ntoks@, k as int),
                0 <= ntok_total <= k * (i32::MAX as int),
                forall|j: int| 0 <= j < k ==> #[trigger] shard_ntoks@[j] >= min_tokens,
                forall|j: int| 0 <= j < n ==> 0 < #[trigger] shard_ntoks@[j] <= i32::MAX,
            decreases n - k,
        {
            let shard_ntok = shard_ntoks[k];
            if (shard_ntok as usize) < min_tokens {
                return Err(DataLoaderError::ShardTooSmall(k));
            }
            ntok_total += shard_ntok;
            k += 1;
        }
        proof {
            let r = process_rank as int;
            assert(r * B <= r * B * T && r * B * T <= r * B * T * 2) by (nonlinear_arith)
                requires
                    r >= 0,
                    B * T >= 1,
            ;
        }
        let total_batch_size_bytes = (num_processes as usize * bt) * 2;
        let local_batch_offset_bytes = process_rank as usize * B * T * 2;
        let flag = should_shuffle != 0;
        let mut shuffle_rng = Mt19937State::default();
        let mut shard_indices: Vec<i32> = Vec::new();
        if flag {
            manual_seed(&mut shuffle_rng, (42 + process_rank) as u32);
            shard_indices = vec![0i32; n];
            init_identity_permutation(shard_indices.as_mut_slice());
        }
        let mut loader = DataLoader {
            process_rank,
            num_processes,
            B,
            T,
            num_tokens: #[verifier::truncate] (ntok_total as usize),
            shard_num_samples: 0,
            shard_ntoks,
            current_shard_idx: 0,
            current_sample_idx: 0,
            inputs: vec![0i32; bt],
            targets: vec![0i32; bt],
            shuffle_rng,
            should_shuffle: flag,
            shard_indices,
            intra_shard_indices: Vec::new(),
            total_batch_size_bytes,
            local_batch_offset_bytes,
            header_bytes: HEADER_SIZE * 4,
            file_size_bytes: 0,
        };
        proof {
            assert(loader@ == initial_view(
                loader.shard_ntoks@,
                flag,
                process_rank,
                num_processes * (B * T) * 2,
                process_rank * B * T * 2,
            ));
        }
        // reset the loader, to initialize it
        loader.reset();
        Ok(loader)
    }
}

} // verus!
