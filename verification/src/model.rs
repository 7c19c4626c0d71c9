//! The GPT-2 model definition: the config, the sizes of the parameter and
//! activation tensors, and their layout as `(start, len)` views into one
//! big allocation, plus the checkpoint header.
#![allow(non_snake_case)]

use vstd::prelude::*;

verus! {

#[derive(Clone, Copy, Debug)]
pub struct GPT2Config {
    /// max sequence length, e.g. 1024
    pub max_seq_len: usize,
    /// vocab size, e.g. 50257
    pub vocab_size: usize,
    /// padded to e.g. %128==0, 50304
    pub padded_vocab_size: usize,
    /// number of layers, e.g. 12
    pub num_layers: usize,
    /// number of heads in attention, e.g. 12
    pub num_heads: usize,
    /// number of channels, e.g. 768
    pub channels: usize,
}

/// A (start, len) view of one tensor inside the single big allocation.
#[derive(Clone, Copy, Debug)]
pub struct TensorView {
    pub start: usize,
    pub len: usize,
}

impl TensorView {
    /// The (start, len) range of this tensor at `offset` elements in, `len`
    /// elements long.
    pub fn range(&self, offset: usize, len: usize) -> (r: (usize, usize))
        requires
            self.start + offset <= usize::MAX,
        ensures
            r.0 == self.start + offset,
            r.1 == len,
    {
        (self.start + offset, len)
    }

    /// A shared slice of this tensor at `offset` elements in, `len` elements
    /// long.
    pub fn slice<'a, T>(&self, buf: &'a [T], offset: usize, len: usize) -> (r: &'a [T])
        requires
            self.start + offset + len <= buf@.len(),
        ensures
            r@ == buf@.subrange(self.start + offset, self.start + offset + len),
    {
        let n = buf.len();
        assert(n == buf@.len());
        vstd::slice::slice_subrange(buf, self.start + offset, self.start + offset + len)
    }
}

// ----------------------------------------------------------------------------
// sizes

pub const NUM_PARAMETER_TENSORS: usize = 16;

pub const NUM_ACTIVATION_TENSORS: usize = 23;

/// The sizes of the 16 parameter tensors, in layout order: wte (Vp, C),
/// wpe (maxT, C), ln1w, ln1b (L, C), qkvw (L, 3C, C), qkvb (L, 3C),
/// attprojw (L, C, C), attprojb, ln2w, ln2b (L, C), fcw (L, 4C, C),
/// fcb (L, 4C), fcprojw (L, C, 4C), fcprojb (L, C), lnfw, lnfb (C).
pub open spec fn parameter_sizes(c: GPT2Config) -> Seq<int> {
    let Vp = c.padded_vocab_size as int;
    let C = c.channels as int;
    let maxT = c.max_seq_len as int;
    let L = c.num_layers as int;
    seq![
        Vp * C,
        maxT * C,
        L * C,
        L * C,
        L * (3 * C) * C,
        L * (3 * C),
        L * C * C,
        L * C,
        L * C,
        L * C,
        L * (4 * C) * C,
        L * (4 * C),
        L * C * (4 * C),
        L * C,
        C,
        C,
    ]
}

/// Every product computed for the parameter sizes fits in a `usize`.
pub open spec fn parameter_sizes_fit(c: GPT2Config) -> bool {
    let Vp = c.padded_vocab_size as int;
    let C = c.channels as int;
    let maxT = c.max_seq_len as int;
    let L = c.num_layers as int;
    &&& Vp * C <= usize::MAX
    &&& maxT * C <= usize::MAX
    &&& L * C <= usize::MAX
    &&& 3 * C <= usize::MAX
    &&& L * (3 * C) <= usize::MAX
    &&& L * (3 * C) * C <= usize::MAX
    &&& L * C * C <= usize::MAX
    &&& 4 * C <= usize::MAX
    &&& L * (4 * C) <= usize::MAX
    &&& L * (4 * C) * C <= usize::MAX
    &&& L * C * (4 * C) <= usize::MAX
}

/// Fills in the sizes of the parameter tensors.
pub fn fill_in_parameter_sizes(param_sizes: &mut [usize; NUM_PARAMETER_TENSORS], config: &GPT2Config)
    requires
        parameter_sizes_fit(*config),
    ensures
        final(param_sizes)@.len() == NUM_PARAMETER_TENSORS,
        forall|i: int|
            0 <= i < NUM_PARAMETER_TENSORS ==> #[trigger] final(param_sizes)@[i] == parameter_sizes(
                *config,
            )[i],
        ({
            let p = final(param_sizes)@;
            let C = config.channels as int;
            let L = config.num_layers as int;
            &&& p[0] == config.padded_vocab_size * C
            &&& p[1] == config.max_seq_len * C
            &&& p[2] == L * C && p[3] == L * C && p[7] == L * C && p[8] == L * C
            &&& p[9] == L * C && p[13] == L * C
            &&& p[4] == L * (3 * C) * C && p[5] == L * (3 * C)
            &&& p[6] == L * C * C
            &&& p[10] == L * (4 * C) * C && p[11] == L * (4 * C) && p[12] == L * C * (4 * C)
            &&& p[14] == C && p[15] == C
        }),
{
    let Vp = config.padded_vocab_size;
    let C = config.channels;
    let maxT = config.max_seq_len;
    let L = config.num_layers;
    param_sizes[0] = Vp * C;  // wte
    param_sizes[1] = maxT * C;  // wpe
    param_sizes[2] = L * C;  // ln1w
    param_sizes[3] = L * C;  // ln1b
    param_sizes[4] = L * (3 * C) * C;  // qkvw
    param_sizes[5] = L * (3 * C);  // qkvb
    param_sizes[6] = L * C * C;  // attprojw
    param_sizes[7] = L * C;  // attprojb
    param_sizes[8] = L * C;  // ln2w
    param_sizes[9] = L * C;  // ln2b
    param_sizes[10] = L * (4 * C) * C;  // fcw
    param_sizes[11] = L * (4 * C);  // fcb
    param_sizes[12] = L * C * (4 * C);  // fcprojw
    param_sizes[13] = L * C;  // fcprojb
    param_sizes[14] = C;  // lnfw
    param_sizes[15] = C;  // lnfb
}

/// The sizes of the 23 activation tensors for a batch of `B` sequences of
/// length `T`, in layout order: encoded (B, T, C), ln1 (L, B, T, C),
/// ln1_mean, ln1_rstd (L, B, T), qkv (L, B, T, 3C), atty (L, B, T, C),
/// preatt, att (L, B, NH, T, T), attproj, residual2, ln2 (L, B, T, C),
/// ln2_mean, ln2_rstd (L, B, T), fch, fch_gelu (L, B, T, 4C),
/// fcproj, residual3 (L, B, T, C), lnf (B, T, C), lnf_mean, lnf_rstd (B, T),
/// logits, probs (B, T, Vp), losses (B, T).
pub open spec fn activation_sizes(c: GPT2Config, B: int, T: int) -> Seq<int> {
    let C = c.channels as int;
    let NH = c.num_heads as int;
    let L = c.num_layers as int;
    let Vp = c.padded_vocab_size as int;
    seq![
        B * T * C,
        L * B * T * C,
        L * B * T,
        L * B * T,
        L * B * T * 3 * C,
        L * B * T * C,
        L * B * NH * T * T,
        L * B * NH * T * T,
        L * B * T * C,
        L * B * T * C,
        L * B * T * C,
        L * B * T,
        L * B * T,
        L * B * T * 4 * C,
        L * B * T * 4 * C,
        L * B * T * C,
        L * B * T * C,
        B * T * C,
        B * T,
        B * T,
        B * T * Vp,
        B * T * Vp,
        B * T,
    ]
}

/// Every product computed for the activation sizes fits in a `usize`.
pub open spec fn activation_sizes_fit(c: GPT2Config, B: int, T: int) -> bool {
    let C = c.channels as int;
    let NH = c.num_heads as int;
    let L = c.num_layers as int;
    let Vp = c.padded_vocab_size as int;
    &&& B * T <= usize::MAX
    &&& B * T * C <= usize::MAX
    &&& L * B <= usize::MAX
    &&& L * B * T <= usize::MAX
    &&& L * B * T * C <= usize::MAX
    &&& L * B * T * 3 <= usize::MAX
    &&& L * B * T * 3 * C <= usize::MAX
    &&& L * B * NH <= usize::MAX
    &&& L * B * NH * T <= usize::MAX
    &&& L * B * NH * T * T <= usize::MAX
    &&& L * B * T * 4 <= usize::MAX
    &&& L * B * T * 4 * C <= usize::MAX
    &&& B * T * Vp <= usize::MAX
}

/// Fills in the sizes of the activation tensors for a batch of `B`
/// sequences of length `T`.
pub fn fill_in_activation_sizes(
    act_sizes: &mut [usize; NUM_ACTIVATION_TENSORS],
    config: &GPT2Config,
    B: usize,
    T: usize,
)
    requires
        activation_sizes_fit(*config, B as int, T as int),
    ensures
        final(act_sizes)@.len() == NUM_ACTIVATION_TENSORS,
        forall|i: int|
            0 <= i < NUM_ACTIVATION_TENSORS ==> #[trigger] final(act_sizes)@[i] == activation_sizes(
                *config,
                B as int,
                T as int,
            )[i],
        ({
            let a = final(act_sizes)@;
            let C = config.channels as int;
            let NH = config.num_heads as int;
            let L = config.num_layers as int;
            let Vp = config.padded_vocab_size as int;
            &&& a[0] == B * T * C && a[17] == B * T * C
            &&& a[1] == L * B * T * C && a[5] == L * B * T * C && a[8] == L * B * T * C
            &&& a[9] == L * B * T * C && a[10] == L * B * T * C && a[15] == L * B * T * C
            &&& a[16] == L * B * T * C
            &&& a[2] == L * B * T && a[3] == L * B * T && a[11] == L * B * T && a[12] == L * B * T
            &&& a[4] == L * B * T * 3 * C
            &&& a[6] == L * B * NH * T * T && a[7] == L * B * NH * T * T
            &&& a[13] == L * B * T * 4 * C && a[14] == L * B * T * 4 * C
            &&& a[18] == B * T && a[19] == B * T && a[22] == B * T
            &&& a[20] == B * T * Vp && a[21] == B * T * Vp
        }),
{
    let C = config.channels;
    let NH = config.num_heads;
    let L = config.num_layers;
    let Vp = config.padded_vocab_size;
    act_sizes[0] = B * T * C;  // encoded
    act_sizes[1] = L * B * T * C;  // ln1
    act_sizes[2] = L * B * T;  // ln1_mean
    act_sizes[3] = L * B * T;  // ln1_rstd
    act_sizes[4] = L * B * T * 3 * C;  // qkv
    act_sizes[5] = L * B * T * C;  // atty
    act_sizes[6] = L * B * NH * T * T;  // preatt
    act_sizes[7] = L * B * NH * T * T;  // att
    act_sizes[8] = L * B * T * C;  // attproj
    act_sizes[9] = L * B * T * C;  // residual2
    act_sizes[10] = L * B * T * C;  // ln2
    act_sizes[11] = L * B * T;  // ln2_mean
    act_sizes[12] = L * B * T;  // ln2_rstd
    act_sizes[13] = L * B * T * 4 * C;  // fch
    act_sizes[14] = L * B * T * 4 * C;  // fch_gelu
    act_sizes[15] = L * B * T * C;  // fcproj
    act_sizes[16] = L * B * T * C;  // residual3
    act_sizes[17] = B * T * C;  // lnf
    act_sizes[18] = B * T;  // lnf_mean
    act_sizes[19] = B * T;  // lnf_rstd
    act_sizes[20] = B * T * Vp;  // logits
    act_sizes[21] = B * T * Vp;  // probs
    act_sizes[22] = B * T;  // losses
}

/// Whether every product `fill_in_parameter_sizes` computes fits in a
/// `usize`.
pub fn check_parameter_sizes(config: &GPT2Config) -> (r: bool)
    ensures
        r == parameter_sizes_fit(*config),
{
    let Vp = config.padded_vocab_size;
    let C = config.channels;
    let maxT = config.max_seq_len;
    let L = config.num_layers;
    if Vp.checked_mul(C).is_none() || maxT.checked_mul(C).is_none() {
        return false;
    }
    let lc = match L.checked_mul(C) {
        Some(x) => x,
        None => return false,
    };
    if lc.checked_mul(C).is_none() {
        return false;
    }
    let c3 = match C.checked_mul(3) {
        Some(x) => x,
        None => return false,
    };
    let lc3 = match L.checked_mul(c3) {
        Some(x) => x,
        None => return false,
    };
    if lc3.checked_mul(C).is_none() {
        return false;
    }
    let c4 = match C.checked_mul(4) {
        Some(x) => x,
        None => return false,
    };
    let lc4 = match L.checked_mul(c4) {
        Some(x) => x,
        None => return false,
    };
    if lc4.checked_mul(C).is_none() || lc.checked_mul(c4).is_none() {
        return false;
    }
    true
}

/// Whether every product `fill_in_activation_sizes` computes fits in a
/// `usize`.
pub fn check_activation_sizes(config: &GPT2Config, B: usize, T: usize) -> (r: bool)
    ensures
        r == activation_sizes_fit(*config, B as int, T as int),
{
    let C = config.channels;
    let NH = config.num_heads;
    let L = config.num_layers;
    let Vp = config.padded_vocab_size;
    let bt = match B.checked_mul(T) {
        Some(x) => x,
        None => return false,
    };
    if bt.checked_mul(C).is_none() || bt.checked_mul(Vp).is_none() {
        return false;
    }
    let lb = match L.checked_mul(B) {
        Some(x) => x,
        None => return false,
    };
    let lbt = match lb.checked_mul(T) {
        Some(x) => x,
        None => return false,
    };
    if lbt.checked_mul(C).is_none() {
        return false;
    }
    let lbt3 = match lbt.checked_mul(3) {
        Some(x) => x,
        None => return false,
    };
    if lbt3.checked_mul(C).is_none() {
        return false;
    }
    let lbt4 = match lbt.checked_mul(4) {
        Some(x) => x,
        None => return false,
    };
    if lbt4.checked_mul(C).is_none() {
        return false;
    }
    let lbnh = match lb.checked_mul(NH) {
        Some(x) => x,
        None => return false,
    };
    let lbnht = match lbnh.checked_mul(T) {
        Some(x) => x,
        None => return false,
    };
    if lbnht.checked_mul(T).is_none() {
        return false;
    }
    true
}

// ----------------------------------------------------------------------------
// layout: the tensors are carved out of one allocation, back to back

/// The sum of the first `i` sizes.
pub open spec fn size_prefix(s: Seq<usize>, i: int) -> int
    decreases i,
{
    if i <= 0 {
        0
    } else {
        size_prefix(s, i - 1) + s[i - 1]
    }
}

/// Tensor `i` starts where tensor `i - 1` ends; the first starts at 0.
pub open spec fn layout(s: Seq<usize>) -> Seq<TensorView> {
    Seq::new(s.len(), |i: int| TensorView { start: size_prefix(s, i) as usize, len: s[i] })
}

proof fn lemma_size_prefix_mono(s: Seq<usize>, i: int, j: int)
    requires
        0 <= i <= j <= s.len(),
    ensures
        size_prefix(s, i) <= size_prefix(s, j),
    decreases j - i,
{
    if i < j {
        lemma_size_prefix_mono(s, i, j - 1);
    }
}

/// The total size of the tensors, e.g. the number of parameters.
pub fn total_size(sizes: &[usize]) -> (r: usize)
    requires
        size_prefix(sizes@, sizes@.len() as int) <= usize::MAX,
    ensures
        r == size_prefix(sizes@, sizes@.len() as int),
{
    let n = sizes.len();
    let mut total: usize = 0;
    let mut i: usize = 0;
    while i < n
        invariant
            n == sizes@.len(),
            i <= n,
            total == size_prefix(sizes@, i as int),
            size_prefix(sizes@, n as int) <= usize::MAX,
        decreases n - i,
    {
        proof {
            lemma_size_prefix_mono(sizes@, i + 1, n as int);
        }
        total = total + sizes[i];
        i += 1;
    }
    total
}

/// Whether the sizes add up to at most `usize::MAX`.
pub fn check_total_size(sizes: &[usize]) -> (r: bool)
    ensures
        r == (size_prefix(sizes@, sizes@.len() as int) <= usize::MAX),
{
    let n = sizes.len();
    let mut total: usize = 0;
    let mut i: usize = 0;
    while i < n
        invariant
            n == sizes@.len(),
            i <= n,
            total == size_prefix(sizes@, i as int),
        decreases n - i,
    {
        match total.checked_add(sizes[i]) {
            Some(t) => {
                total = t;
            },
            None => {
                proof {
                    lemma_size_prefix_mono(sizes@, i + 1, n as int);
                }
                return false;
            },
        }
        i += 1;
    }
    true
}

/// The `(start, len)` views of tensors of the given sizes laid out back to
/// back from 0.
pub fn layout_tensors(sizes: &[usize]) -> (r: Vec<TensorView>)
    requires
        size_prefix(sizes@, sizes@.len() as int) <= usize::MAX,
    ensures
        r@ == layout(sizes@),
{
    let n = sizes.len();
    let mut r: Vec<TensorView> = Vec::new();
    let mut it: usize = 0;
    let mut i: usize = 0;
    while i < n
        invariant
            n == sizes@.len(),
            i <= n,
            it == size_prefix(sizes@, i as int),
            size_prefix(sizes@, n as int) <= usize::MAX,
            r@ =~= layout(sizes@).subrange(0, i as int),
        decreases n - i,
    {
        proof {
            lemma_size_prefix_mono(sizes@, i + 1, n as int);
        }
        r.push(TensorView { start: it, len: sizes[i] });
        it = it + sizes[i];
        i += 1;
    }
    r
}

/// The layout packs the tensors without overlap: each ends no later than the
/// next one starts, the first starts at 0, and all of them end within the
/// total size.
pub proof fn lemma_layout_disjoint(s: Seq<usize>)
    requires
        size_prefix(s, s.len() as int) <= usize::MAX,
    ensures
        s.len() > 0 ==> layout(s)[0].start == 0,
        forall|i: int, j: int|
            0 <= i < j < s.len() ==> #[trigger] layout(s)[i].start + layout(s)[i].len
                <= #[trigger] layout(s)[j].start,
        forall|i: int|
            0 <= i < s.len() ==> #[trigger] layout(s)[i].start + layout(s)[i].len <= size_prefix(
                s,
                s.len() as int,
            ),
{
    assert forall|i: int, j: int| 0 <= i < j < s.len() implies #[trigger] layout(s)[i].start
        + layout(s)[i].len <= #[trigger] layout(s)[j].start by {
        lemma_size_prefix_mono(s, 0, i);
        lemma_size_prefix_mono(s, i + 1, j);
        lemma_size_prefix_mono(s, j, s.len() as int);
        lemma_size_prefix_mono(s, i, s.len() as int);
        assert(size_prefix(s, i + 1) == size_prefix(s, i) + s[i]);
    }
    assert forall|i: int| 0 <= i < s.len() implies #[trigger] layout(s)[i].start + layout(s)[i].len
        <= size_prefix(s, s.len() as int) by {
        lemma_size_prefix_mono(s, 0, i);
        lemma_size_prefix_mono(s, i + 1, s.len() as int);
        lemma_size_prefix_mono(s, i, s.len() as int);
        assert(size_prefix(s, i + 1) == size_prefix(s, i) + s[i]);
    }
}

/// The parameters of the model.
#[derive(Clone, Copy, Debug)]
pub struct ParameterTensors {
    /// (V, C)
    pub wte: TensorView,
    /// (maxT, C)
    pub wpe: TensorView,
    /// (L, C)
    pub ln1w: TensorView,
    /// (L, C)
    pub ln1b: TensorView,
    /// (L, 3*C, C)
    pub qkvw: TensorView,
    /// (L, 3*C)
    pub qkvb: TensorView,
    /// (L, C, C)
    pub attprojw: TensorView,
    /// (L, C)
    pub attprojb: TensorView,
    /// (L, C)
    pub ln2w: TensorView,
    /// (L, C)
    pub ln2b: TensorView,
    /// (L, 4*C, C)
    pub fcw: TensorView,
    /// (L, 4*C)
    pub fcb: TensorView,
    /// (L, C, 4*C)
    pub fcprojw: TensorView,
    /// (L, C)
    pub fcprojb: TensorView,
    /// (C)
    pub lnfw: TensorView,
    /// (C)
    pub lnfb: TensorView,
}

impl ParameterTensors {
    /// The tensors in layout order.
    pub open spec fn views(&self) -> Seq<TensorView> {
        seq![
            self.wte,
            self.wpe,
            self.ln1w,
            self.ln1b,
            self.qkvw,
            self.qkvb,
            self.attprojw,
            self.attprojb,
            self.ln2w,
            self.ln2b,
            self.fcw,
            self.fcb,
            self.fcprojw,
            self.fcprojb,
            self.lnfw,
            self.lnfb,
        ]
    }
}

/// Points the parameter tensors into one allocation of `total_size(sizes)` elements.
pub fn point_parameters(sizes: &[usize; NUM_PARAMETER_TENSORS]) -> (t: ParameterTensors)
    requires
        size_prefix(sizes@, NUM_PARAMETER_TENSORS as int) <= usize::MAX,
    ensures
        t.views() == layout(sizes@),
{
    let v = layout_tensors(sizes.as_slice());
    let t = ParameterTensors {
        wte: v[0],
        wpe: v[1],
        ln1w: v[2],
        ln1b: v[3],
        qkvw: v[4],
        qkvb: v[5],
        attprojw: v[6],
        attprojb: v[7],
        ln2w: v[8],
        ln2b: v[9],
        fcw: v[10],
        fcb: v[11],
        fcprojw: v[12],
        fcprojb: v[13],
        lnfw: v[14],
        lnfb: v[15],
    };
    assert(t.views() =~= layout(sizes@));
    t
}

/// The activations of the model.
#[derive(Clone, Copy, Debug)]
pub struct ActivationTensors {
    /// (B, T, C)
    pub encoded: TensorView,
    /// (L, B, T, C)
    pub ln1: TensorView,
    /// (L, B, T)
    pub ln1_mean: TensorView,
    /// (L, B, T)
    pub ln1_rstd: TensorView,
    /// (L, B, T, 3*C)
    pub qkv: TensorView,
    /// (L, B, T, C)
    pub atty: TensorView,
    /// (L, B, NH, T, T)
    pub preatt: TensorView,
    /// (L, B, NH, T, T)
    pub att: TensorView,
    /// (L, B, T, C)
    pub attproj: TensorView,
    /// (L, B, T, C)
    pub residual2: TensorView,
    /// (L, B, T, C)
    pub ln2: TensorView,
    /// (L, B, T)
    pub ln2_mean: TensorView,
    /// (L, B, T)
    pub ln2_rstd: TensorView,
    /// (L, B, T, 4*C)
    pub fch: TensorView,
    /// (L, B, T, 4*C)
    pub fch_gelu: TensorView,
    /// (L, B, T, C)
    pub fcproj: TensorView,
    /// (L, B, T, C)
    pub residual3: TensorView,
    /// (B, T, C)
    pub lnf: TensorView,
    /// (B, T)
    pub lnf_mean: TensorView,
    /// (B, T)
    pub lnf_rstd: TensorView,
    /// (B, T, V)
    pub logits: TensorView,
    /// (B, T, V)
    pub probs: TensorView,
    /// (B, T)
    pub losses: TensorView,
}

impl ActivationTensors {
    /// The tensors in layout order.
    pub open spec fn views(&self) -> Seq<TensorView> {
        seq![
            self.encoded,
            self.ln1,
            self.ln1_mean,
            self.ln1_rstd,
            self.qkv,
            self.atty,
            self.preatt,
            self.att,
            self.attproj,
            self.residual2,
            self.ln2,
            self.ln2_mean,
            self.ln2_rstd,
            self.fch,
            self.fch_gelu,
            self.fcproj,
            self.residual3,
            self.lnf,
            self.lnf_mean,
            self.lnf_rstd,
            self.logits,
            self.probs,
            self.losses,
        ]
    }
}

/// Points the activation tensors into one allocation of `total_size(sizes)` elements.
pub fn point_activations(sizes: &[usize; NUM_ACTIVATION_TENSORS]) -> (t: ActivationTensors)
    requires
        size_prefix(sizes@, NUM_ACTIVATION_TENSORS as int) <= usize::MAX,
    ensures
        t.views() == layout(sizes@),
{
    let v = layout_tensors(sizes.as_slice());
    let t = ActivationTensors {
        encoded: v[0],
        ln1: v[1],
        ln1_mean: v[2],
        ln1_rstd: v[3],
        qkv: v[4],
        atty: v[5],
        preatt: v[6],
        att: v[7],
        attproj: v[8],
        residual2: v[9],
        ln2: v[10],
        ln2_mean: v[11],
        ln2_rstd: v[12],
        fch: v[13],
        fch_gelu: v[14],
        fcproj: v[15],
        residual3: v[16],
        lnf: v[17],
        lnf_mean: v[18],
        lnf_rstd: v[19],
        logits: v[20],
        probs: v[21],
        losses: v[22],
    };
    assert(t.views() =~= layout(sizes@));
    t
}

// ----------------------------------------------------------------------------
// forward pass inputs

/// The first `n` tokens of `tokens` all lie in `0..vocab_size`.
pub open spec fn tokens_in_vocab(tokens: Seq<i32>, n: int, vocab_size: int) -> bool {
    forall|i: int| 0 <= i < n ==> 0 <= #[trigger] tokens[i] < vocab_size
}

/// The check at the start of a forward pass over `n = B * T` positions: all
/// input indices, and all target indices when there are targets, must be in
/// the range `[0, vocab_size)`.
pub fn forward_tokens_valid(inputs: &[i32], targets: Option<&[i32]>, n: usize, vocab_size: usize) -> (r: bool)
    requires
        n <= inputs@.len(),
        targets matches Some(t) ==> n <= t@.len(),
    ensures
        r == (tokens_in_vocab(inputs@, n as int, vocab_size as int) && (targets matches Some(t)
            ==> tokens_in_vocab(t@, n as int, vocab_size as int))),
{
    let mut i: usize = 0;
    while i < n
        invariant
            i <= n,
            n <= inputs@.len(),
            targets matches Some(t) ==> n <= t@.len(),
            tokens_in_vocab(inputs@, i as int, vocab_size as int),
            targets matches Some(t) ==> tokens_in_vocab(t@, i as int, vocab_size as int),
        decreases n - i,
    {
        if !(0 <= inputs[i] && (inputs[i] as usize) < vocab_size) {
            return false;
        }
        match targets {
            Some(t) => {
                if !(0 <= t[i] && (t[i] as usize) < vocab_size) {
                    return false;
                }
            },
            None => {},
        }
        i += 1;
    }
    true
}

// ----------------------------------------------------------------------------
// checkpoint header

pub const MODEL_MAGIC: i32 = 20240326;

pub const MODEL_VERSION: i32 = 3;

/// Why a model checkpoint header was refused.
#[derive(Debug, PartialEq, Eq, Structural)]
pub enum CheckpointError {
    /// the header does not start with `MODEL_MAGIC`
    BadMagic,
    /// the version is not `MODEL_VERSION`
    BadVersion,
}

/// The hyperparameters a checkpoint header holds in its words 2 to 7:
/// maxT, V, L, NH, C, Vp.
pub open spec fn header_config(h: Seq<i32>) -> GPT2Config {
    GPT2Config {
        max_seq_len: h[2] as usize,
        vocab_size: h[3] as usize,
        num_layers: h[4] as usize,
        num_heads: h[5] as usize,
        channels: h[6] as usize,
        padded_vocab_size: h[7] as usize,
    }
}

/// Reads the model config out of a checkpoint header (the first 256 `i32`s
/// of the checkpoint file).
pub fn parse_model_header(model_header: &[i32]) -> (r: Result<GPT2Config, CheckpointError>)
    requires
        model_header@.len() >= 8,
    ensures
        r == (if model_header@[0] != MODEL_MAGIC {
            Err(CheckpointError::BadMagic)
        } else if model_header@[1] != MODEL_VERSION {
            Err(CheckpointError::BadVersion)
        } else {
            Ok(header_config(model_header@))
        }),
        r matches Ok(c) ==> {
            &&& c.max_seq_len == model_header@[2] as usize
            &&& c.vocab_size == model_header@[3] as usize
            &&& c.num_layers == model_header@[4] as usize
            &&& c.num_heads == model_header@[5] as usize
            &&& c.channels == model_header@[6] as usize
            &&& c.padded_vocab_size == model_header@[7] as usize
        },
{
    if model_header[0] != MODEL_MAGIC {
        return Err(CheckpointError::BadMagic);
    }
    if model_header[1] != MODEL_VERSION {
        return Err(CheckpointError::BadVersion);
    }
    // read in hyperparameters
    let maxT = #[verifier::truncate] (model_header[2] as usize);
    let V = #[verifier::truncate] (model_header[3] as usize);
    let L = #[verifier::truncate] (model_header[4] as usize);
    let NH = #[verifier::truncate] (model_header[5] as usize);
    let C = #[verifier::truncate] (model_header[6] as usize);
    let Vp = #[verifier::truncate] (model_header[7] as usize);
    Ok(
        GPT2Config {
            max_seq_len: maxT,
            vocab_size: V,
            num_layers: L,
            num_heads: NH,
            channels: C,
            padded_vocab_size: Vp,
        },
    )
}

/// Magic number and version of the debug state file that holds reference
/// inputs, outputs and gradients for checking a model.
pub const STATE_MAGIC: i32 = 20240327;

pub const STATE_VERSION: i32 = 2;

/// Reads the batch size and sequence length out of a debug state header
/// (the first 256 `i32`s of the state file).
pub fn parse_state_header(state_header: &[i32]) -> (r: Result<(usize, usize), CheckpointError>)
    requires
        state_header@.len() >= 4,
    ensures
        r == (if state_header@[0] != STATE_MAGIC {
            Err(CheckpointError::BadMagic)
        } else if state_header@[1] != STATE_VERSION {
            Err(CheckpointError::BadVersion)
        } else {
            Ok((state_header@[2] as usize, state_header@[3] as usize))
        }),
{
    if state_header[0] != STATE_MAGIC {
        return Err(CheckpointError::BadMagic);
    }
    if state_header[1] != STATE_VERSION {
        return Err(CheckpointError::BadVersion);
    }
    let B = #[verifier::truncate] (state_header[2] as usize);  // batch size, e.g. 4
    let T = #[verifier::truncate] (state_header[3] as usize);  // time / sequence length (e.g. 64, up to maxT)
    Ok((B, T))
}

} // verus!
