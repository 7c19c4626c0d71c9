//! Mersenne Twister (MT19937), numerically identical to torch's generator.
//!
//! With `manual_seed(&mut state, 137)` the first five values of `randint32`
//! are 4053805790, 2173880614, 380293709, 1237255315, 2986595568.
#![allow(non_snake_case)]

use vstd::prelude::*;

verus! {

pub const MERSENNE_STATE_M: usize = 397;

pub const MERSENNE_STATE_N: usize = 624;

pub const LMASK: u32 = 0x7fffffff;

pub const UMASK: u32 = 0x80000000;

/// The twist matrix constant of MT19937.
pub const MATRIX_A_VALUE: u32 = 0x9908b0df;

/// The seed used when a draw is requested from a state that was never seeded.
pub const DEFAULT_SEED: u32 = 5489;

/// The state of the generator.
#[derive(Clone, Copy)]
pub struct Mt19937State {
    left_: i32,
    next_: usize,
    state_: [u32; MERSENNE_STATE_N],
    MATRIX_A: [u32; 2],
}

/// The mathematical model of a generator state.
pub struct MtView {
    /// the 624 words of the state
    pub words: Seq<u32>,
    /// how many draws remain before the words are twisted again (plus one)
    pub left: int,
    /// index of the word the next draw reads
    pub next: int,
    /// the two-entry table indexed by the low bit during a twist
    pub matrix_a: Seq<u32>,
}

impl View for Mt19937State {
    type V = MtView;

    closed spec fn view(&self) -> MtView {
        MtView {
            words: self.state_@,
            left: self.left_ as int,
            next: self.next_ as int,
            matrix_a: self.MATRIX_A@,
        }
    }
}

impl Mt19937State {
    #[verifier::type_invariant]
    closed spec fn inv(&self) -> bool {
        &&& 0 < self.left_ <= MERSENNE_STATE_N as i32
        &&& self.next_ + self.left_ <= MERSENNE_STATE_N + 1
    }
}

/// What every reachable generator state satisfies.
pub open spec fn view_wf(v: MtView) -> bool {
    &&& v.words.len() == MERSENNE_STATE_N
    &&& v.matrix_a.len() == 2
    &&& 0 < v.left <= MERSENNE_STATE_N
    &&& 0 <= v.next
    &&& v.next + v.left <= MERSENNE_STATE_N + 1
}

/// Word `j` of the state right after seeding with `seed`:
/// `x_0 = seed`, `x_j = (1812433253 * (x_{j-1} ^ (x_{j-1} >> 30)) + j) mod 2^32`.
pub open spec fn seed_word(seed: u32, j: nat) -> u32
    decreases j,
{
    if j == 0 {
        seed
    } else {
        let p = seed_word(seed, (j - 1) as nat);
        ((1812433253nat * ((p ^ (p >> 30u32)) as nat) + j) % 0x1_0000_0000nat) as u32
    }
}

pub open spec fn seeded_words(seed: u32) -> Seq<u32> {
    Seq::new(MERSENNE_STATE_N as nat, |j: int| seed_word(seed, j as nat))
}

/// The state that seeding with `seed` produces.
pub open spec fn seeded(seed: u32) -> MtView {
    MtView { words: seeded_words(seed), left: 1, next: 0, matrix_a: seq![0u32, MATRIX_A_VALUE] }
}

/// A state carries the twist table only once it was seeded.
pub open spec fn is_seeded(v: MtView) -> bool {
    v.matrix_a.len() == 2 && v.matrix_a[0] == 0u32 && v.matrix_a[1] == MATRIX_A_VALUE
}

/// The new value of word `j` during a twist, where `s` holds the words
/// `0..j` already twisted and the words `j..N` not yet.
pub open spec fn twist_word(s: Seq<u32>, j: int) -> u32 {
    let succ = if j + 1 < MERSENNE_STATE_N { j + 1 } else { 0 };
    let far = if j + MERSENNE_STATE_M < MERSENNE_STATE_N {
        j + MERSENNE_STATE_M
    } else {
        j + MERSENNE_STATE_M - MERSENNE_STATE_N
    };
    let y = (s[j] & UMASK) | (s[succ] & LMASK);
    let mag: u32 = if y & 1u32 == 0u32 { 0u32 } else { MATRIX_A_VALUE };
    s[far] ^ (y >> 1u32) ^ mag
}

/// Twists the words `j..N` in order.
pub open spec fn twist_from(s: Seq<u32>, j: nat) -> Seq<u32>
    decreases MERSENNE_STATE_N - j,
{
    if j >= MERSENNE_STATE_N {
        s
    } else {
        twist_from(s.update(j as int, twist_word(s, j as int)), j + 1)
    }
}

/// The MT19937 twist of a whole state.
pub open spec fn twisted(s: Seq<u32>) -> Seq<u32> {
    twist_from(s, 0)
}

/// The MT19937 tempering of a state word.
pub open spec fn temper(y: u32) -> u32 {
    let y1 = y ^ (y >> 11u32);
    let y2 = y1 ^ ((y1 << 7u32) & 0x9d2c5680u32);
    let y3 = y2 ^ ((y2 << 15u32) & 0xefc60000u32);
    y3 ^ (y3 >> 18u32)
}

/// One draw: the state after it and the value it returns. An unseeded state
/// is first seeded with `DEFAULT_SEED`; the words are twisted when the
/// current block is used up.
pub open spec fn draw(v: MtView) -> (MtView, u32) {
    let v0 = if is_seeded(v) { v } else { seeded(DEFAULT_SEED) };
    let dec = v0.left - 1;
    let v1 = if dec <= 0 {
        MtView { words: twisted(v0.words), left: MERSENNE_STATE_N as int, next: 0, matrix_a: v0.matrix_a }
    } else {
        MtView { words: v0.words, left: dec, next: v0.next, matrix_a: v0.matrix_a }
    };
    (
        MtView { words: v1.words, left: v1.left, next: v1.next + 1, matrix_a: v1.matrix_a },
        temper(v1.words[v1.next]),
    )
}

/// `(x % 2^32 + j)` wrapped once more is `(x + j) % 2^32`.
proof fn lemma_wrapping_add_small(x: nat, j: nat)
    requires
        j < 0x1_0000_0000,
    ensures
        ({
            let r = x % 0x1_0000_0000nat;
            if r + j > u32::MAX {
                r + j - 0x1_0000_0000 == (x + j) % 0x1_0000_0000nat
            } else {
                r + j == (x + j) % 0x1_0000_0000nat
            }
        }),
{
    let m: int = 0x1_0000_0000;
    let q = (x as int) / m;
    let r = (x as int) % m;
    vstd::arithmetic::div_mod::lemma_fundamental_div_mod(x as int, m);
    if r + j > u32::MAX {
        vstd::arithmetic::div_mod::lemma_fundamental_div_mod_converse((x + j) as int, m, q + 1, r + j - m);
    } else {
        vstd::arithmetic::div_mod::lemma_fundamental_div_mod_converse((x + j) as int, m, q, r + j);
    }
}

/// Seeds the generator: the words become `seeded_words(seed)` and the next
/// draw twists them first.
pub fn manual_seed(state: &mut Mt19937State, seed: u32)
    ensures
        final(state)@ == seeded(seed),
        view_wf(final(state)@),
{
    proof {
        use_type_invariant(&*state);
    }
    state.MATRIX_A[0] = 0x0;
    state.MATRIX_A[1] = 0x9908b0df;
    state.state_[0] = seed;
    let mut j: usize = 1;
    while j < MERSENNE_STATE_N
        invariant
            1 <= j <= MERSENNE_STATE_N,
            state.inv(),
            state.MATRIX_A@ == seq![0u32, MATRIX_A_VALUE],
            forall|k: int| 0 <= k < j ==> #[trigger] state.state_@[k] == seed_word(seed, k as nat),
        decreases MERSENNE_STATE_N - j,
    {
        let p = state.state_[j - 1];
        let m = 1812433253u32.wrapping_mul(p ^ (p >> 30u32));
        let w = m.wrapping_add(j as u32);
        proof {
            let x = 1812433253nat * ((p ^ (p >> 30u32)) as nat);
            lemma_wrapping_add_small(x, j as nat);
            assert(w == seed_word(seed, j as nat));
        }
        state.state_[j] = w;
        j += 1;
    }
    state.left_ = 1;
    state.next_ = 0;
    assert(state.state_@ =~= seeded_words(seed));
    proof {
        use_type_invariant(&*state);
    }
}

/// The state after `Mt19937State::default()`: all words zero and no twist
/// table, so the first draw seeds with `DEFAULT_SEED`.
pub open spec fn fresh() -> MtView {
    MtView {
        words: Seq::new(MERSENNE_STATE_N as nat, |j: int| 0u32),
        left: 1,
        next: 0,
        matrix_a: seq![0u32, 0u32],
    }
}

impl Default for Mt19937State {
    fn default() -> (r: Self)
        ensures
            r@ == fresh(),
            view_wf(r@),
    {
        let r = Mt19937State { left_: 1, next_: 0, state_: [0u32; MERSENNE_STATE_N], MATRIX_A: [0u32, 0u32] };
        assert(r.state_@ =~= fresh().words);
        assert(r.MATRIX_A@ =~= seq![0u32, 0u32]);
        proof {
            use_type_invariant(&r);
        }
        r
    }
}

/// Twists all words of a seeded state and restarts the block.
fn next_state(state: &mut Mt19937State)
    requires
        is_seeded(old(state)@),
    ensures
        final(state)@ == (MtView {
            words: twisted(old(state)@.words),
            left: MERSENNE_STATE_N as int,
            next: 0,
            matrix_a: old(state)@.matrix_a,
        }),
{
    proof {
        use_type_invariant(&*state);
    }
    let ghost s0 = state.state_@;
    state.next_ = 0;
    state.left_ = MERSENNE_STATE_N as i32;
    let mut y: u32;
    let mut j: usize = 0;
    while j < MERSENNE_STATE_N - MERSENNE_STATE_M
        invariant
            0 <= j <= MERSENNE_STATE_N - MERSENNE_STATE_M,
            state.next_ == 0,
            state.left_ == MERSENNE_STATE_N as i32,
            state.MATRIX_A@ == old(state).MATRIX_A@,
            is_seeded(state@),
            twist_from(state.state_@, j as nat) == twisted(s0),
        decreases MERSENNE_STATE_N - MERSENNE_STATE_M - j,
    {
        y = (state.state_[j] & UMASK) | (state.state_[j + 1] & LMASK);
        let ghost s = state.state_@;
        proof {
            assert((y & 1u32) == 0u32 || (y & 1u32) == 1u32) by (bit_vector);
        }
        let mag = state.MATRIX_A[(y & 0x1u32) as usize];
        state.state_[j] = state.state_[j + MERSENNE_STATE_M] ^ (y >> 1u32) ^ mag;
        assert(state.state_@ == s.update(j as int, twist_word(s, j as int)));
        j += 1;
    }
    while j < MERSENNE_STATE_N - 1
        invariant
            MERSENNE_STATE_N - MERSENNE_STATE_M <= j <= MERSENNE_STATE_N - 1,
            state.next_ == 0,
            state.left_ == MERSENNE_STATE_N as i32,
            state.MATRIX_A@ == old(state).MATRIX_A@,
            is_seeded(state@),
            twist_from(state.state_@, j as nat) == twisted(s0),
        decreases MERSENNE_STATE_N - 1 - j,
    {
        y = (state.state_[j] & UMASK) | (state.state_[j + 1] & LMASK);
        let ghost s = state.state_@;
        proof {
            assert((y & 1u32) == 0u32 || (y & 1u32) == 1u32) by (bit_vector);
        }
        let mag = state.MATRIX_A[(y & 0x1u32) as usize];
        state.state_[j] = state.state_[j - (MERSENNE_STATE_N - MERSENNE_STATE_M)] ^ (y >> 1u32) ^ mag;
        assert(state.state_@ == s.update(j as int, twist_word(s, j as int)));
        j += 1;
    }
    y = (state.state_[MERSENNE_STATE_N - 1] & UMASK) | (state.state_[0] & LMASK);
    let ghost s = state.state_@;
    proof {
        assert((y & 1u32) == 0u32 || (y & 1u32) == 1u32) by (bit_vector);
    }
    let mag = state.MATRIX_A[(y & 0x1u32) as usize];
    state.state_[MERSENNE_STATE_N - 1] = state.state_[MERSENNE_STATE_M - 1] ^ (y >> 1u32) ^ mag;
    assert(state.state_@ == s.update(MERSENNE_STATE_N - 1, twist_word(s, MERSENNE_STATE_N - 1)));
    assert(twist_from(state.state_@, MERSENNE_STATE_N as nat) == state.state_@);
}

/// Draws the next 32-bit value.
pub fn randint32(state: &mut Mt19937State) -> (r: u32)
    ensures
        (final(state)@, r) == draw(old(state)@),
        view_wf(final(state)@),
{
    proof {
        use_type_invariant(&*state);
    }
    if state.MATRIX_A[0] != 0 || state.MATRIX_A[1] != 0x9908b0df {
        manual_seed(state, DEFAULT_SEED);  // auto-initialize
    }
    proof {
        use_type_invariant(&*state);
    }
    let left = state.left_ - 1;
    if left <= 0 {
        next_state(state);
    } else {
        state.left_ = left;
    }
    proof {
        use_type_invariant(&*state);
    }
    let mut y: u32 = state.state_[state.next_];
    state.next_ += 1;
    y ^= y >> 11u32;
    y ^= (y << 7u32) & 0x9d2c5680u32;
    y ^= (y << 15u32) & 0xefc60000u32;
    y ^= y >> 18u32;
    proof {
        use_type_invariant(&*state);
    }
    y
}

/// Two draws combined into one 64-bit value, the first draw in the high half.
pub open spec fn draw64(v: MtView) -> (MtView, u64) {
    let (v1, hi) = draw(v);
    let (v2, lo) = draw(v1);
    (v2, (hi as int * 0x1_0000_0000 + lo as int) as u64)
}

/// Draws a 64-bit value from two consecutive 32-bit draws.
pub fn randint64(state: &mut Mt19937State) -> (r: u64)
    ensures
        (final(state)@, r) == draw64(old(state)@),
        view_wf(final(state)@),
{
    let hi = randint32(state);
    let lo = randint32(state);
    let r = ((hi as u64) << 32u64) | lo as u64;
    proof {
        assert(((hi as u64) << 32u64) | lo as u64 == hi as int * 0x1_0000_0000 + lo as int) by (bit_vector);
    }
    r
}

/// Fills `data` with `0, 1, 2, ...` (each index converted to `i32`).
pub fn init_identity_permutation(data: &mut [i32])
    ensures
        final(data)@.len() == old(data)@.len(),
        forall|i: int| 0 <= i < final(data)@.len() ==> #[trigger] final(data)@[i] == i as i32,
        final(data)@ == identity_seq(old(data)@.len()),
{
    let n = data.len();
    let mut i: usize = 0;
    while i < n
        invariant
            0 <= i <= n,
            n == data@.len(),
            data@.len() == old(data)@.len(),
            forall|k: int| 0 <= k < i ==> #[trigger] data@[k] == k as i32,
        decreases n - i,
    {
        data[i] = i as i32;
        i += 1;
    }
    assert(data@ =~= identity_seq(old(data)@.len()));
}

/// The Fisher-Yates steps for positions `i, i-1, ..., 1`: position `i` is
/// swapped with position `randint32 % (i + 1)`.
pub open spec fn shuffle_from(v: MtView, data: Seq<i32>, i: int) -> (MtView, Seq<i32>)
    decreases i,
{
    if i <= 0 {
        (v, data)
    } else {
        let (v2, r) = draw(v);
        let j = (r as int) % (i + 1);
        shuffle_from(v2, data.update(i, data[j]).update(j, data[i]), i - 1)
    }
}

/// The generator state and the data after shuffling all of `data`.
pub open spec fn shuffled(v: MtView, data: Seq<i32>) -> (MtView, Seq<i32>) {
    shuffle_from(v, data, data.len() - 1)
}

/// Shuffles `data` in place (Fisher-Yates), drawing from `state`.
pub fn random_permutation(data: &mut [i32], state: &mut Mt19937State)
    ensures
        (final(state)@, final(data)@) == shuffled(old(state)@, old(data)@),
        final(data)@.to_multiset() == old(data)@.to_multiset(),
        view_wf(final(state)@),
{
    proof {
        lemma_shuffle_from_permutes(old(state)@, old(data)@, old(data)@.len() - 1);
    }
    let numel = data.len();
    let mut i: usize = numel;
    while i > 1
        invariant
            0 <= i <= numel,
            numel == data@.len(),
            shuffle_from(state@, data@, i - 1) == shuffled(old(state)@, old(data)@),
        decreases i,
    {
        i = i - 1;
        // pick an index j in [0, i] with equal probability
        let j = (randint32(state) as usize) % (i + 1);
        // swap i <-> j
        let tmp = data[i];
        data[i] = data[j];
        data[j] = tmp;
    }
    proof {
        use_type_invariant(&*state);
    }
}

/// A Fisher-Yates shuffle keeps the length and the multiset of values.
pub proof fn lemma_shuffle_from_permutes(v: MtView, data: Seq<i32>, i: int)
    requires
        i < data.len(),
    ensures
        shuffle_from(v, data, i).1.len() == data.len(),
        shuffle_from(v, data, i).1.to_multiset() == data.to_multiset(),
    decreases i,
{
    if i > 0 {
        let (v2, r) = draw(v);
        let j = (r as int) % (i + 1);
        let d1 = data.update(i, data[j]);
        let d2 = d1.update(j, data[i]);
        lemma_swap_multiset(data, i, j);
        lemma_shuffle_from_permutes(v2, d2, i - 1);
    }
}

proof fn lemma_swap_multiset(data: Seq<i32>, i: int, j: int)
    requires
        0 <= i < data.len(),
        0 <= j < data.len(),
    ensures
        data.update(i, data[j]).update(j, data[i]).to_multiset() == data.to_multiset(),
{
    broadcast use vstd::seq_lib::to_multiset_update;
    broadcast use vstd::multiset::group_multiset_axioms;
    let d1 = data.update(i, data[j]);
    let d2 = d1.update(j, data[i]);
    if i == j {
        assert(d2 =~= data);
    } else {
        assert(d1[j] == data[j]);
        let m = data.to_multiset();
        assert(m.count(data[i]) > 0) by {
            broadcast use vstd::seq_lib::to_multiset_contains;
            assert(data.contains(data[i]));
        }
        assert(m.insert(data[j]).count(data[i]) > 0);
        let m1 = m.insert(data[j]).remove(data[i]);
        assert(m1.insert(data[i]).count(data[j]) > 0);
        assert forall|x: i32| #[trigger] d2.to_multiset().count(x) == m.count(x) by {}
        assert(d2.to_multiset() =~= data.to_multiset());
    }
}

/// `0, 1, ..., n - 1` as `i32` values.
pub open spec fn identity_seq(n: nat) -> Seq<i32> {
    Seq::new(n, |i: int| i as i32)
}

/// Shuffling the identity permutation of `n <= 2^31` values gives a
/// permutation of `0..n`: every value `0..n` occurs, and exactly once.
pub proof fn lemma_shuffled_identity_is_permutation(v: MtView, n: nat)
    requires
        n <= i32::MAX as nat + 1,
    ensures
        shuffled(v, identity_seq(n)).1.len() == n,
        shuffled(v, identity_seq(n)).1.no_duplicates(),
        forall|k: int| 0 <= k < n ==> #[trigger] shuffled(v, identity_seq(n)).1.contains(k as i32),
        forall|a: int|
            0 <= a < n ==> 0 <= #[trigger] shuffled(v, identity_seq(n)).1[a] < n,
{
    broadcast use vstd::seq_lib::to_multiset_contains;
    let id = identity_seq(n);
    let d = shuffled(v, id).1;
    lemma_shuffle_from_permutes(v, id, id.len() - 1);
    assert(id.no_duplicates());
    id.lemma_multiset_has_no_duplicates();
    d.lemma_multiset_has_no_duplicates_conv();
    assert forall|k: int| 0 <= k < n implies #[trigger] d.contains(k as i32) by {
        assert(id[k] == k as i32);
        assert(id.contains(k as i32));
        assert(id.to_multiset().count(k as i32) > 0);
        assert(d.to_multiset().count(k as i32) > 0);
    }
    assert forall|a: int| 0 <= a < n implies 0 <= #[trigger] d[a] < n by {
        assert(d.contains(d[a]));
        assert(d.to_multiset().count(d[a]) > 0);
        assert(id.to_multiset().count(d[a]) > 0);
        assert(id.contains(d[a]));
        let b = choose|b: int| 0 <= b < id.len() && id[b] == d[a];
        assert(id[b] == b as i32);
    }
}

/// Block `i` of the words generated from `seed`: block 0 is the first twist
/// of the seeded words, each further block the twist of the one before.
pub open spec fn block(seed: u32, i: nat) -> Seq<u32>
    decreases i,
{
    if i == 0 {
        twisted(seeded_words(seed))
    } else {
        twisted(block(seed, (i - 1) as nat))
    }
}

/// The `k`-th value (from 0) of the MT19937 stream for `seed`: the tempered
/// word `k % 624` of block `k / 624`.
pub open spec fn mt_output(seed: u32, k: nat) -> u32 {
    temper(block(seed, k / (MERSENNE_STATE_N as nat))[(k % (MERSENNE_STATE_N as nat)) as int])
}

/// The state after seeding with `seed` and drawing `k` values.
pub open spec fn position(seed: u32, k: nat) -> MtView {
    if k == 0 {
        seeded(seed)
    } else {
        let r = ((k - 1) % (MERSENNE_STATE_N as int)) as int;
        MtView {
            words: block(seed, ((k - 1) / (MERSENNE_STATE_N as int)) as nat),
            left: MERSENNE_STATE_N - r,
            next: r + 1,
            matrix_a: seq![0u32, MATRIX_A_VALUE],
        }
    }
}

/// `k` draws in a row.
pub open spec fn draws(v: MtView, k: nat) -> MtView
    decreases k,
{
    if k == 0 {
        v
    } else {
        draw(draws(v, (k - 1) as nat)).0
    }
}

/// From the position after `k` draws, the next draw returns the `k`-th value
/// of the stream and moves to position `k + 1`.
pub proof fn lemma_draw_follows_stream(seed: u32, k: nat)
    ensures
        draw(position(seed, k)) == (position(seed, k + 1), mt_output(seed, k)),
{
    let n = MERSENNE_STATE_N as int;
    if k == 0 {
        vstd::arithmetic::div_mod::lemma_fundamental_div_mod_converse(0, n, 0, 0);
    } else {
        let q = (k - 1) / n;
        let r = (k - 1) % n;
        vstd::arithmetic::div_mod::lemma_fundamental_div_mod(k - 1, n);
        if r == n - 1 {
            vstd::arithmetic::div_mod::lemma_fundamental_div_mod_converse(k as int, n, q + 1, 0);
        } else {
            vstd::arithmetic::div_mod::lemma_fundamental_div_mod_converse(k as int, n, q, r + 1);
        }
    }
}

/// After seeding with `seed`, the `k`-th draw returns the `k`-th value of the
/// MT19937 stream: the values depend on the seed and on `k` alone.
pub proof fn lemma_seeded_stream(seed: u32, k: nat)
    ensures
        draws(seeded(seed), k) == position(seed, k),
        draw(draws(seeded(seed), k)).1 == mt_output(seed, k),
    decreases k,
{
    if k > 0 {
        lemma_seeded_stream(seed, (k - 1) as nat);
        lemma_draw_follows_stream(seed, (k - 1) as nat);
    }
    lemma_draw_follows_stream(seed, k);
}

/// The MT19937 word sequence of the reference definition (Matsumoto and
/// Nishimura): words 0..624 are the seeded words, and for `k >= 624`
/// `x[k] = x[k - 227] ^ (y A)` with `y` the upper bit of `x[k - 624]` joined
/// to the lower 31 bits of `x[k - 623]`, where `y A` is `y / 2` for even `y`
/// and `(y / 2) ^ 0x9908b0df` for odd `y`. Output `k` of the generator is the
/// tempering of `x[k + 624]`.
pub open spec fn mt_sequence(seed: u32, k: nat) -> u32
    decreases k,
{
    if k < 624 {
        seed_word(seed, k)
    } else {
        let upper: int = if mt_sequence(seed, (k - 624) as nat) >= 0x8000_0000 {
            0x8000_0000
        } else {
            0
        };
        let y = (upper + mt_sequence(seed, (k - 623) as nat) as int % 0x8000_0000) as u32;
        let ya: u32 = if y % 2 == 0 {
            y / 2
        } else {
            (y / 2) ^ 0x9908b0dfu32
        };
        mt_sequence(seed, (k - 227) as nat) ^ ya
    }
}

proof fn lemma_twist_word_bits(a: u32, b: u32, far: u32)
    ensures
        ({
            let y = (a & UMASK) | (b & LMASK);
            let mag: u32 = if y & 1u32 == 0u32 { 0u32 } else { MATRIX_A_VALUE };
            let upper: int = if a >= 0x8000_0000 { 0x8000_0000 } else { 0 };
            let y2 = (upper + b as int % 0x8000_0000) as u32;
            let ya: u32 = if y2 % 2 == 0 { y2 / 2 } else { (y2 / 2) ^ 0x9908b0dfu32 };
            far ^ (y >> 1u32) ^ mag == far ^ ya
        }),
{
    let y = (a & UMASK) | (b & LMASK);
    let upper: int = if a >= 0x8000_0000 { 0x8000_0000 } else { 0 };
    assert(b & 0x7fffffffu32 == b % 0x8000_0000) by (bit_vector);
    if a >= 0x8000_0000 {
        assert(a >= 0x8000_0000u32 ==> (a & 0x80000000u32) | (b & 0x7fffffffu32) == 0x80000000u32 + (b & 0x7fffffffu32)) by (bit_vector);
    } else {
        assert(a < 0x8000_0000u32 ==> (a & 0x80000000u32) | (b & 0x7fffffffu32) == (b & 0x7fffffffu32)) by (bit_vector);
    }
    assert(y == (upper + b as int % 0x8000_0000) as u32);
    assert(y >> 1u32 == y / 2 && (y & 1u32 == 0u32) == (y % 2 == 0)) by (bit_vector);
    assert(far ^ (y >> 1u32) ^ 0u32 == far ^ (y >> 1u32)) by (bit_vector);
    assert(far ^ (y >> 1u32) ^ 0x9908b0dfu32 == far ^ ((y >> 1u32) ^ 0x9908b0dfu32)) by (bit_vector);
}

/// Twisting the words `j..624` of a block whose words `0..j` are already
/// words `base + 624 + ..` of the reference sequence and whose words `j..624`
/// are words `base + ..` gives words `base + 624 .. base + 1248`.
proof fn lemma_twist_from_matches_sequence(seed: u32, s: Seq<u32>, j: nat, base: nat)
    requires
        s.len() == MERSENNE_STATE_N,
        j <= MERSENNE_STATE_N,
        forall|t: int| 0 <= t < j ==> #[trigger] s[t] == mt_sequence(seed, (base + 624 + t) as nat),
        forall|t: int| j <= t < 624 ==> #[trigger] s[t] == mt_sequence(seed, (base + t) as nat),
    ensures
        twist_from(s, j).len() == MERSENNE_STATE_N,
        forall|t: int| 0 <= t < 624 ==> #[trigger] twist_from(s, j)[t] == mt_sequence(seed, (base + 624 + t) as nat),
    decreases MERSENNE_STATE_N - j,
{
    if j < MERSENNE_STATE_N {
        let k = (base + 624 + j) as nat;
        let succ: int = if j + 1 < 624 { j + 1 as int } else { 0 };
        let far: int = if j + 397 < 624 { j + 397 as int } else { j + 397 - 624 };
        assert(s[j as int] == mt_sequence(seed, (k - 624) as nat));
        assert(s[succ] == mt_sequence(seed, (k - 623) as nat));
        assert(s[far] == mt_sequence(seed, (k - 227) as nat));
        lemma_twist_word_bits(s[j as int], s[succ], s[far]);
        assert(twist_word(s, j as int) == mt_sequence(seed, k));
        let s2 = s.update(j as int, twist_word(s, j as int));
        lemma_twist_from_matches_sequence(seed, s2, j + 1, base);
    }
}

proof fn lemma_block_is_sequence(seed: u32, i: nat)
    ensures
        block(seed, i).len() == MERSENNE_STATE_N,
        forall|t: int| 0 <= t < 624 ==> #[trigger] block(seed, i)[t] == mt_sequence(seed, (624 * (i + 1) + t) as nat),
    decreases i,
{
    if i == 0 {
        lemma_twist_from_matches_sequence(seed, seeded_words(seed), 0, 0);
    } else {
        lemma_block_is_sequence(seed, (i - 1) as nat);
        lemma_twist_from_matches_sequence(seed, block(seed, (i - 1) as nat), 0, (624 * i) as nat);
    }
}

/// After seeding with `seed`, draw `k` returns the tempering of word
/// `k + 624` of the reference MT19937 sequence for `seed`: the generator
/// follows the reference recurrence (`x[k] = x[k - 227] ^ ...`, that is word
/// `(j + 397) mod 624` of the previous block), across all blocks.
pub proof fn lemma_stream_matches_reference(seed: u32, k: nat)
    ensures
        draw(draws(seeded(seed), k)).1 == temper(mt_sequence(seed, k + 624)),
{
    lemma_seeded_stream(seed, k);
    let q = k / 624;
    let r = k % 624;
    vstd::arithmetic::div_mod::lemma_fundamental_div_mod(k as int, 624);
    lemma_block_is_sequence(seed, q);
    assert(block(seed, q)[r as int] == mt_sequence(seed, (624 * (q + 1) + r) as nat));
    assert(624 * (q + 1) + r == k + 624);
}

} // verus!
