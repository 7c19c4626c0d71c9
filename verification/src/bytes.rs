//! Little-endian decoding of the binary formats (headers, token tables,
//! token shards).

use vstd::prelude::*;

verus! {

/// The `u32` stored little-endian at `b[off..off + 4]`.
pub open spec fn le_u32(b: Seq<u8>, off: int) -> u32 {
    (b[off] as int + b[off + 1] as int * 0x100 + b[off + 2] as int * 0x1_0000 + b[off + 3] as int
        * 0x100_0000) as u32
}

/// The `i32` stored little-endian (two's complement) at `b[off..off + 4]`.
pub open spec fn le_i32(b: Seq<u8>, off: int) -> i32 {
    le_u32(b, off) as i32
}

/// The `u16` stored little-endian at `b[off..off + 2]`.
pub open spec fn le_u16(b: Seq<u8>, off: int) -> u16 {
    (b[off] as int + b[off + 1] as int * 0x100) as u16
}

/// The words of `b` read as consecutive little-endian `u32`s (a trailing
/// partial word is ignored).
pub open spec fn le_u32s(b: Seq<u8>) -> Seq<u32> {
    Seq::new(b.len() / 4, |i: int| le_u32(b, 4 * i))
}

pub open spec fn le_i32s(b: Seq<u8>) -> Seq<i32> {
    Seq::new(b.len() / 4, |i: int| le_i32(b, 4 * i))
}

pub open spec fn le_u16s(b: Seq<u8>) -> Seq<u16> {
    Seq::new(b.len() / 2, |i: int| le_u16(b, 2 * i))
}

/// Reads the little-endian `u32` at `off`.
pub fn read_u32_le(bytes: &[u8], off: usize) -> (r: u32)
    requires
        off + 4 <= bytes@.len(),
    ensures
        r == le_u32(bytes@, off as int),
{
    let b0 = bytes[off] as u32;
    let b1 = bytes[off + 1] as u32;
    let b2 = bytes[off + 2] as u32;
    let b3 = bytes[off + 3] as u32;
    b0 + b1 * 0x100 + b2 * 0x1_0000 + b3 * 0x100_0000
}

/// Reads the little-endian `i32` at `off`.
pub fn read_i32_le(bytes: &[u8], off: usize) -> (r: i32)
    requires
        off + 4 <= bytes@.len(),
    ensures
        r == le_i32(bytes@, off as int),
{
    read_u32_le(bytes, off) as i32
}

/// Reads the little-endian `u16` at `off`.
pub fn read_u16_le(bytes: &[u8], off: usize) -> (r: u16)
    requires
        off + 2 <= bytes@.len(),
    ensures
        r == le_u16(bytes@, off as int),
{
    let b0 = bytes[off] as u16;
    let b1 = bytes[off + 1] as u16;
    b0 + b1 * 0x100
}

/// Decodes `bytes` as consecutive little-endian `u32`s.
pub fn decode_u32s(bytes: &[u8]) -> (r: Vec<u32>)
    ensures
        r@ == le_u32s(bytes@),
{
    let n = bytes.len() / 4;
    let mut r: Vec<u32> = Vec::new();
    let mut i: usize = 0;
    while i < n
        invariant
            bytes@.len() <= usize::MAX,
            n == bytes@.len() / 4,
            i <= n,
            r@.len() == i,
            forall|k: int| 0 <= k < i ==> #[trigger] r@[k] == le_u32(bytes@, 4 * k),
        decreases n - i,
    {
        proof {
            let len = bytes@.len() as int;
            assert(len <= usize::MAX);
            assert(4 * i + 4 <= len) by (nonlinear_arith)
                requires
                    i < n,
                    n == len / 4,
                    len >= 0,
            ;
        }
        r.push(read_u32_le(bytes, 4 * i));
        i += 1;
    }
    assert(r@ =~= le_u32s(bytes@));
    r
}

/// Decodes `bytes` as consecutive little-endian `i32`s.
pub fn decode_i32s(bytes: &[u8]) -> (r: Vec<i32>)
    ensures
        r@ == le_i32s(bytes@),
{
    let n = bytes.len() / 4;
    let mut r: Vec<i32> = Vec::new();
    let mut i: usize = 0;
    while i < n
        invariant
            bytes@.len() <= usize::MAX,
            n == bytes@.len() / 4,
            i <= n,
            r@.len() == i,
            forall|k: int| 0 <= k < i ==> #[trigger] r@[k] == le_i32(bytes@, 4 * k),
        decreases n - i,
    {
        proof {
            let len = bytes@.len() as int;
            assert(len <= usize::MAX);
            assert(4 * i + 4 <= len) by (nonlinear_arith)
                requires
                    i < n,
                    n == len / 4,
                    len >= 0,
            ;
        }
        r.push(read_i32_le(bytes, 4 * i));
        i += 1;
    }
    assert(r@ =~= le_i32s(bytes@));
    r
}

/// Decodes `bytes` as consecutive little-endian `u16`s.
pub fn decode_u16s(bytes: &[u8]) -> (r: Vec<u16>)
    ensures
        r@ == le_u16s(bytes@),
{
    let n = bytes.len() / 2;
    let mut r: Vec<u16> = Vec::new();
    let mut i: usize = 0;
    while i < n
        invariant
            bytes@.len() <= usize::MAX,
            n == bytes@.len() / 2,
            i <= n,
            r@.len() == i,
            forall|k: int| 0 <= k < i ==> #[trigger] r@[k] == le_u16(bytes@, 2 * k),
        decreases n - i,
    {
        proof {
            let len = bytes@.len() as int;
            assert(len <= usize::MAX);
            assert(2 * i + 2 <= len) by (nonlinear_arith)
                requires
                    i < n,
                    n == len / 2,
                    len >= 0,
            ;
        }
        r.push(read_u16_le(bytes, 2 * i));
        i += 1;
    }
    assert(r@ =~= le_u16s(bytes@));
    r
}

// ----------------------------------------------------------------------------
// encoding

/// The four bytes of `x`, least significant first.
pub open spec fn u32_le_bytes(x: u32) -> Seq<u8> {
    seq![
        #[verifier::truncate] ((x & 0xffu32) as u8),
        #[verifier::truncate] (((x >> 8u32) & 0xffu32) as u8),
        #[verifier::truncate] (((x >> 16u32) & 0xffu32) as u8),
        #[verifier::truncate] (((x >> 24u32) & 0xffu32) as u8),
    ]
}

/// The two bytes of `x`, least significant first.
pub open spec fn u16_le_bytes(x: u16) -> Seq<u8> {
    seq![
        #[verifier::truncate] ((x & 0xffu16) as u8),
        #[verifier::truncate] (((x >> 8u16) & 0xffu16) as u8),
    ]
}

/// `v` written as consecutive little-endian `u32`s.
pub open spec fn encode_u32s_spec(v: Seq<u32>) -> Seq<u8> {
    Seq::new(4 * v.len(), |i: int| u32_le_bytes(v[i / 4])[i % 4])
}

/// `v` written as consecutive little-endian (two's complement) `i32`s.
pub open spec fn encode_i32s_spec(v: Seq<i32>) -> Seq<u8> {
    encode_u32s_spec(v.map_values(|x: i32| x as u32))
}

/// `v` written as consecutive little-endian `u16`s.
pub open spec fn encode_u16s_spec(v: Seq<u16>) -> Seq<u8> {
    Seq::new(2 * v.len(), |i: int| u16_le_bytes(v[i / 2])[i % 2])
}

proof fn lemma_u32_bytes_value(x: u32)
    ensures
        le_u32(u32_le_bytes(x), 0) == x,
{
    assert(((x & 0xffu32) as u8) as u32 == x & 0xffu32) by (bit_vector);
    assert((((x >> 8u32) & 0xffu32) as u8) as u32 == (x >> 8u32) & 0xffu32) by (bit_vector);
    assert((((x >> 16u32) & 0xffu32) as u8) as u32 == (x >> 16u32) & 0xffu32) by (bit_vector);
    assert((((x >> 24u32) & 0xffu32) as u8) as u32 == (x >> 24u32) & 0xffu32) by (bit_vector);
    assert((x & 0xffu32) + ((x >> 8u32) & 0xffu32) * 0x100 + ((x >> 16u32) & 0xffu32) * 0x1_0000
        + ((x >> 24u32) & 0xffu32) * 0x100_0000 == x) by (bit_vector);
}

proof fn lemma_u16_bytes_value(x: u16)
    ensures
        le_u16(u16_le_bytes(x), 0) == x,
{
    assert(((x & 0xffu16) as u8) as u16 == x & 0xffu16) by (bit_vector);
    assert((((x >> 8u16) & 0xffu16) as u8) as u16 == (x >> 8u16) & 0xffu16) by (bit_vector);
    assert((x & 0xffu16) + ((x >> 8u16) & 0xffu16) * 0x100 == x) by (bit_vector);
}

/// Reading word `k` of an encoding (followed by anything) gives `v[k]` back.
pub proof fn lemma_le_u32_of_encoding(v: Seq<u32>, rest: Seq<u8>, k: int)
    requires
        0 <= k < v.len(),
    ensures
        le_u32(encode_u32s_spec(v) + rest, 4 * k) == v[k],
{
    let e = encode_u32s_spec(v);
    let b = e + rest;
    assert forall|j: int| 0 <= j < 4 implies #[trigger] b[4 * k + j] == u32_le_bytes(v[k])[j] by {
        vstd::arithmetic::div_mod::lemma_fundamental_div_mod_converse(4 * k + j, 4, k, j);
    }
    lemma_u32_bytes_value(v[k]);
    assert(b[4 * k] == u32_le_bytes(v[k])[0]);
    assert(b[4 * k + 1] == u32_le_bytes(v[k])[1]);
    assert(b[4 * k + 2] == u32_le_bytes(v[k])[2]);
    assert(b[4 * k + 3] == u32_le_bytes(v[k])[3]);
}

/// Decoding the encoding of `u32` values gives them back.
pub proof fn lemma_decode_encode_u32s(v: Seq<u32>)
    ensures
        le_u32s(encode_u32s_spec(v)) == v,
{
    let e = encode_u32s_spec(v);
    assert(e.len() / 4 == v.len()) by {
        vstd::arithmetic::div_mod::lemma_fundamental_div_mod_converse(4 * v.len() as int, 4, v.len() as int, 0);
    }
    assert forall|k: int| 0 <= k < v.len() implies #[trigger] le_u32s(e)[k] == v[k] by {
        lemma_le_u32_of_encoding(v, Seq::empty(), k);
        assert(e + Seq::<u8>::empty() =~= e);
    }
    assert(le_u32s(e) =~= v);
}

/// Decoding the encoding of `i32` values gives them back.
pub proof fn lemma_decode_encode_i32s(v: Seq<i32>)
    ensures
        le_i32s(encode_i32s_spec(v)) == v,
{
    let u = v.map_values(|x: i32| x as u32);
    lemma_decode_encode_u32s(u);
    let e = encode_i32s_spec(v);
    assert forall|k: int| 0 <= k < v.len() implies #[trigger] le_i32s(e)[k] == v[k] by {
        assert(le_u32s(e)[k] == u[k]);
        let x = v[k];
        assert((x as u32) as i32 == x) by (bit_vector);
    }
    assert(le_i32s(e) =~= v);
}

/// Decoding the encoding of `u16` values gives them back.
pub proof fn lemma_decode_encode_u16s(v: Seq<u16>)
    ensures
        le_u16s(encode_u16s_spec(v)) == v,
{
    let e = encode_u16s_spec(v);
    assert(e.len() / 2 == v.len()) by {
        vstd::arithmetic::div_mod::lemma_fundamental_div_mod_converse(2 * v.len() as int, 2, v.len() as int, 0);
    }
    assert forall|k: int| 0 <= k < v.len() implies #[trigger] le_u16s(e)[k] == v[k] by {
        assert forall|j: int| 0 <= j < 2 implies #[trigger] e[2 * k + j] == u16_le_bytes(v[k])[j] by {
            vstd::arithmetic::div_mod::lemma_fundamental_div_mod_converse(2 * k + j, 2, k, j);
        }
        assert(e[2 * k] == u16_le_bytes(v[k])[0]);
        assert(e[2 * k + 1] == u16_le_bytes(v[k])[1]);
        lemma_u16_bytes_value(v[k]);
    }
    assert(le_u16s(e) =~= v);
}

/// Writes `vals` as consecutive little-endian u32s.
pub fn encode_u32s(vals: &[u32]) -> (r: Vec<u8>)
    requires
        4 * vals@.len() <= usize::MAX,
    ensures
        r@ == encode_u32s_spec(vals@),
{
    let n = vals.len();
    let mut r: Vec<u8> = Vec::new();
    let mut i: usize = 0;
    while i < n
        invariant
            n == vals@.len(),
            4 * n <= usize::MAX,
            i <= n,
            r@.len() == 4 * i,
            forall|j: int| 0 <= j < 4 * i ==> #[trigger] r@[j] == u32_le_bytes(vals@[j / 4])[j % 4],
        decreases n - i,
    {
        let ghost old_r = r@;
        let x = vals[i];
        r.push((x & 0xffu32) as u8);
        r.push(((x >> 8u32) & 0xffu32) as u8);
        r.push(((x >> 16u32) & 0xffu32) as u8);
        r.push(((x >> 24u32) & 0xffu32) as u8);
        proof {
            assert forall|j: int| 0 <= j < 4 * (i + 1) implies #[trigger] r@[j] == u32_le_bytes(vals@[j / 4])[j % 4] by {
                if j < 4 * i {
                    assert(r@[j] == old_r[j]);
                } else {
                    vstd::arithmetic::div_mod::lemma_fundamental_div_mod_converse(j, 4, i as int, j - 4 * i);
                }
            }
        }
        i += 1;
    }
    assert(r@ =~= encode_u32s_spec(vals@));
    r
}

/// Writes `vals` as consecutive little-endian i32s.
pub fn encode_i32s(vals: &[i32]) -> (r: Vec<u8>)
    requires
        4 * vals@.len() <= usize::MAX,
    ensures
        r@ == encode_i32s_spec(vals@),
{
    let n = vals.len();
    let mut r: Vec<u8> = Vec::new();
    let mut i: usize = 0;
    while i < n
        invariant
            n == vals@.len(),
            4 * n <= usize::MAX,
            i <= n,
            r@.len() == 4 * i,
            forall|j: int| 0 <= j < 4 * i ==> #[trigger] r@[j] == u32_le_bytes((vals@[j / 4] as u32))[j % 4],
        decreases n - i,
    {
        let ghost old_r = r@;
        let x = vals[i] as u32;
        r.push((x & 0xffu32) as u8);
        r.push(((x >> 8u32) & 0xffu32) as u8);
        r.push(((x >> 16u32) & 0xffu32) as u8);
        r.push(((x >> 24u32) & 0xffu32) as u8);
        proof {
            assert forall|j: int| 0 <= j < 4 * (i + 1) implies #[trigger] r@[j] == u32_le_bytes((vals@[j / 4] as u32))[j % 4] by {
                if j < 4 * i {
                    assert(r@[j] == old_r[j]);
                } else {
                    vstd::arithmetic::div_mod::lemma_fundamental_div_mod_converse(j, 4, i as int, j - 4 * i);
                }
            }
        }
        i += 1;
    }
    assert(r@ =~= encode_i32s_spec(vals@));
    r
}

/// Writes `vals` as consecutive little-endian u16s.
pub fn encode_u16s(vals: &[u16]) -> (r: Vec<u8>)
    requires
        2 * vals@.len() <= usize::MAX,
    ensures
        r@ == encode_u16s_spec(vals@),
{
    let n = vals.len();
    let mut r: Vec<u8> = Vec::new();
    let mut i: usize = 0;
    while i < n
        invariant
            n == vals@.len(),
            2 * n <= usize::MAX,
            i <= n,
            r@.len() == 2 * i,
            forall|j: int| 0 <= j < 2 * i ==> #[trigger] r@[j] == u16_le_bytes(vals@[j / 2])[j % 2],
        decreases n - i,
    {
        let ghost old_r = r@;
        let x = vals[i];
        r.push((x & 0xffu16) as u8);
        r.push(((x >> 8u16) & 0xffu16) as u8);
        proof {
            assert forall|j: int| 0 <= j < 2 * (i + 1) implies #[trigger] r@[j] == u16_le_bytes(vals@[j / 2])[j % 2] by {
                if j < 2 * i {
                    assert(r@[j] == old_r[j]);
                } else {
                    vstd::arithmetic::div_mod::lemma_fundamental_div_mod_converse(j, 2, i as int, j - 2 * i);
                }
            }
        }
        i += 1;
    }
    assert(r@ =~= encode_u16s_spec(vals@));
    r
}

} // verus!
