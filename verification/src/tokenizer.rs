//! The GPT-2 tokenizer. Only decoding is supported: token ids to byte strings.
//!
//! File format: a header of 256 little-endian `u32`s (magic 20240328,
//! version, vocabulary size, and for version 2 the end-of-text token id),
//! then for each token one length byte (at least 1) and that many bytes.

use vstd::prelude::*;
use crate::bytes::{encode_u32s, encode_u32s_spec, le_u32, lemma_le_u32_of_encoding, read_u32_le};

verus! {

pub const TOKENIZER_MAGIC: u32 = 20240328;

/// Number of `u32` words in the tokenizer file header.
pub const TOKENIZER_HEADER_WORDS: usize = 256;

/// Version 1 files carry no end-of-text id: they are GPT-2 files with this
/// vocabulary size and this end-of-text token.
pub const GPT2_VOCAB_SIZE: u32 = 50257;

pub const GPT2_EOT: i32 = 50256;

/// Why a tokenizer file was refused.
#[derive(Debug, PartialEq, Eq, Structural)]
pub enum TokenizerError {
    /// the file ends inside the header or inside a token
    Truncated,
    /// the header does not start with `TOKENIZER_MAGIC`
    BadMagic,
    /// the version is neither 1 nor 2
    BadVersion(u32),
    /// a version 1 file whose vocabulary size is not `GPT2_VOCAB_SIZE`
    UnexpectedVocabSize(u32),
    /// a token of length zero
    EmptyToken,
}

pub struct Tokenizer {
    pub vocab_size: u32,
    pub token_table: Vec<Vec<u8>>,
    pub init_ok: bool,
    /// <|endoftext|> token id
    pub eot_token: i32,
}

/// The token table as byte sequences.
pub open spec fn table_view(t: Seq<Vec<u8>>) -> Seq<Seq<u8>> {
    t.map_values(|v: Vec<u8>| v@)
}

/// The `count` length-prefixed tokens that start at `off`.
pub open spec fn parse_table(b: Seq<u8>, off: int, count: nat) -> Result<Seq<Seq<u8>>, TokenizerError>
    decreases count,
{
    if count == 0 {
        Ok(Seq::empty())
    } else if off >= b.len() {
        Err(TokenizerError::Truncated)
    } else if b[off] == 0 {
        Err(TokenizerError::EmptyToken)
    } else if off + 1 + b[off] > b.len() {
        Err(TokenizerError::Truncated)
    } else {
        match parse_table(b, off + 1 + b[off], (count - 1) as nat) {
            Ok(rest) => Ok(seq![b.subrange(off + 1, off + 1 + b[off])] + rest),
            Err(e) => Err(e),
        }
    }
}

/// A parse result with `pre` put in front of the tokens.
pub open spec fn prepend(pre: Seq<Seq<u8>>, r: Result<Seq<Seq<u8>>, TokenizerError>) -> Result<
    Seq<Seq<u8>>,
    TokenizerError,
> {
    match r {
        Ok(rest) => Ok(pre + rest),
        Err(e) => Err(e),
    }
}

/// What a tokenizer file holds: (vocabulary size, end-of-text id, tokens),
/// or why it is refused.
pub open spec fn parse_tokenizer(b: Seq<u8>) -> Result<(u32, i32, Seq<Seq<u8>>), TokenizerError> {
    if b.len() < 4 * TOKENIZER_HEADER_WORDS {
        Err(TokenizerError::Truncated)
    } else if le_u32(b, 0) != TOKENIZER_MAGIC {
        Err(TokenizerError::BadMagic)
    } else {
        let version = le_u32(b, 4);
        let vocab = le_u32(b, 8);
        if version == 1 && vocab != GPT2_VOCAB_SIZE {
            Err(TokenizerError::UnexpectedVocabSize(vocab))
        } else if version != 1 && version != 2 {
            Err(TokenizerError::BadVersion(version))
        } else {
            let eot: i32 = if version == 1 { GPT2_EOT } else { le_u32(b, 12) as i32 };
            match parse_table(b, 4 * TOKENIZER_HEADER_WORDS, vocab as nat) {
                Ok(t) => Ok((vocab, eot, t)),
                Err(e) => Err(e),
            }
        }
    }
}

/// The decision of `safe_printf`: a piece is printed unless it is empty or a
/// single byte that is neither an ASCII graphic character (0x21..=0x7E) nor
/// ASCII whitespace (space, tab, line feed, form feed, carriage return).
pub open spec fn printable_piece(piece: Seq<u8>) -> bool {
    piece.len() > 0 && (piece.len() != 1 || (0x21 <= piece[0] <= 0x7e || piece[0] == 0x20
        || piece[0] == 0x09 || piece[0] == 0x0a || piece[0] == 0x0c || piece[0] == 0x0d))
}

/// Whether `safe_printf` writes `piece` out: raw token bytes may be control
/// codes, which are skipped.
pub fn is_printable_piece(piece: &[u8]) -> (r: bool)
    ensures
        r == printable_piece(piece@),
{
    if piece.len() == 0 {
        return false;
    }
    if piece.len() == 1 {
        let byte_val = piece[0];
        let graphic = 0x21 <= byte_val && byte_val <= 0x7e;
        let whitespace = byte_val == 0x20 || byte_val == 0x09 || byte_val == 0x0a || byte_val
            == 0x0c || byte_val == 0x0d;
        return graphic || whitespace;
    }
    true
}

impl Tokenizer {
    /// Consistency of the fields: an initialized tokenizer holds one entry per
    /// vocabulary id.
    pub open spec fn wf(&self) -> bool {
        self.init_ok ==> self.token_table@.len() == self.vocab_size
    }

    /// The tokenizer used when no tokenizer file could be opened: it decodes
    /// nothing.
    pub fn uninitialized() -> (t: Tokenizer)
        ensures
            t.vocab_size == 0,
            t.token_table@.len() == 0,
            !t.init_ok,
            t.eot_token == 0,
            t.wf(),
    {
        Tokenizer { vocab_size: 0, token_table: Vec::new(), init_ok: false, eot_token: 0 }
    }

    /// Reads a tokenizer from the bytes of a tokenizer file.
    pub fn from_bytes(bytes: &[u8]) -> (r: Result<Tokenizer, TokenizerError>)
        ensures
            match (r, parse_tokenizer(bytes@)) {
                (Ok(t), Ok((vocab, eot, table))) => {
                    &&& t.init_ok
                    &&& t.vocab_size == vocab
                    &&& t.eot_token == eot
                    &&& table_view(t.token_table@) == table
                    &&& t.wf()
                },
                (Err(e1), Err(e2)) => e1 == e2,
                _ => false,
            },
    {
        let len = bytes.len();
        let header_bytes: usize = 4 * TOKENIZER_HEADER_WORDS;
        if len < header_bytes {
            return Err(TokenizerError::Truncated);
        }
        if read_u32_le(bytes, 0) != TOKENIZER_MAGIC {
            return Err(TokenizerError::BadMagic);
        }
        let version = read_u32_le(bytes, 4);
        let vocab_size = read_u32_le(bytes, 8);
        let eot_token: i32;
        if version == 1 {
            // version 1 didn't include the EOT token id
            // so we assume it is 50256, the EOT in GPT-2
            if vocab_size != GPT2_VOCAB_SIZE {
                return Err(TokenizerError::UnexpectedVocabSize(vocab_size));
            }
            eot_token = GPT2_EOT;
        } else if version == 2 {
            eot_token = #[verifier::truncate] (read_u32_le(bytes, 12) as i32);
        } else {
            return Err(TokenizerError::BadVersion(version));
        }
        // read in all the tokens
        let mut token_table: Vec<Vec<u8>> = Vec::new();
        let mut off: usize = header_bytes;
        let mut i: u32 = 0;
        proof {
            assert(table_view(token_table@) =~= Seq::<Seq<u8>>::empty());
            assert(Seq::<Seq<u8>>::empty() + parse_table(bytes@, off as int, vocab_size as nat)->Ok_0
                =~= parse_table(bytes@, off as int, vocab_size as nat)->Ok_0);
        }
        while i < vocab_size
            invariant
                len == bytes@.len(),
                header_bytes <= off <= len,
                i <= vocab_size,
                token_table@.len() == i,
                parse_tokenizer(bytes@) == match parse_table(bytes@, header_bytes as int, vocab_size as nat) {
                    Ok(t) => Ok((vocab_size, eot_token, t)),
                    Err(e) => Err(e),
                },
                parse_table(bytes@, header_bytes as int, vocab_size as nat) == prepend(
                    table_view(token_table@),
                    parse_table(bytes@, off as int, (vocab_size - i) as nat),
                ),
            decreases vocab_size - i,
        {
            let ghost cnt = (vocab_size - i) as nat;
            if off >= len {
                return Err(TokenizerError::Truncated);
            }
            let length = bytes[off] as usize;
            if length == 0 {
                return Err(TokenizerError::EmptyToken);
            }
            if length > len - off - 1 {
                return Err(TokenizerError::Truncated);
            }
            let piece = vstd::slice::slice_to_vec(vstd::slice::slice_subrange(bytes, off + 1, off + 1 + length));
            proof {
                let ghost b = bytes@;
                let ghost p = b.subrange(off + 1, off + 1 + length);
                let ghost old_view = table_view(token_table@);
                assert(table_view(token_table@.push(piece)) =~= old_view.push(p));
                match parse_table(b, off + 1 + length, (cnt - 1) as nat) {
                    Ok(rest) => {
                        assert(old_view + (seq![p] + rest) =~= old_view.push(p) + rest);
                    },
                    Err(e) => {},
                }
            }
            token_table.push(piece);
            off = off + 1 + length;
            i += 1;
        }
        proof {
            assert(table_view(token_table@) + Seq::<Seq<u8>>::empty() =~= table_view(token_table@));
        }
        Ok(Tokenizer { vocab_size, token_table, init_ok: true, eot_token })
    }

    /// The bytes of token `token_id`; `None` when the tokenizer is not
    /// initialized or the id is out of range.
    pub fn decode(&self, token_id: u32) -> (r: Option<&[u8]>)
        requires
            self.wf(),
        ensures
            match r {
                Some(s) => self.init_ok && token_id < self.vocab_size && s@ == self.token_table@[token_id as int]@,
                None => !self.init_ok || token_id >= self.vocab_size,
            },
    {
        if !self.init_ok {
            return None;
        }
        if token_id < self.vocab_size {
            Some(self.token_table[token_id as usize].as_slice())
        } else {
            None
        }
    }
}

// ----------------------------------------------------------------------------
// writing a tokenizer file

/// The token entries of a tokenizer file: for each token its length byte,
/// then its bytes.
pub open spec fn token_entries(ts: Seq<Seq<u8>>) -> Seq<u8>
    decreases ts.len(),
{
    if ts.len() == 0 {
        Seq::empty()
    } else {
        seq![ts[0].len() as u8] + ts[0] + token_entries(ts.drop_first())
    }
}

/// Every token can be written: it has between 1 and 255 bytes.
pub open spec fn tokens_encodable(ts: Seq<Seq<u8>>) -> bool {
    forall|i: int| 0 <= i < ts.len() ==> 1 <= #[trigger] ts[i].len() <= 255
}

/// The header words of a version 2 tokenizer file.
pub open spec fn tokenizer_header_words(vocab_size: u32, eot_token: u32) -> Seq<u32> {
    Seq::new(
        TOKENIZER_HEADER_WORDS as nat,
        |k: int|
            if k == 0 {
                TOKENIZER_MAGIC
            } else if k == 1 {
                2u32
            } else if k == 2 {
                vocab_size
            } else if k == 3 {
                eot_token
            } else {
                0u32
            },
    )
}

/// A version 2 tokenizer file for the tokens `ts` with end-of-text id
/// `eot_token`.
pub open spec fn tokenizer_file(eot_token: u32, ts: Seq<Seq<u8>>) -> Seq<u8> {
    encode_u32s_spec(tokenizer_header_words(ts.len() as u32, eot_token)) + token_entries(ts)
}

proof fn lemma_token_entries_push(ts: Seq<Seq<u8>>, t: Seq<u8>)
    ensures
        token_entries(ts.push(t)) == token_entries(ts) + seq![t.len() as u8] + t,
    decreases ts.len(),
{
    if ts.len() == 0 {
        assert(ts.push(t).drop_first() =~= Seq::<Seq<u8>>::empty());
        assert(ts.push(t)[0] == t);
        assert(token_entries(ts.push(t).drop_first()) =~= Seq::<u8>::empty());
        assert(token_entries(ts) =~= Seq::<u8>::empty());
        assert(token_entries(ts.push(t)) =~= token_entries(ts) + seq![t.len() as u8] + t);
    } else {
        assert(ts.push(t).drop_first() =~= ts.drop_first().push(t));
        assert(ts.push(t)[0] == ts[0]);
        lemma_token_entries_push(ts.drop_first(), t);
        assert(token_entries(ts.push(t)) =~= token_entries(ts) + seq![t.len() as u8] + t);
    }
}

proof fn lemma_token_entries_len(ts: Seq<Seq<u8>>)
    requires
        tokens_encodable(ts),
    ensures
        token_entries(ts).len() <= 256 * ts.len(),
    decreases ts.len(),
{
    if ts.len() > 0 {
        lemma_token_entries_len(ts.drop_first());
    }
}

/// The entries after any prefix parse back into the tokens.
proof fn lemma_parse_token_entries(p: Seq<u8>, ts: Seq<Seq<u8>>)
    requires
        tokens_encodable(ts),
    ensures
        parse_table(p + token_entries(ts), p.len() as int, ts.len()) == Ok::<Seq<Seq<u8>>, TokenizerError>(ts),
    decreases ts.len(),
{
    if ts.len() == 0 {
        assert(ts =~= Seq::<Seq<u8>>::empty());
    } else {
        let t0 = ts[0];
        let rest = ts.drop_first();
        let l = t0.len();
        let b = p + token_entries(ts);
        let p2 = p + seq![l as u8] + t0;
        assert(b =~= p2 + token_entries(rest));
        assert(b[p.len() as int] == l as u8);
        assert(b.subrange(p.len() + 1 as int, p.len() + 1 + l as int) =~= t0);
        lemma_parse_token_entries(p2, rest);
        assert(seq![t0] + rest =~= ts);
    }
}

/// Parsing a written tokenizer file gives back its vocabulary size,
/// end-of-text id and tokens.
pub proof fn lemma_tokenizer_file_round_trip(eot_token: u32, ts: Seq<Seq<u8>>)
    requires
        tokens_encodable(ts),
        ts.len() <= u32::MAX,
    ensures
        parse_tokenizer(tokenizer_file(eot_token, ts)) == Ok::<(u32, i32, Seq<Seq<u8>>), TokenizerError>(
            (ts.len() as u32, eot_token as i32, ts),
        ),
{
    let hw = tokenizer_header_words(ts.len() as u32, eot_token);
    let h = encode_u32s_spec(hw);
    let e = token_entries(ts);
    lemma_le_u32_of_encoding(hw, e, 0);
    lemma_le_u32_of_encoding(hw, e, 1);
    lemma_le_u32_of_encoding(hw, e, 2);
    lemma_le_u32_of_encoding(hw, e, 3);
    lemma_parse_token_entries(h, ts);
}

/// Writes a version 2 tokenizer file: the header (magic, version 2,
/// vocabulary size, end-of-text id), then each token as its length byte and
/// its bytes.
pub fn encode_tokenizer(eot_token: u32, tokens: &[Vec<u8>]) -> (bytes: Vec<u8>)
    requires
        tokens@.len() <= u32::MAX,
        tokens_encodable(table_view(tokens@)),
        4 * TOKENIZER_HEADER_WORDS + 256 * tokens@.len() <= usize::MAX,
    ensures
        bytes@ == tokenizer_file(eot_token, table_view(tokens@)),
        parse_tokenizer(bytes@) == Ok::<(u32, i32, Seq<Seq<u8>>), TokenizerError>(
            (tokens@.len() as u32, eot_token as i32, table_view(tokens@)),
        ),
{
    let n = tokens.len();
    let mut header: Vec<u32> = vec![0u32; TOKENIZER_HEADER_WORDS];
    header.set(0, TOKENIZER_MAGIC);
    header.set(1, 2);  // version 2 (includes the EOT token id)
    header.set(2, n as u32);
    header.set(3, eot_token);
    assert(header@ =~= tokenizer_header_words(n as u32, eot_token));
    let mut bytes = encode_u32s(header.as_slice());
    let ghost tv = table_view(tokens@);
    let mut i: usize = 0;
    proof {
        assert(tv.take(0) =~= Seq::<Seq<u8>>::empty());
        assert(bytes@ + token_entries(tv.take(0)) =~= bytes@);
    }
    while i < n
        invariant
            n == tokens@.len(),
            tv == table_view(tokens@),
            tokens_encodable(tv),
            4 * TOKENIZER_HEADER_WORDS + 256 * n <= usize::MAX,
            i <= n,
            bytes@ == encode_u32s_spec(tokenizer_header_words(n as u32, eot_token)) + token_entries(tv.take(i as int)),
        decreases n - i,
    {
        let tok = &tokens[i];
        let len = tok.len();
        proof {
            assert(tv[i as int] == tok@);
            lemma_token_entries_len(tv.take(i as int));
            assert(token_entries(tv.take(i as int)).len() <= 256 * i) by {
                assert(tv.take(i as int).len() == i);
            }
        }
        let ghost before = bytes@;
        bytes.push(len as u8);
        let mut k: usize = 0;
        while k < len
            invariant
                len == tok@.len(),
                len <= 255,
                k <= len,
                bytes@ == before + seq![len as u8] + tok@.take(k as int),
                before.len() <= 4 * TOKENIZER_HEADER_WORDS + 256 * i,
                4 * TOKENIZER_HEADER_WORDS + 256 * n <= usize::MAX,
                i < n,
            decreases len - k,
        {
            bytes.push(tok[k]);
            k += 1;
            assert(bytes@ =~= before + seq![len as u8] + tok@.take(k as int));
        }
        proof {
            assert(tok@.take(len as int) =~= tok@);
            assert(tv.take(i + 1) =~= tv.take(i as int).push(tv[i as int]));
            lemma_token_entries_push(tv.take(i as int), tv[i as int]);
            assert(bytes@ =~= encode_u32s_spec(tokenizer_header_words(n as u32, eot_token))
                + token_entries(tv.take(i + 1)));
        }
        i += 1;
    }
    proof {
        assert(tv.take(n as int) =~= tv);
        lemma_tokenizer_file_round_trip(eot_token, tv);
    }
    bytes
}

} // verus!
