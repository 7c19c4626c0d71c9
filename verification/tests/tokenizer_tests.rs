use gpt2::tokenizer::{is_printable_piece, Tokenizer, TokenizerError};

fn tokenizer_bytes(version: u32, vocab: u32, eot: u32, tokens: &[&str]) -> Vec<u8> {
    let mut header = vec![0u32; 256];
    header[0] = 20240328;
    header[1] = version;
    header[2] = vocab;
    header[3] = eot;
    let mut bytes = Vec::new();
    for w in header {
        bytes.extend_from_slice(&w.to_le_bytes());
    }
    for tok in tokens {
        bytes.push(tok.len() as u8);
        bytes.extend_from_slice(tok.as_bytes());
    }
    bytes
}

#[test]
fn tokenizer_roundtrip() {
    let tokens: Vec<&str> = vec!["hello", " ", "world", "a", "bb", "ccc", "eot", "x"];
    let bytes = tokenizer_bytes(2, tokens.len() as u32, 7, &tokens);

    let tokenizer = Tokenizer::from_bytes(&bytes).unwrap();
    assert!(tokenizer.init_ok);
    assert_eq!(tokenizer.vocab_size, 8);
    assert_eq!(tokenizer.eot_token, 7);
    assert_eq!(tokenizer.decode(0), Some(&b"hello"[..]));
    assert_eq!(tokenizer.decode(2), Some(&b"world"[..]));
    assert_eq!(tokenizer.decode(8), None); // out of range
}

#[test]
fn tokenizer_version_one_assumes_gpt2_eot() {
    let names: Vec<String> = (0..50257).map(|i| format!("t{}", i % 100)).collect();
    let tokens: Vec<&str> = names.iter().map(|s| s.as_str()).collect();
    let bytes = tokenizer_bytes(1, 50257, 0, &tokens);
    let tokenizer = Tokenizer::from_bytes(&bytes).unwrap();
    assert_eq!(tokenizer.eot_token, 50256);
    assert_eq!(tokenizer.vocab_size, 50257);
    assert_eq!(tokenizer.decode(50256), Some(&b"t56"[..]));
}

#[test]
fn tokenizer_errors() {
    let good = tokenizer_bytes(2, 2, 1, &["a", "b"]);
    assert!(Tokenizer::from_bytes(&good).is_ok());
    assert_eq!(Tokenizer::from_bytes(&good[..1000]).err(), Some(TokenizerError::Truncated));
    let mut bad_magic = good.clone();
    bad_magic[0] = 0;
    assert_eq!(Tokenizer::from_bytes(&bad_magic).err(), Some(TokenizerError::BadMagic));
    let bad_version = tokenizer_bytes(3, 2, 1, &["a", "b"]);
    assert_eq!(Tokenizer::from_bytes(&bad_version).err(), Some(TokenizerError::BadVersion(3)));
    let bad_vocab = tokenizer_bytes(1, 2, 1, &["a", "b"]);
    assert_eq!(
        Tokenizer::from_bytes(&bad_vocab).err(),
        Some(TokenizerError::UnexpectedVocabSize(2))
    );
    let empty_token = tokenizer_bytes(2, 2, 1, &["a", ""]);
    assert_eq!(Tokenizer::from_bytes(&empty_token).err(), Some(TokenizerError::EmptyToken));
    let short_table = tokenizer_bytes(2, 3, 1, &["a", "b"]);
    assert_eq!(Tokenizer::from_bytes(&short_table).err(), Some(TokenizerError::Truncated));
    let cut_token = tokenizer_bytes(2, 2, 1, &["a", "bcd"]);
    assert_eq!(
        Tokenizer::from_bytes(&cut_token[..cut_token.len() - 1]).err(),
        Some(TokenizerError::Truncated)
    );
}

#[test]
fn uninitialized_tokenizer_decodes_nothing() {
    let tokenizer = Tokenizer::uninitialized();
    assert!(!tokenizer.init_ok);
    assert_eq!(tokenizer.vocab_size, 0);
    assert_eq!(tokenizer.decode(0), None);
}

#[test]
fn printable_pieces() {
    assert!(!is_printable_piece(b""));
    assert!(is_printable_piece(b"a"));
    assert!(is_printable_piece(b" "));
    assert!(is_printable_piece(b"\n"));
    assert!(is_printable_piece(b"\r"));
    assert!(is_printable_piece(b"\x0c"));
    assert!(!is_printable_piece(b"\x0b"));
    assert!(!is_printable_piece(b"\x07"));
    assert!(!is_printable_piece(b"\x7f"));
    assert!(!is_printable_piece(&[0xe2]));
    assert!(is_printable_piece(&[0xe2, 0x80]));
    assert!(is_printable_piece(b"\x07\x07"));
}

#[test]
fn written_tokenizer_file_parses_back() {
    let tokens: Vec<Vec<u8>> = vec![b"hello".to_vec(), b" ".to_vec(), b"world".to_vec()];
    let bytes = gpt2::tokenizer::encode_tokenizer(2, &tokens);
    assert_eq!(bytes, tokenizer_bytes(2, 3, 2, &["hello", " ", "world"]));
    let tokenizer = Tokenizer::from_bytes(&bytes).unwrap();
    assert_eq!(tokenizer.vocab_size, 3);
    assert_eq!(tokenizer.eot_token, 2);
    assert_eq!(tokenizer.token_table, tokens);
    let empty = gpt2::tokenizer::encode_tokenizer(0, &[]);
    assert_eq!(empty.len(), 1024);
    assert_eq!(Tokenizer::from_bytes(&empty).unwrap().vocab_size, 0);
}
