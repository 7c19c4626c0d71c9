use gpt2::bytes::{decode_i32s, decode_u16s, decode_u32s, read_u32_le};
use gpt2::utils::{i32_header, token_check};

#[test]
fn token_check_names_the_first_bad_token() {
    assert_eq!(token_check(&[0, 5, 9], 10), Ok(()));
    assert_eq!(token_check(&[], 10), Ok(()));
    assert_eq!(token_check(&[0, 10, -1], 10), Err((1, 10)));
    assert_eq!(token_check(&[3, -1], 10), Err((1, -1)));
}

#[test]
fn i32_header_pads_with_zeros() {
    let h = i32_header(&[20240520, 1, 100]);
    assert_eq!(h.len(), 256);
    assert_eq!(&h[..3], &[20240520, 1, 100]);
    assert!(h[3..].iter().all(|&x| x == 0));
}

#[test]
fn little_endian_decoding() {
    let bytes = [0x78u8, 0x56, 0x34, 0x12, 0xff, 0xff, 0xff, 0xff, 0x01];
    assert_eq!(read_u32_le(&bytes, 0), 0x12345678);
    assert_eq!(decode_u32s(&bytes), vec![0x12345678, 0xffffffff]);
    assert_eq!(decode_i32s(&bytes), vec![0x12345678, -1]);
    assert_eq!(decode_u16s(&bytes), vec![0x5678, 0x1234, 0xffff, 0xffff]);
}

#[test]
fn little_endian_encoding_round_trips() {
    let words = [0x12345678u32, 0, 0xffffffff];
    let bytes = gpt2::bytes::encode_u32s(&words);
    assert_eq!(&bytes[..4], &[0x78, 0x56, 0x34, 0x12]);
    assert_eq!(decode_u32s(&bytes), words.to_vec());
    let ints = [-1i32, 20240520, i32::MIN];
    let bytes = gpt2::bytes::encode_i32s(&ints);
    assert_eq!(&bytes[..4], &[0xff, 0xff, 0xff, 0xff]);
    assert_eq!(decode_i32s(&bytes), ints.to_vec());
    let halves = [0x1234u16, 7, 0xffff];
    let bytes = gpt2::bytes::encode_u16s(&halves);
    assert_eq!(bytes, vec![0x34, 0x12, 7, 0, 0xff, 0xff]);
    assert_eq!(decode_u16s(&bytes), halves.to_vec());
}

#[test]
fn header_bytes_read_back_as_values_then_zeros() {
    let bytes = gpt2::utils::i32_header_bytes(&[20240520, 1, 100]);
    assert_eq!(bytes.len(), 1024);
    let words = decode_i32s(&bytes);
    assert_eq!(words, i32_header(&[20240520, 1, 100]));
    assert_eq!(&words[..3], &[20240520, 1, 100]);
    assert!(words[3..].iter().all(|&x| x == 0));
    assert_eq!(decode_i32s(&gpt2::utils::i32_header_bytes(&[])), vec![0i32; 256]);
}
