use luaucx::{
    decrypt_bytecode_into, encrypt_bytecode_into, encrypt_with_nonce, CodecError, ErrorKind,
    HEADER_LEN, NONCE_LEN,
};

const ZERO_KEY: [u8; 32] = [0; 32];
const ZERO_NONCE: [u8; NONCE_LEN] = [0; NONCE_LEN];

/// key = 32 zero bytes, key id 7, plaintext "hello", associated data "v1",
/// nonce = 24 zero bytes.
const HELLO_CONTAINER: [u8; 67] = [
    b'L', b'U', b'A', b'U', b'B', b'Y', b'T', b'X', // magic
    0x01, // version
    0x01, // cipher id
    0x07, 0x00, // key id
    0x02, 0x00, 0x00, 0x00, // ad length
    0x05, 0x00, 0x00, 0x00, // ciphertext length
    0, 0, 0, 0, 0, 0, 0, 0, 0, 0, 0, 0, 0, 0, 0, 0, 0, 0, 0, 0, 0, 0, 0, 0, // nonce
    0xb1, 0xde, 0xba, 0x5e, 0xaf, 0xed, 0x11, 0x35, 0x93, 0xa0, 0x94, 0x4b, 0xd6, 0x79, 0x4d,
    0x76, // tag
    0x10, 0xfb, 0xfa, 0xe5, 0x8a, // ciphertext
    b'v', b'1', // associated data
];

fn encode(plaintext: &[u8], key: &[u8], key_id: u16, ad: &[u8]) -> Vec<u8> {
    let mut out = Vec::new();
    let n = encrypt_bytecode_into(plaintext, None, key, key_id, ad, &mut out).unwrap();
    assert_eq!(n, out.len());
    out
}

fn decode(
    blob: &[u8],
    key: &[u8],
    expected: Option<u16>,
) -> Result<(Vec<u8>, Vec<u8>), CodecError> {
    let mut plaintext = Vec::new();
    let mut ad = Vec::new();
    match decrypt_bytecode_into(blob, key, expected, &mut plaintext, Some(&mut ad)) {
        Ok((pt_len, ad_len)) => {
            assert_eq!(pt_len, plaintext.len());
            assert_eq!(ad_len, Some(ad.len()));
            Ok((plaintext, ad))
        }
        Err(e) => {
            assert!(plaintext.is_empty());
            assert!(ad.is_empty());
            Err(e)
        }
    }
}

fn pattern(len: usize, seed: u8) -> Vec<u8> {
    let mut v = Vec::with_capacity(len);
    let mut x = seed;
    for _ in 0..len {
        x = x.wrapping_mul(31).wrapping_add(17);
        v.push(x);
    }
    v
}

#[test]
fn scenario_encodes_to_pinned_bytes() {
    let mut out = Vec::new();
    let n = encrypt_bytecode_into(b"hello", Some(ZERO_NONCE), &ZERO_KEY, 7, b"v1", &mut out);
    assert_eq!(n, Ok(67));
    assert_eq!(out.len(), 60 + 5 + 2);
    assert_eq!(
        &out[..20],
        &[
            b'L', b'U', b'A', b'U', b'B', b'Y', b'T', b'X', 0x01, 0x01, 0x07, 0x00, 0x02, 0x00,
            0x00, 0x00, 0x05, 0x00, 0x00, 0x00
        ]
    );
    assert_eq!(out, HELLO_CONTAINER.to_vec());
}

#[test]
fn scenario_is_deterministic() {
    let mut a = Vec::new();
    let mut b = Vec::new();
    encrypt_bytecode_into(b"hello", Some(ZERO_NONCE), &ZERO_KEY, 7, b"v1", &mut a).unwrap();
    encrypt_with_nonce(b"hello", &ZERO_NONCE, &ZERO_KEY, 7, b"v1", &mut b).unwrap();
    assert_eq!(a, b);
}

#[test]
fn scenario_decodes_pinned_bytes() {
    let (plaintext, ad) = decode(&HELLO_CONTAINER, &ZERO_KEY, Some(7)).unwrap();
    assert_eq!(plaintext, b"hello".to_vec());
    assert_eq!(ad, b"v1".to_vec());
    let (plaintext, ad) = decode(&HELLO_CONTAINER, &ZERO_KEY, None).unwrap();
    assert_eq!(plaintext, b"hello".to_vec());
    assert_eq!(ad, b"v1".to_vec());
}

#[test]
fn ciphertext_is_not_the_plaintext() {
    let mut out = Vec::new();
    encrypt_with_nonce(b"hello", &ZERO_NONCE, &ZERO_KEY, 7, b"v1", &mut out).unwrap();
    assert_ne!(&out[60..65], b"hello");
    assert_eq!(&out[60..65], &[0x10, 0xfb, 0xfa, 0xe5, 0x8a]);
    assert_eq!(&out[20..44], &ZERO_NONCE);
    assert_eq!(&out[65..], b"v1");
}

#[test]
fn empty_plaintext_and_ad_seal_to_a_bare_header() {
    let mut out = Vec::new();
    let n = encrypt_with_nonce(&[], &ZERO_NONCE, &ZERO_KEY, 0, &[], &mut out);
    assert_eq!(n, Ok(HEADER_LEN));
    assert_eq!(out.len(), 60);
    assert_eq!(&out[10..20], &[0u8; 10]);
    assert_eq!(
        &out[44..60],
        &[
            0x8f, 0x3b, 0x94, 0x5a, 0x51, 0x90, 0x6d, 0xc8, 0x60, 0x0d, 0xe9, 0xf8, 0x96, 0x2d,
            0x00, 0xe6
        ]
    );
    assert_eq!(decode(&out, &ZERO_KEY, Some(0)), Ok((vec![], vec![])));
}

#[test]
fn published_vector_seals_as_published() {
    let key: Vec<u8> = (0x80u8..0xa0).collect();
    let nonce_bytes: Vec<u8> = (0x40u8..0x58).collect();
    let mut nonce = [0u8; NONCE_LEN];
    nonce.copy_from_slice(&nonce_bytes);
    let ad = [0x50, 0x51, 0x52, 0x53, 0xc0, 0xc1, 0xc2, 0xc3, 0xc4, 0xc5, 0xc6, 0xc7];
    let plaintext: &[u8] = b"Ladies and Gentlemen of the class of '99: If I could offer you only one tip for the future, sunscreen would be it.";
    let mut out = Vec::new();
    let n = encrypt_with_nonce(plaintext, &nonce, &key, 0x1234, &ad, &mut out).unwrap();
    assert_eq!(n, 60 + 114 + 12);
    assert_eq!(&out[10..12], &[0x34, 0x12]);
    assert_eq!(&out[12..16], &[12, 0, 0, 0]);
    assert_eq!(&out[16..20], &[114, 0, 0, 0]);
    assert_eq!(
        &out[44..60],
        &[
            0xc0, 0x87, 0x59, 0x24, 0xc1, 0xc7, 0x98, 0x79, 0x47, 0xde, 0xaf, 0xd8, 0x78, 0x0a,
            0xcf, 0x49
        ]
    );
    assert_eq!(
        &out[60..76],
        &[
            0xbd, 0x6d, 0x17, 0x9d, 0x3e, 0x83, 0xd4, 0x3b, 0x95, 0x76, 0x57, 0x94, 0x93, 0xc0,
            0xe9, 0x39
        ]
    );
    assert_eq!(decode(&out, &key, Some(0x1234)), Ok((plaintext.to_vec(), ad.to_vec())));
}

#[test]
fn round_trip_over_sizes_and_key_ids() {
    let sizes = [0usize, 1, 15, 16, 17, 63, 64, 65, 255, 256, 1000, 70_000];
    let key = pattern(32, 9);
    for (i, &pt_len) in sizes.iter().enumerate() {
        for &ad_len in &[0usize, 1, 16, 300] {
            let plaintext = pattern(pt_len, 1);
            let ad = pattern(ad_len, 2);
            let key_id = [0u16, 1, 255, 256, 0xabcd, u16::MAX][i % 6];
            let blob = encode(&plaintext, &key, key_id, &ad);
            assert_eq!(blob.len(), 60 + pt_len + ad_len);
            assert_eq!(decode(&blob, &key, Some(key_id)), Ok((plaintext.clone(), ad.clone())));
            assert_eq!(decode(&blob, &key, None), Ok((plaintext, ad)));
        }
    }
}

#[test]
fn round_trip_with_a_random_key() {
    let bytecode = pattern(4096, 77);
    let mut key = [0u8; 32];
    rand::fill(&mut key);
    let mut encrypted = Vec::with_capacity(bytecode.len() + HEADER_LEN);
    encrypt_bytecode_into(&bytecode, None, &key, 0, &[], &mut encrypted).unwrap();
    let mut decrypted = Vec::with_capacity(bytecode.len());
    let (read, ad_size) =
        decrypt_bytecode_into(&encrypted, &key, Some(0), &mut decrypted, None).unwrap();
    assert_eq!(bytecode, decrypted);
    assert_eq!(read, 4096);
    assert_eq!(ad_size, None);
}

#[test]
fn length_fields_are_little_endian() {
    let key = pattern(32, 3);
    let blob = encode(&pattern(0x0001_0203, 5), &key, 0x0a0b, &pattern(0x0405, 6));
    assert_eq!(&blob[10..12], &[0x0b, 0x0a]);
    assert_eq!(&blob[12..16], &[0x05, 0x04, 0x00, 0x00]);
    assert_eq!(&blob[16..20], &[0x03, 0x02, 0x01, 0x00]);
    assert_eq!(blob.len(), 60 + 0x0001_0203 + 0x0405);
}

#[test]
fn encoding_appends_to_what_the_sink_holds() {
    let mut out = vec![0xee, 0xff];
    let n = encrypt_bytecode_into(b"hello", Some(ZERO_NONCE), &ZERO_KEY, 7, b"v1", &mut out);
    assert_eq!(n, Ok(67));
    assert_eq!(&out[..2], &[0xee, 0xff]);
    assert_eq!(&out[2..], &HELLO_CONTAINER);
}

#[test]
fn decoding_appends_to_what_the_sinks_hold() {
    let mut plaintext = vec![1, 2, 3];
    let mut ad = vec![4];
    let r = decrypt_bytecode_into(&HELLO_CONTAINER, &ZERO_KEY, Some(7), &mut plaintext, Some(&mut ad));
    assert_eq!(r, Ok((5, Some(2))));
    assert_eq!(plaintext, vec![1, 2, 3, b'h', b'e', b'l', b'l', b'o']);
    assert_eq!(ad, vec![4, b'v', b'1']);
}

#[test]
fn decoding_without_an_ad_sink_reports_no_ad_length() {
    let mut plaintext = Vec::new();
    let r = decrypt_bytecode_into(&HELLO_CONTAINER, &ZERO_KEY, None, &mut plaintext, None);
    assert_eq!(r, Ok((5, None)));
    assert_eq!(plaintext, b"hello".to_vec());
}

#[test]
fn trailing_bytes_are_ignored() {
    let mut blob = HELLO_CONTAINER.to_vec();
    blob.extend_from_slice(&[9, 9, 9]);
    assert_eq!(decode(&blob, &ZERO_KEY, Some(7)), Ok((b"hello".to_vec(), b"v1".to_vec())));
}

#[test]
fn fresh_nonces_give_different_containers() {
    let key = pattern(32, 4);
    let a = encode(b"same input", &key, 5, b"ad");
    let b = encode(b"same input", &key, 5, b"ad");
    assert_ne!(a, b);
    assert_ne!(&a[20..44], &b[20..44]);
    assert_eq!(&a[..20], &b[..20]);
    assert_eq!(decode(&a, &key, Some(5)), Ok((b"same input".to_vec(), b"ad".to_vec())));
    assert_eq!(decode(&b, &key, Some(5)), Ok((b"same input".to_vec(), b"ad".to_vec())));
}

#[test]
fn given_nonces_that_differ_give_different_containers() {
    let mut other = ZERO_NONCE;
    other[23] = 1;
    let mut a = Vec::new();
    let mut b = Vec::new();
    encrypt_with_nonce(b"hello", &ZERO_NONCE, &ZERO_KEY, 7, b"v1", &mut a).unwrap();
    encrypt_with_nonce(b"hello", &other, &ZERO_KEY, 7, b"v1", &mut b).unwrap();
    assert_ne!(a, b);
    assert_eq!(&b[20..44], &other);
    assert_eq!(decode(&b, &ZERO_KEY, Some(7)), Ok((b"hello".to_vec(), b"v1".to_vec())));
}

#[test]
fn every_flipped_bit_behind_the_lengths_fails_authentication() {
    for at in 20..HELLO_CONTAINER.len() {
        for bit in 0..8 {
            let mut blob = HELLO_CONTAINER.to_vec();
            blob[at] ^= 1 << bit;
            assert_eq!(
                decode(&blob, &ZERO_KEY, Some(7)),
                Err(CodecError::AuthenticationFailed),
                "byte {at}, bit {bit}"
            );
        }
    }
    assert_eq!(CodecError::AuthenticationFailed.kind(), ErrorKind::Authentication);
}

#[test]
fn flipped_bits_in_a_longer_container_fail_authentication() {
    let key = pattern(32, 8);
    let blob = encode(&pattern(200, 1), &key, 1, &pattern(40, 2));
    for at in [20usize, 43, 44, 59, 60, 61, 150, 259, 260, 299] {
        let mut tampered = blob.clone();
        tampered[at] ^= 0x80;
        assert_eq!(decode(&tampered, &key, Some(1)), Err(CodecError::AuthenticationFailed));
    }
}

#[test]
fn wrong_key_fails_authentication() {
    let mut key = ZERO_KEY;
    key[0] = 1;
    assert_eq!(decode(&HELLO_CONTAINER, &key, Some(7)), Err(CodecError::AuthenticationFailed));
}

#[test]
fn swapped_key_id_is_not_detected_by_the_tag() {
    let mut blob = HELLO_CONTAINER.to_vec();
    blob[10] = 8;
    assert_eq!(decode(&blob, &ZERO_KEY, Some(8)), Ok((b"hello".to_vec(), b"v1".to_vec())));
    assert_eq!(decode(&blob, &ZERO_KEY, None), Ok((b"hello".to_vec(), b"v1".to_vec())));
}

#[test]
fn other_version_is_a_format_error() {
    for version in [0u8, 2, 3, 0x7f, 0xff] {
        let mut blob = HELLO_CONTAINER.to_vec();
        blob[8] = version;
        let e = decode(&blob, &ZERO_KEY, Some(7)).unwrap_err();
        assert_eq!(e, CodecError::UnsupportedVersion(version));
        assert_eq!(e.kind(), ErrorKind::Format);
    }
}

#[test]
fn other_cipher_id_is_a_format_error() {
    for id in [0u8, 2, 0x80, 0xff] {
        let mut blob = HELLO_CONTAINER.to_vec();
        blob[9] = id;
        let e = decode(&blob, &ZERO_KEY, None).unwrap_err();
        assert_eq!(e, CodecError::UnsupportedCipher(id));
        assert_eq!(e.kind(), ErrorKind::Format);
    }
}

#[test]
fn other_magic_is_a_format_error() {
    for at in 0..8 {
        let mut blob = HELLO_CONTAINER.to_vec();
        blob[at] ^= 0x20;
        let e = decode(&blob, &ZERO_KEY, None).unwrap_err();
        assert_eq!(e, CodecError::BadMagic);
        assert_eq!(e.kind(), ErrorKind::Format);
    }
}

#[test]
fn key_id_mismatch_comes_before_the_cipher() {
    let e = decode(&HELLO_CONTAINER, &ZERO_KEY, Some(8)).unwrap_err();
    assert_eq!(e, CodecError::KeyIdMismatch { expected: 8, found: 7 });
    assert_eq!(e.kind(), ErrorKind::KeyIdMismatch);
    for at in 20..HELLO_CONTAINER.len() {
        let mut blob = HELLO_CONTAINER.to_vec();
        blob[at] ^= 0xff;
        assert_eq!(
            decode(&blob, &ZERO_KEY, Some(8)),
            Err(CodecError::KeyIdMismatch { expected: 8, found: 7 })
        );
    }
}

#[test]
fn key_id_mismatch_comes_before_the_declared_lengths() {
    let mut blob = HELLO_CONTAINER.to_vec();
    blob[19] = 0xff;
    assert_eq!(
        decode(&blob, &ZERO_KEY, Some(0x0107)),
        Err(CodecError::KeyIdMismatch { expected: 0x0107, found: 7 })
    );
    assert_eq!(decode(&blob, &ZERO_KEY, Some(7)), Err(CodecError::TruncatedInput));
}

#[test]
fn format_checks_come_in_order() {
    let mut blob = HELLO_CONTAINER.to_vec();
    blob[0] = 0;
    blob[8] = 9;
    blob[9] = 9;
    assert_eq!(decode(&blob, &ZERO_KEY, Some(1)), Err(CodecError::BadMagic));
    blob[0] = b'L';
    assert_eq!(decode(&blob, &ZERO_KEY, Some(1)), Err(CodecError::UnsupportedVersion(9)));
    blob[8] = 1;
    assert_eq!(decode(&blob, &ZERO_KEY, Some(1)), Err(CodecError::UnsupportedCipher(9)));
    blob[9] = 1;
    assert_eq!(
        decode(&blob, &ZERO_KEY, Some(1)),
        Err(CodecError::KeyIdMismatch { expected: 1, found: 7 })
    );
    assert_eq!(decode(&blob[..59], &ZERO_KEY, Some(1)), Err(CodecError::TruncatedInput));
    let mut short = blob[..59].to_vec();
    short[0] = 0;
    assert_eq!(decode(&short, &ZERO_KEY, Some(1)), Err(CodecError::TruncatedInput));
}

#[test]
fn oversized_declared_lengths_are_truncation() {
    for (at, value) in [(12usize, 3u8), (13, 1), (15, 0xff), (16, 6), (17, 1), (19, 0xff)] {
        let mut blob = HELLO_CONTAINER.to_vec();
        blob[at] = value;
        let e = decode(&blob, &ZERO_KEY, Some(7)).unwrap_err();
        assert_eq!(e, CodecError::TruncatedInput, "byte {at}");
        assert_eq!(e.kind(), ErrorKind::Truncated);
    }
    let mut blob = HELLO_CONTAINER.to_vec();
    for at in 12..20 {
        blob[at] = 0xff;
    }
    assert_eq!(decode(&blob, &ZERO_KEY, Some(7)), Err(CodecError::TruncatedInput));
}

#[test]
fn every_proper_prefix_is_truncation() {
    for len in 0..HELLO_CONTAINER.len() {
        assert_eq!(
            decode(&HELLO_CONTAINER[..len], &ZERO_KEY, Some(7)),
            Err(CodecError::TruncatedInput),
            "prefix of {len}"
        );
    }
}

#[test]
fn lengths_moved_between_fields_fail_authentication() {
    let mut blob = HELLO_CONTAINER.to_vec();
    blob[12] = 3;
    blob[16] = 4;
    assert_eq!(decode(&blob, &ZERO_KEY, Some(7)), Err(CodecError::AuthenticationFailed));
}

#[test]
fn keys_of_other_lengths_are_refused() {
    for len in [0usize, 1, 16, 31, 33, 64] {
        let key = vec![0u8; len];
        let mut out = vec![5u8];
        let r = encrypt_bytecode_into(b"hello", Some(ZERO_NONCE), &key, 7, b"v1", &mut out);
        assert_eq!(r, Err(CodecError::InvalidKeyLength));
        assert_eq!(out, vec![5u8]);
        let r = encrypt_with_nonce(b"hello", &ZERO_NONCE, &key, 7, b"v1", &mut out);
        assert_eq!(r, Err(CodecError::InvalidKeyLength));
        assert_eq!(out, vec![5u8]);
        assert_eq!(decode(&HELLO_CONTAINER, &key, Some(7)), Err(CodecError::InvalidKeyLength));
        assert_eq!(decode(&[], &key, None), Err(CodecError::InvalidKeyLength));
    }
    assert_eq!(CodecError::InvalidKeyLength.kind(), ErrorKind::Key);
}

#[test]
fn bad_lengths_are_refused_whether_or_not_a_nonce_is_given() {
    let mut out = vec![5u8];
    let r = encrypt_bytecode_into(b"hello", None, &[0u8; 31], 7, b"v1", &mut out);
    assert_eq!(r, Err(CodecError::InvalidKeyLength));
    let r = encrypt_bytecode_into(b"hello", None, &[], 7, b"v1", &mut out);
    assert_eq!(r, Err(CodecError::InvalidKeyLength));
    assert_eq!(out, vec![5u8]);
}

#[test]
fn plaintext_length_is_the_declared_ciphertext_length() {
    let key = pattern(32, 11);
    let blob = encode(&pattern(0x0123, 1), &key, 2, &pattern(0x45, 2));
    assert_eq!(&blob[16..20], &[0x23, 0x01, 0, 0]);
    assert_eq!(&blob[12..16], &[0x45, 0, 0, 0]);
    let mut plaintext = Vec::new();
    let mut ad = Vec::new();
    let r = decrypt_bytecode_into(&blob, &key, None, &mut plaintext, Some(&mut ad));
    assert_eq!(r, Ok((0x0123, Some(0x45))));
}

#[test]
fn encodings_under_two_nonces_share_their_prefix() {
    let key = pattern(32, 12);
    let a = encode(&pattern(77, 1), &key, 0x0506, b"shared");
    let b = encode(&pattern(77, 1), &key, 0x0506, b"shared");
    assert_eq!(a.len(), b.len());
    assert_eq!(&a[..20], &b[..20]);
    assert_eq!(&a[10..12], &[0x06, 0x05]);
    assert_eq!(&a[16..20], &[77, 0, 0, 0]);
    assert_ne!(&a[44..60], &b[44..60]);
}

#[test]
fn every_changed_tag_byte_fails_authentication() {
    let key = pattern(32, 13);
    let blob = encode(&pattern(100, 1), &key, 9, &pattern(10, 2));
    for at in 44..60 {
        for value in [0u8, 1, 0x7f, 0x80, 0xff] {
            if blob[at] == value {
                continue;
            }
            let mut tampered = blob.clone();
            tampered[at] = value;
            assert_eq!(decode(&tampered, &key, Some(9)), Err(CodecError::AuthenticationFailed));
            assert_eq!(decode(&tampered, &key, None), Err(CodecError::AuthenticationFailed));
        }
    }
}
