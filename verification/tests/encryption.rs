use aes::cipher::block_padding::Pkcs7;
use aes::cipher::{BlockEncryptMut, KeyIvInit};
use hls_stream::encryption::{decryption_result, sequence_vector, Encryption};
use hls_stream::error::VideoError;
use hls_stream::hexadecimal::{parse_vector, trim_hex_prefix, HexError};
use hls_stream::playlist::Key;
use hls_stream::resource_url::ResourceUrl;

const BASE: &str = "http://example.invalid/live/playlist.m3u8";

fn aes_key(iv: [u8; 16]) -> Encryption {
    Encryption::Aes128 {
        key_uri: ResourceUrl::parse("http://127.0.0.1:9/key.bin").expect("parse local key URL"),
        iv,
    }
}

fn key(method: &str, uri: Option<&str>, iv: Option<&str>, keyformat: Option<&str>) -> Key {
    Key {
        method: method.to_string(),
        uri: uri.map(str::to_string),
        iv: iv.map(str::to_string),
        keyformat: keyformat.map(str::to_string),
    }
}

fn encrypt(key: [u8; 16], iv: [u8; 16], plain: &[u8]) -> Vec<u8> {
    cbc::Encryptor::<aes::Aes128>::new(&key.into(), &iv.into())
        .encrypt_padded_vec_mut::<Pkcs7>(plain)
}

#[test]
fn exact_16_byte_aes128_key_control_does_not_panic() {
    let result = aes_key([0_u8; 16]).decrypt(&[0_u8; 16], &[0_u8; 16]);
    assert!(matches!(result, Err(VideoError::DecryptionError(_))));
}

#[test]
fn short_aes128_key_returns_encryption_error_without_panicking() {
    let result = aes_key([0_u8; 16]).decrypt(b"tiny", &[0_u8; 16]);
    assert!(matches!(result, Err(VideoError::EncryptionError(_))));
    assert_eq!(
        result,
        Err(VideoError::EncryptionError(
            "AES-128 key must be exactly 16 bytes, got 4".to_string()
        ))
    );
}

#[test]
fn oversized_aes128_key_is_rejected_instead_of_truncated() {
    let result = aes_key([0_u8; 16]).decrypt(&[0_u8; 17], &[0_u8; 16]);
    assert!(matches!(result, Err(VideoError::EncryptionError(_))));
}

#[test]
fn encrypted_media_is_decrypted() {
    let secret = *b"0123456789abcdef";
    let iv = sequence_vector(77);
    for length in [0_usize, 1, 15, 16, 17, 100] {
        let plain: Vec<u8> = (0..length).map(|i| i as u8).collect();
        let data = encrypt(secret, iv, &plain);
        assert_eq!(aes_key(iv).decrypt(&secret, &data), Ok(plain));
    }
}

#[test]
fn data_that_is_not_padded_ciphertext_is_refused() {
    let refused: Result<Vec<u8>, VideoError> =
        Err(VideoError::DecryptionError("Unpad Error".to_string()));
    assert_eq!(aes_key([0_u8; 16]).decrypt(&[0_u8; 16], &[]), refused);
    assert_eq!(aes_key([0_u8; 16]).decrypt(&[0_u8; 16], &[1_u8; 15]), refused);
    assert_eq!(aes_key([0_u8; 16]).decrypt(&[0_u8; 16], &[0_u8; 16]), refused);
}

#[test]
fn clear_media_is_handed_out_as_it_is() {
    assert_eq!(
        Encryption::Unencrypted.decrypt(b"", b"media"),
        Ok(b"media".to_vec())
    );
    assert_eq!(
        Encryption::Unencrypted.decrypt(b"whatever", b""),
        Ok(Vec::new())
    );
}

#[test]
fn outcome_of_a_decryption_keeps_its_words() {
    assert_eq!(decryption_result(Ok(vec![1, 2])), Ok(vec![1, 2]));
    assert_eq!(
        decryption_result(Err("Unpad Error".to_string())),
        Err(VideoError::DecryptionError("Unpad Error".to_string()))
    );
}

#[test]
fn sequence_number_makes_the_vector() {
    assert_eq!(sequence_vector(0), [0_u8; 16]);
    assert_eq!(
        sequence_vector(0x0102_0304_0506_0708),
        [0, 0, 0, 0, 0, 0, 0, 0, 1, 2, 3, 4, 5, 6, 7, 8]
    );
    assert_eq!(
        sequence_vector(u64::MAX),
        [0, 0, 0, 0, 0, 0, 0, 0, 255, 255, 255, 255, 255, 255, 255, 255]
    );
}

#[test]
fn vectors_are_read_from_hexadecimal() {
    let block = [
        0x00, 0x11, 0x22, 0x33, 0x44, 0x55, 0x66, 0x77, 0x88, 0x99, 0xaa, 0xbb, 0xcc, 0xdd, 0xee,
        0xff,
    ];
    assert_eq!(parse_vector("0x00112233445566778899aabbccddeeff"), Ok(block));
    assert_eq!(parse_vector("00112233445566778899AABBCCDDEEFF"), Ok(block));
    assert_eq!(parse_vector("0x0x00112233445566778899aAbBcCdDeEfF"), Ok(block));
    assert_eq!(parse_vector("0x123"), Err(HexError::OddLength));
    assert_eq!(parse_vector("0x1234"), Err(HexError::InvalidStringLength));
    assert_eq!(parse_vector(""), Err(HexError::InvalidStringLength));
    assert_eq!(
        parse_vector("0x0011223344556677889gaabbccddeeff"),
        Err(HexError::InvalidHexCharacter { c: 'g', index: 19 })
    );
    assert_eq!(
        parse_vector("0X00112233445566778899aabbccddee"),
        Err(HexError::InvalidHexCharacter { c: 'X', index: 1 })
    );
    assert_eq!(
        parse_vector("é0112233445566778899aabbccddeeff"),
        Err(HexError::OddLength)
    );
    assert_eq!(trim_hex_prefix("0x0x0"), "0");
    assert_eq!(trim_hex_prefix("x0x0"), "x0x0");
}

#[test]
fn key_tags_are_read() {
    let none = Encryption::new(&key("NONE", None, None, None), BASE, 1).expect("no encryption");
    assert!(matches!(none, Encryption::Unencrypted));
    assert!(none.key_address().is_none());

    let found = Encryption::new(&key("AES-128", Some("key.bin"), None, None), BASE, 258)
        .expect("an encryption");
    assert_eq!(
        found.key_address().map(|url| url.as_str()),
        Some("http://example.invalid/live/key.bin")
    );
    match found {
        Encryption::Aes128 { iv, .. } => assert_eq!(iv, sequence_vector(258)),
        other => panic!("not AES-128: {other:?}"),
    }

    let found = Encryption::new(
        &key(
            "AES-128",
            Some("http://keys.invalid/1"),
            Some("0x00000000000000000000000000000001"),
            Some("identity"),
        ),
        BASE,
        258,
    )
    .expect("an encryption");
    assert_eq!(
        found.key_address().map(|url| url.as_str()),
        Some("http://keys.invalid/1")
    );
    match found.clone() {
        Encryption::Aes128 { iv, .. } => assert_eq!(iv, sequence_vector(1)),
        other => panic!("not AES-128: {other:?}"),
    }
}

#[test]
fn refused_key_tags_say_why() {
    let refused = |tag: Key| Encryption::new(&tag, BASE, 1).err().expect("refused");
    assert_eq!(
        refused(key("AES-128", None, None, None)),
        VideoError::EncryptionError("No URI found for AES-128 key".to_string())
    );
    assert_eq!(
        refused(key("AES-128", Some("k"), None, Some("com.example"))),
        VideoError::EncryptionError("Invalid keyformat: com.example".to_string())
    );
    assert_eq!(
        refused(key("AES-128", Some("http://[::1"), None, None)),
        VideoError::UrlParseError("invalid IPv6 address".to_string())
    );
    assert_eq!(
        refused(key("AES-128", Some("k"), Some("0x1"), None)),
        VideoError::HexError(HexError::OddLength)
    );
    assert_eq!(
        refused(key("SAMPLE-AES", Some("k"), None, None)),
        VideoError::EncryptionError("Unimplemented encryption method: SAMPLE-AES".to_string())
    );
    assert_eq!(
        refused(key("ROT13", None, None, None)),
        VideoError::EncryptionError("Invalid encryption method: ROT13".to_string())
    );
}

#[test]
fn vector_is_the_given_one_or_the_sequence_number() {
    let address = || ResourceUrl::parse("http://keys.invalid/k").expect("parse");
    let vector = |given: Option<&str>, seq: u64| {
        match Encryption::aes128(address(), &given.map(str::to_string), seq) {
            Ok(Encryption::Aes128 { iv, .. }) => Ok(iv),
            Ok(other) => panic!("not AES-128: {other:?}"),
            Err(error) => Err(error),
        }
    };
    assert_eq!(vector(None, 5), Ok(sequence_vector(5)));
    assert_eq!(
        vector(Some("0x00000000000000000000000000000007"), 5),
        Ok(sequence_vector(7))
    );
    assert_eq!(
        vector(Some("zz"), 5),
        Err(VideoError::HexError(HexError::InvalidStringLength))
    );
}
