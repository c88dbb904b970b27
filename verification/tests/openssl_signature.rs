use openssl_signature::signatures::common::{Confidence, SignatureError, SignatureResult};
use openssl_signature::signatures::openssl::{
    contains_salt, describe, known_false_positive_salts, openssl_crypt_magic,
    openssl_crypt_parser, openssl_crypt_parser_excluding, DESCRIPTION, OPENSSL_BINARY_SALT,
};
use openssl_signature::structures::openssl::HEADER_SIZE;

fn header(mode: u8, salt: [u8; 4]) -> Vec<u8> {
    let mut bytes = b"Salted__".to_vec();
    bytes.push(mode);
    bytes.extend_from_slice(&salt);
    bytes
}

fn embedded(padding: usize, mode: u8, salt: [u8; 4]) -> Vec<u8> {
    let mut bytes = vec![0xAAu8; padding];
    bytes.extend_from_slice(&header(mode, salt));
    bytes
}

#[test]
fn magic_is_the_salted_tag() {
    assert_eq!(openssl_crypt_magic(), vec![b"Salted__".to_vec()]);
}

#[test]
fn description_label() {
    assert_eq!(DESCRIPTION, "OpenSSL encryption");
}

#[test]
fn zero_salt_at_start_is_medium() {
    let mut data = b"Salted__".to_vec();
    data.extend_from_slice(&[0u8; 5]);
    let result = openssl_crypt_parser(&data, 0).unwrap();
    assert_eq!(result.offset, 0);
    assert_eq!(result.confidence, Confidence::Medium);
    assert!(result.description.ends_with("salt: 0x0"));
    assert_eq!(result.description, "OpenSSL encryption, salt: 0x0");
}

#[test]
fn zero_salt_embedded_is_low() {
    let data = embedded(10, 0, [0, 0, 0, 0]);
    let result = openssl_crypt_parser(&data, 10).unwrap();
    assert_eq!(
        result,
        SignatureResult {
            offset: 10,
            description: "OpenSSL encryption, salt: 0x0".to_string(),
            confidence: Confidence::Low,
        }
    );
}

#[test]
fn offset_one_is_already_low() {
    let data = embedded(1, 7, [0, 0, 0, 1]);
    let result = openssl_crypt_parser(&data, 1).unwrap();
    assert_eq!(result.offset, 1);
    assert_eq!(result.confidence, Confidence::Low);
    assert_eq!(result.description, "OpenSSL encryption, salt: 0x1");
}

#[test]
fn openssl_binary_salt_is_rejected_at_start() {
    let data = header(0, [0x2D, 0x25, 0x2D, 0x32]);
    assert_eq!(openssl_crypt_parser(&data, 0), Err(SignatureError));
}

#[test]
fn openssl_binary_salt_is_the_text_behind_the_tag() {
    let data = b"Salted__\0-%-25s".to_vec();
    assert_eq!(openssl_crypt_parser(&data, 0), Err(SignatureError));
}

#[test]
fn openssl_binary_salt_is_rejected_when_embedded() {
    for padding in [1usize, 2, 10, 100] {
        let data = embedded(padding, 0, [0x2D, 0x25, 0x2D, 0x32]);
        assert_eq!(openssl_crypt_parser(&data, padding), Err(SignatureError));
    }
}

#[test]
fn openssl_binary_salt_is_rejected_whatever_the_mode() {
    for mode in [0u8, 1, 0x7F, 0xFF] {
        let data = header(mode, [0x2D, 0x25, 0x2D, 0x32]);
        assert_eq!(openssl_crypt_parser(&data, 0), Err(SignatureError));
    }
}

#[test]
fn salt_is_read_big_endian() {
    let data = header(0, [0x32, 0x2D, 0x25, 0x2D]);
    let result = openssl_crypt_parser(&data, 0).unwrap();
    assert_eq!(result.description, "OpenSSL encryption, salt: 0x322D252D");
    let data = header(0, [0x00, 0x00, 0xAB, 0xCD]);
    let result = openssl_crypt_parser(&data, 0).unwrap();
    assert_eq!(result.description, "OpenSSL encryption, salt: 0xABCD");
}

#[test]
fn tag_alone_is_rejected() {
    let data = b"Salted__".to_vec();
    assert_eq!(openssl_crypt_parser(&data, 0), Err(SignatureError));
}

#[test]
fn every_short_window_is_rejected() {
    let full = embedded(4, 0, [1, 2, 3, 4]);
    assert!(openssl_crypt_parser(&full, 4).is_ok());
    for len in 0..full.len() {
        assert_eq!(openssl_crypt_parser(&full[..len], 4), Err(SignatureError));
    }
    let full = header(0, [1, 2, 3, 4]);
    for len in 0..HEADER_SIZE {
        assert_eq!(openssl_crypt_parser(&full[..len], 0), Err(SignatureError));
    }
}

#[test]
fn offset_inside_the_only_header_is_rejected() {
    let data = header(0, [0, 0, 0, 0]);
    assert_eq!(openssl_crypt_parser(&data, 10), Err(SignatureError));
}

#[test]
fn offset_at_or_beyond_the_end_is_rejected() {
    let data = header(0, [0, 0, 0, 0]);
    assert_eq!(openssl_crypt_parser(&data, data.len()), Err(SignatureError));
    assert_eq!(openssl_crypt_parser(&data, data.len() + 1), Err(SignatureError));
    assert_eq!(openssl_crypt_parser(&data, usize::MAX), Err(SignatureError));
    assert_eq!(openssl_crypt_parser(&[], 0), Err(SignatureError));
}

#[test]
fn altered_tag_is_rejected() {
    let mut data = header(0, [0, 0, 0, 0]);
    data[3] ^= 0x01;
    assert_eq!(openssl_crypt_parser(&data, 0), Err(SignatureError));
}

#[test]
fn bytes_behind_the_header_are_ignored() {
    let mut data = header(3, [0xDE, 0xAD, 0xBE, 0xEF]);
    let short = openssl_crypt_parser(&data, 0);
    data.extend_from_slice(&[0xFF; 64]);
    let long = openssl_crypt_parser(&data, 0);
    assert_eq!(short, long);
    assert_eq!(long.unwrap().description, "OpenSSL encryption, salt: 0xDEADBEEF");
}

#[test]
fn mode_does_not_change_the_result() {
    let plain = openssl_crypt_parser(&header(0, [0, 0, 0x12, 0x34]), 0);
    let other = openssl_crypt_parser(&header(0xC3, [0, 0, 0x12, 0x34]), 0);
    assert_eq!(plain, other);
    assert_eq!(plain.unwrap().description, "OpenSSL encryption, salt: 0x1234");
}

#[test]
fn largest_salt() {
    let result = openssl_crypt_parser(&header(0, [0xFF; 4]), 0).unwrap();
    assert_eq!(result.description, "OpenSSL encryption, salt: 0xFFFFFFFF");
    assert_eq!(result.confidence, Confidence::Medium);
}

#[test]
fn validating_twice_gives_the_same_result() {
    let data = embedded(5, 1, [0x0A, 0x0B, 0x0C, 0x0D]);
    for offset in [0usize, 5, 6, 17, 18, 19] {
        assert_eq!(openssl_crypt_parser(&data, offset), openssl_crypt_parser(&data, offset));
    }
    assert_eq!(
        openssl_crypt_parser(&data, 5).unwrap().description,
        "OpenSSL encryption, salt: 0xA0B0C0D"
    );
}

#[test]
fn description_matches_the_standard_formatting() {
    for salt in [0u32, 1, 9, 10, 15, 16, 255, 256, 0xABC, 0x2D25_2D31, 0x8000_0000, u32::MAX] {
        assert_eq!(describe(salt), format!("{}, salt: {:#X}", DESCRIPTION, salt));
        let data = header(0, salt.to_be_bytes());
        let result = openssl_crypt_parser(&data, 0).unwrap();
        assert_eq!(result.description, format!("OpenSSL encryption, salt: {:#X}", salt));
    }
}

#[test]
fn description_of_the_excluded_salt() {
    assert_eq!(describe(OPENSSL_BINARY_SALT), "OpenSSL encryption, salt: 0x2D252D32");
}

#[test]
fn different_salts_have_different_descriptions() {
    let salts = [0u32, 1, 0x10, 0x11, 0x100, 0x2D25_2D32, 0x322D_252D, u32::MAX];
    for a in salts {
        for b in salts {
            assert_eq!(describe(a) == describe(b), a == b);
        }
    }
}

#[test]
fn known_false_positive_table() {
    assert_eq!(OPENSSL_BINARY_SALT, 0x2D25_2D32);
    assert_eq!(known_false_positive_salts(), vec![0x2D25_2D32u32]);
}

#[test]
fn contains_salt_finds_exactly_the_listed_salts() {
    let salts = [3u32, 0x2D25_2D32, 7, 3];
    assert!(contains_salt(&salts, 3));
    assert!(contains_salt(&salts, 7));
    assert!(contains_salt(&salts, 0x2D25_2D32));
    assert!(!contains_salt(&salts, 0));
    assert!(!contains_salt(&salts, 4));
    assert!(!contains_salt(&[], 3));
}

#[test]
fn custom_exclusions_replace_the_table() {
    let benign = header(0, [0x2D, 0x25, 0x2D, 0x32]);
    let result = openssl_crypt_parser_excluding(&benign, 0, &[]).unwrap();
    assert_eq!(result.description, "OpenSSL encryption, salt: 0x2D252D32");
    assert_eq!(result.confidence, Confidence::Medium);

    let data = embedded(2, 0, [0, 0, 0, 5]);
    assert_eq!(openssl_crypt_parser_excluding(&data, 2, &[4, 5, 6]), Err(SignatureError));
    let result = openssl_crypt_parser_excluding(&data, 2, &[4, 6]).unwrap();
    assert_eq!(
        result,
        SignatureResult {
            offset: 2,
            description: "OpenSSL encryption, salt: 0x5".to_string(),
            confidence: Confidence::Low,
        }
    );
}

#[test]
fn default_validator_uses_the_table() {
    let table = known_false_positive_salts();
    for salt in [0u32, 0x2D25_2D32, 0x2D25_2D33, 0x322D_252D] {
        for padding in [0usize, 3] {
            let data = embedded(padding, 0, salt.to_be_bytes());
            assert_eq!(
                openssl_crypt_parser(&data, padding),
                openssl_crypt_parser_excluding(&data, padding, &table)
            );
        }
    }
}

#[test]
fn confidence_levels_are_ordered() {
    assert!(Confidence::Low < Confidence::Medium);
    assert!(Confidence::Medium < Confidence::High);
    assert_eq!(Confidence::Low.rank(), 0);
    assert_eq!(Confidence::Medium.rank(), 1);
    assert_eq!(Confidence::High.rank(), 2);
}
