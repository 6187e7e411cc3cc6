use aicli::crypto::decode_bs58;
use aicli::crypto::decode_bs58check;
use aicli::crypto::encode_bs58;
use aicli::crypto::encode_bs58check;
use aicli::crypto::new_challenge;
use aicli::crypto::verify_signature;
use aicli::crypto::KeyPair;
use aicli::error::AppError;
use aicli::ids::Uuid;
use aicli::time::Timestamp;

fn hex(text: &str) -> Vec<u8> {
    (0..text.len() / 2).map(|i| u8::from_str_radix(&text[2 * i..2 * i + 2], 16).unwrap()).collect()
}

fn rfc8032_pair() -> KeyPair {
    let secret = hex("9d61b19deffd5a60ba844af492ec2cc44449c5697b326919703bac031cae7f60");
    KeyPair { signing_key: secret.try_into().unwrap() }
}

#[test]
fn base58_encodes_a_known_vector() {
    assert_eq!(encode_bs58(&[0x04, 0x30, 0x5e, 0x2b, 0x24, 0x73, 0xf0, 0x58]), "he11owor1d");
    assert_eq!(
        decode_bs58("he11owor1d").unwrap(),
        vec![0x04, 0x30, 0x5e, 0x2b, 0x24, 0x73, 0xf0, 0x58]
    );
    assert!(matches!(decode_bs58("0OIl"), Err(AppError::Bs58Error(_))));
}

#[test]
fn base58check_encodes_a_known_vector() {
    let payload = [0x60, 0x65, 0xe7, 0x9b, 0xba, 0x2f, 0x78];
    assert_eq!(encode_bs58check(&payload, 42), "oP8aA4HEEyFxxYhp");
    assert_eq!(decode_bs58check("oP8aA4HEEyFxxYhp", 42).unwrap(), (payload.to_vec(), 42));
}

#[test]
fn key_encoding_round_trips_for_both_versions() {
    let key: Vec<u8> = (0..32).collect();
    for version in [0u8, 1u8] {
        let text = encode_bs58check(&key, version);
        assert_eq!(decode_bs58check(&text, version).unwrap(), (key.clone(), version));
        assert!(matches!(decode_bs58check(&text, 1 - version), Err(AppError::AuthError(_))));
    }
}

#[test]
fn a_corrupted_key_text_is_refused() {
    let key: Vec<u8> = (0..32).collect();
    let text = encode_bs58check(&key, 1);
    let mut chars: Vec<char> = text.chars().collect();
    let last = chars.len() - 1;
    chars[last] = if chars[last] == '2' { '3' } else { '2' };
    let corrupted: String = chars.into_iter().collect();
    assert!(matches!(decode_bs58check(&corrupted, 1), Err(AppError::AuthError(_))));
    assert!(matches!(decode_bs58check("not base58 !", 1), Err(AppError::AuthError(_))));
}

#[test]
fn a_checksum_alone_holds_no_key() {
    // Four bytes that are the checksum of nothing decode to an empty payload.
    let text = bs58::encode(&[] as &[u8]).with_check().into_string();
    let first = bs58::decode(&text).into_vec().unwrap()[0];
    assert!(matches!(decode_bs58check(&text, first), Err(AppError::AuthError(_))));
}

#[test]
fn the_public_key_follows_from_the_secret_key() {
    let pair = rfc8032_pair();
    let public = hex("d75a980182b10ab7d54bfed3c964073a0ee172f3daa62325af021a68f707511a");
    assert_eq!(pair.public_key_to_bs58(), encode_bs58check(&public, 1));
    assert_eq!(pair.private_key_to_bs58(), encode_bs58check(&pair.signing_key, 0));
}

#[test]
fn signing_gives_the_known_signature() {
    let pair = rfc8032_pair();
    assert_eq!(
        pair.sign(b""),
        hex("e5564300c360ac729086e2cc806e828a84877f1eb8e5d974d873e065224901555fb8821590a33bacc61e39701cf9b46bd25bf5f0595bbe24655141438e7a100b")
    );
}

#[test]
fn a_signature_verifies_under_its_own_key_and_message() {
    let pair = KeyPair::new();
    let challenge = new_challenge();
    let signature = pair.sign(&challenge);
    assert_eq!(signature.len(), 64);
    assert_eq!(verify_signature(&pair.public_key_to_bs58(), &challenge, &signature), Ok(()));
}

#[test]
fn a_signature_over_another_challenge_is_rejected() {
    let pair = KeyPair::new();
    let signature = pair.sign(b"one challenge");
    let r = verify_signature(&pair.public_key_to_bs58(), b"another challenge", &signature);
    assert!(matches!(r, Err(AppError::AuthError(_))));
}

#[test]
fn a_signature_with_another_key_is_rejected() {
    let pair = KeyPair::new();
    let other = KeyPair::new();
    let signature = other.sign(b"challenge");
    let r = verify_signature(&pair.public_key_to_bs58(), b"challenge", &signature);
    assert!(matches!(r, Err(AppError::AuthError(_))));
}

#[test]
fn verification_refuses_malformed_input() {
    let pair = KeyPair::new();
    let signature = pair.sign(b"m");
    // A private key text has the wrong version byte.
    assert!(matches!(
        verify_signature(&pair.private_key_to_bs58(), b"m", &signature),
        Err(AppError::AuthError(_))
    ));
    // A key of the wrong length.
    assert!(matches!(
        verify_signature(&encode_bs58check(&[1, 2, 3], 1), b"m", &signature),
        Err(AppError::AuthError(_))
    ));
    // A signature of the wrong length.
    assert!(matches!(
        verify_signature(&pair.public_key_to_bs58(), b"m", &signature[..63]),
        Err(AppError::AuthError(_))
    ));
    // Text that is no Base58Check at all.
    assert!(matches!(verify_signature("???", b"m", &signature), Err(AppError::AuthError(_))));
}

#[test]
fn a_private_key_text_reads_back() {
    let pair = KeyPair::new();
    let again = KeyPair::from_private_bs58(&pair.private_key_to_bs58()).unwrap();
    assert_eq!(again.signing_key, pair.signing_key);
    assert!(matches!(
        KeyPair::from_private_bs58(&pair.public_key_to_bs58()),
        Err(AppError::AuthError(_))
    ));
    assert!(matches!(
        KeyPair::from_private_bs58(&encode_bs58check(&[9; 31], 0)),
        Err(AppError::AuthError(_))
    ));
    assert!(matches!(KeyPair::from_private_bs58("0"), Err(AppError::AuthError(_))));
}

#[test]
fn fresh_keys_and_challenges_differ() {
    assert_ne!(KeyPair::new().signing_key, KeyPair::new().signing_key);
    let a = new_challenge();
    let b = new_challenge();
    assert_eq!(a.len(), 32);
    assert_ne!(a, b);
}

#[test]
fn identifiers_print_hyphenated_and_read_back() {
    let id = Uuid::from_u128(0x550e8400_e29b_41d4_a716_446655440000);
    assert_eq!(id.to_text(), "550e8400-e29b-41d4-a716-446655440000");
    assert_eq!(Uuid::parse_str("550e8400-e29b-41d4-a716-446655440000"), Some(id));
    assert_eq!(Uuid::parse_str("550E8400E29B41D4A716446655440000"), Some(id));
    assert_eq!(Uuid::parse_str("550e8400-e29b-41d4-a716"), None);
    assert_eq!(Uuid::parse_str(""), None);
    assert_ne!(Uuid::new_v4(), Uuid::new_v4());
}

#[test]
fn times_print_as_rfc3339_and_read_back() {
    let t = Timestamp::from_unix(1672574400, 0).unwrap();
    assert_eq!(t.to_rfc3339(), "2023-01-01T12:00:00+00:00");
    assert_eq!(Timestamp::parse_rfc3339("2023-01-01T12:00:00Z"), Some(t));
    assert_eq!(Timestamp::parse_rfc3339("2023-01-01T13:00:00+01:00"), Some(t));
    assert!(t.check_reads_back());
    let fine = Timestamp::from_unix(0, 123_456_789).unwrap();
    assert_eq!(fine.to_rfc3339(), "1970-01-01T00:00:00.123456789+00:00");
    assert_eq!((fine.secs(), fine.nanos()), (0, 123_456_789));
    assert!(fine.check_reads_back());
    assert_eq!(Timestamp::parse_rfc3339("yesterday"), None);
    assert_eq!(Timestamp::from_unix(i64::MAX, 0), None);
    assert_eq!(Timestamp::from_unix(0, 2_000_000_000), None);
}

#[test]
fn a_time_before_the_year_zero_does_not_read_back() {
    let t = Timestamp::parse_rfc3339("0000-01-01T00:00:00+01:00").unwrap();
    assert!(!t.check_reads_back());
}

#[test]
fn times_are_ordered_by_seconds_then_nanoseconds() {
    let a = Timestamp::from_unix(10, 5).unwrap();
    let b = Timestamp::from_unix(10, 6).unwrap();
    let c = Timestamp::from_unix(11, 0).unwrap();
    assert!(a.is_before(&b) && b.is_before(&c) && a.is_before(&c));
    assert!(!b.is_before(&a) && !a.is_before(&a));
    let before = Timestamp::now();
    let after = Timestamp::now();
    assert!(!after.is_before(&before));
    assert!(Timestamp::from_unix(1_600_000_000, 0).unwrap().is_before(&before));
}

#[test]
fn a_fresh_identifier_is_of_version_4() {
    for _ in 0..64 {
        let id = Uuid::new_v4();
        assert_eq!(
            id.value & 0x0000_0000_0000_F000_C000_0000_0000_0000,
            0x0000_0000_0000_4000_8000_0000_0000_0000
        );
        let text = id.to_text();
        assert_eq!(text.as_bytes()[14], b'4');
        assert!(matches!(text.as_bytes()[19], b'8' | b'9' | b'a' | b'b'));
    }
}

#[test]
fn the_clock_gives_an_instant_that_can_be_represented() {
    let t = Timestamp::now();
    assert_eq!(Timestamp::from_unix(t.secs(), t.nanos()), Some(t));
    assert!(t.nanos() < 2_000_000_000);
}
