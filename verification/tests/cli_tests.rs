use rust_practice::cli::base64::{decode_bytes, process_decode, process_encode, DecodeFailure};
use rust_practice::cli::genpass::{process_genpass, DIGIT, LOWER, SYMBOL, UPPER};
use rust_practice::cli::opts::{
    key_file_plan, parse_base64_format, parse_format, verify_file, verify_file_with, Base64Format,
    TextSignFormat,
};
use rust_practice::cli::text::{
    process_generate, process_sign, process_verify, verify_signature, verify_with_any_key, Blake3,
    Ed25519Signer,
    Ed25519Verifier, VerifyFailure,
};

#[test]
fn test_verify_input_file() {
    assert_eq!(verify_file("-"), Ok("-".to_string()));
    assert_eq!(
        verify_file("test.csv"),
        Err(format!("Input File not found: {}", "test.csv"))
    );
}

#[test]
fn verify_file_keeps_existing_files() {
    assert_eq!(verify_file("/"), Ok("/".to_string()));
    assert_eq!(verify_file_with("x.csv", true), Ok("x.csv".to_string()));
    assert_eq!(
        verify_file_with("x.csv", false),
        Err("Input File not found: x.csv".to_string())
    );
    assert_eq!(verify_file_with("-", false), Ok("-".to_string()));
}

#[test]
fn base64_format_names() {
    assert_eq!(parse_base64_format("standard"), Ok(Base64Format::Standard));
    assert_eq!(parse_base64_format("urlsafe"), Ok(Base64Format::UrlSafeNoPad));
    assert_eq!(
        parse_base64_format("Standard"),
        Err("Unknown base64 format: Standard".to_string())
    );
}

#[test]
fn sign_format_names_ignore_case() {
    assert_eq!(parse_format("blake3"), Ok(TextSignFormat::Blake3));
    assert_eq!(parse_format("BLAKE3"), Ok(TextSignFormat::Blake3));
    assert_eq!(parse_format("Ed25519"), Ok(TextSignFormat::Ed25519));
    assert_eq!(parse_format("rsa"), Err("Unsupported format: rsa".to_string()));
    assert_eq!(parse_format("blake"), Err("Unsupported format: blake".to_string()));
    // folding follows Unicode: the Kelvin sign lowers to `k`
    assert_eq!(parse_format("bla\u{212A}e3"), Ok(TextSignFormat::Blake3));
}

#[test]
fn key_files_per_format() {
    let plan = key_file_plan(TextSignFormat::Blake3);
    assert_eq!(plan, vec![("blake3.key".to_string(), 0)]);
    let plan = key_file_plan(TextSignFormat::Ed25519);
    assert_eq!(
        plan,
        vec![
            ("ed25519_signing.key".to_string(), 0),
            ("ed25519_verifying.key".to_string(), 1)
        ]
    );
}

fn count_in(p: &str, class: &str) -> usize {
    p.chars().filter(|c| class.contains(*c)).count()
}

#[test]
fn genpass_length_and_classes() {
    for _ in 0..20 {
        let p = process_genpass(16, true, true, true, true).unwrap();
        assert_eq!(p.chars().count(), 16);
        assert!(count_in(&p, UPPER) >= 1);
        assert!(count_in(&p, LOWER) >= 1);
        assert!(count_in(&p, DIGIT) >= 1);
        assert!(count_in(&p, SYMBOL) >= 1);
    }
    let p = process_genpass(8, false, false, true, false).unwrap();
    assert_eq!(p.chars().count(), 8);
    assert_eq!(count_in(&p, DIGIT), 8);
}

#[test]
fn genpass_short_length_keeps_one_per_class() {
    let p = process_genpass(2, true, true, true, true).unwrap();
    assert_eq!(p.chars().count(), 4);
    assert_eq!(count_in(&p, UPPER), 1);
    assert_eq!(count_in(&p, SYMBOL), 1);
    let p = process_genpass(0, false, true, false, false).unwrap();
    assert_eq!(p.chars().count(), 1);
}

#[test]
fn genpass_without_classes_fails() {
    assert_eq!(
        process_genpass(16, false, false, false, false),
        Err("no characters to choose from".to_string())
    );
}

#[test]
fn base64_known_values() {
    assert_eq!(process_encode("hello", Base64Format::Standard), "aGVsbG8=");
    assert_eq!(process_encode("hello", Base64Format::UrlSafeNoPad), "aGVsbG8");
    assert_eq!(process_encode("", Base64Format::Standard), "");
    assert_eq!(process_encode("??>", Base64Format::Standard), "Pz8+");
    assert_eq!(process_encode("??>", Base64Format::UrlSafeNoPad), "Pz8-");
}

#[test]
fn base64_round_trip() {
    for text in ["hello world", "", "多线程 ü", "a"] {
        for f in [Base64Format::Standard, Base64Format::UrlSafeNoPad] {
            let e = process_encode(text, f);
            assert_eq!(process_decode(&e, f).unwrap(), text);
        }
    }
}

#[test]
fn base64_decode_failures() {
    match process_decode("not base64!", Base64Format::Standard) {
        Err(DecodeFailure::Base64(m)) => assert!(!m.is_empty()),
        other => panic!("unexpected {:?}", other),
    }
    // padding is refused by the unpadded alphabet
    assert!(matches!(
        process_decode("aGVsbG8=", Base64Format::UrlSafeNoPad),
        Err(DecodeFailure::Base64(_))
    ));
    // non-zero trailing bits are refused: "QR==" is not the encoding of any bytes
    assert!(decode_bytes("QR==", Base64Format::Standard).is_err());
    assert_eq!(decode_bytes("QQ==", Base64Format::Standard), Ok(vec![b'A']));
    // padding that is missing is refused by the padded alphabet
    assert!(decode_bytes("QQ", Base64Format::Standard).is_err());
    // "_w" is the byte 0xff, which is not UTF-8
    assert!(matches!(
        process_decode("_w", Base64Format::UrlSafeNoPad),
        Err(DecodeFailure::Utf8)
    ));
}

#[test]
fn test_blake3_sign_verify() {
    let key = Blake3::generate().unwrap();
    let signer = Blake3::try_from(&key[0]).unwrap();
    let verifier = Blake3::try_from(&key[0]).unwrap();

    let input = "hello world".as_bytes();
    let sig = signer.sign(input);
    let is_valid = verifier.verify(input, &sig);

    assert!(is_valid);
}

#[test]
fn test_ed25519_sign_verify() {
    let key = Ed25519Signer::generate();
    let signer = Ed25519Signer::try_from(&key[0]).unwrap();
    let verifier = Ed25519Verifier::try_from(&key[1]).unwrap();

    let input = "hello world".as_bytes();
    let sig = signer.sign(input);
    let is_valid = verifier.verify(input, &sig);

    assert!(is_valid);
}

#[test]
fn blake3_key_is_password_bytes() {
    let key = Blake3::generate().unwrap();
    assert_eq!(key.len(), 1);
    assert_eq!(key[0].len(), 32);
    let text = std::str::from_utf8(&key[0]).unwrap();
    assert!(count_in(text, UPPER) >= 1 && count_in(text, SYMBOL) >= 1);
}

#[test]
fn blake3_signature_is_keyed_hash() {
    let key = [7u8; 32];
    let signer = Blake3::try_from(&key).unwrap();
    let sig = signer.sign(b"data");
    assert_eq!(sig, blake3::keyed_hash(&key, b"data").as_bytes().to_vec());
    assert_ne!(sig, b"data".to_vec());
    assert!(!signer.verify(b"other", &sig));
    assert!(!signer.verify(b"data", &sig[..31]));
    // only the first 32 bytes of a longer key are used
    let mut long = key.to_vec();
    long.extend_from_slice(b"ignored");
    assert_eq!(Blake3::try_from(&long).unwrap().sign(b"data"), sig);
}

#[test]
fn ed25519_rejects_other_messages_and_keys() {
    let key = Ed25519Signer::generate();
    assert_eq!(key.len(), 2);
    assert_eq!(key[0].len(), 32);
    assert_eq!(key[1].len(), 32);
    let signer = Ed25519Signer::try_from(&key[0]).unwrap();
    let verifier = Ed25519Verifier::try_from(&key[1]).unwrap();
    let sig = signer.sign(b"hello");
    assert_eq!(sig.len(), 64);
    assert!(!verifier.verify(b"hellO", &sig));
    let other = Ed25519Signer::generate();
    let other_verifier = Ed25519Verifier::try_from(&other[1]).unwrap();
    assert!(!other_verifier.verify(b"hello", &sig));
}

/// Bytes that do not decode to a verifying key.
fn undecodable_key() -> [u8; 32] {
    for b in 0..=255u8 {
        let mut k = [0u8; 32];
        k[0] = b;
        if ed25519_dalek::VerifyingKey::from_bytes(&k).is_err() {
            return k;
        }
    }
    panic!("no undecodable key among the candidates");
}

#[test]
fn ed25519_bad_public_key() {
    let bad = undecodable_key();
    assert!(matches!(Ed25519Verifier::try_from(&bad), Err(VerifyFailure::Key(_))));
}

#[test]
fn generate_per_format() {
    let k = process_generate(TextSignFormat::Blake3).unwrap();
    assert_eq!(k.len(), 1);
    let k = process_generate(TextSignFormat::Ed25519).unwrap();
    assert_eq!(k.len(), 2);
}

#[test]
fn sign_and_verify_text() {
    let key = [1u8; 32];
    let sig = process_sign(b"hello", &key, TextSignFormat::Blake3);
    assert_eq!(process_verify(b"hello", &key, &sig, TextSignFormat::Blake3), Ok(Some(true)));
    assert_eq!(process_verify(b"bye", &key, &sig, TextSignFormat::Blake3), Ok(Some(false)));

    let pair = Ed25519Signer::generate();
    let sig = process_sign(b"hello", &pair[0], TextSignFormat::Ed25519);
    assert_eq!(
        process_verify(b"hello", &pair[1], &sig, TextSignFormat::Ed25519),
        Ok(Some(true))
    );
    assert_eq!(
        process_verify(b"bye", &pair[1], &sig, TextSignFormat::Ed25519),
        Ok(Some(false))
    );
}

#[test]
fn verify_text_failures() {
    let key = [1u8; 32];
    assert!(matches!(
        process_verify(b"hello", &key, "***", TextSignFormat::Blake3),
        Err(VerifyFailure::Signature(_))
    ));
    // an Ed25519 signature shorter than 64 bytes is not checked, under a good key
    let pair = Ed25519Signer::generate();
    assert_eq!(
        process_verify(b"hello", &pair[1], "AAAA", TextSignFormat::Ed25519),
        Ok(None)
    );
    let bad = undecodable_key();
    // a key that is not a verifying key is reported first
    assert!(matches!(
        process_verify(b"hello", &bad, "AAAA", TextSignFormat::Ed25519),
        Err(VerifyFailure::Key(_))
    ));
    // a signature that is not base64 is reported before a short key is read
    assert!(matches!(
        process_verify(b"hello", &[1u8; 4], "***", TextSignFormat::Ed25519),
        Err(VerifyFailure::Signature(_))
    ));
    assert!(matches!(
        verify_signature(b"hello", &bad, &[0u8; 64], TextSignFormat::Ed25519),
        Err(VerifyFailure::Key(_))
    ));
}

#[test]
fn generated_ed25519_keys_round_trip() {
    let keys = process_generate(TextSignFormat::Ed25519).unwrap();
    assert_eq!(keys.len(), 2);
    assert_eq!(keys[0].len(), 32);
    assert_eq!(keys[1].len(), 32);
    let sig = process_sign(b"hello world", &keys[0], TextSignFormat::Ed25519);
    assert_eq!(
        process_verify(b"hello world", &keys[1], &sig, TextSignFormat::Ed25519),
        Ok(Some(true))
    );
}

#[test]
fn generated_blake3_key_is_a_password() {
    let keys = process_generate(TextSignFormat::Blake3).unwrap();
    assert_eq!(keys.len(), 1);
    let p = String::from_utf8(keys[0].clone()).unwrap();
    assert_eq!(p.chars().count(), 32);
    assert!(p.chars().any(|c| UPPER.contains(c)));
    assert!(p.chars().any(|c| LOWER.contains(c)));
    assert!(p.chars().any(|c| DIGIT.contains(c)));
    assert!(p.chars().any(|c| SYMBOL.contains(c)));
}

#[test]
fn verify_with_any_key_refusals() {
    assert!(matches!(
        verify_with_any_key(b"hello", &[1u8; 4], "***", TextSignFormat::Blake3),
        Err(VerifyFailure::Signature(_))
    ));
    assert_eq!(
        verify_with_any_key(b"hello", &[1u8; 4], "AAAA", TextSignFormat::Blake3),
        Err(VerifyFailure::Key("key is shorter than 32 bytes".to_string()))
    );
    let key = [7u8; 32];
    let sig = process_sign(b"hello", &key, TextSignFormat::Blake3);
    assert_eq!(
        verify_with_any_key(b"hello", &key, &sig, TextSignFormat::Blake3),
        Ok(Some(true))
    );
}
