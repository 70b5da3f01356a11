use aes_gcm::aead::Aead;
use aes_gcm::KeyInit;
use base64::Engine;
use trace_diary::envelope::{parse_envelope, render_envelope, EncryptedPayload};
use trace_diary::codec::fits_base64;
use trace_diary::encryption::{
    decrypt_payload, decrypt_text, encrypt_payload, encrypt_text, encrypt_text_with_nonce,
    judge_opening, CryptoError,
};
use trace_diary::password::{
    derive_master_key_from_decoded_salt, derive_master_key_from_salt,
    derive_master_key_new_salt, derive_master_key_with_salt, hash_password,
    hash_password_with_salt, judge_password, judge_verification, validate_password,
    verify_password, HashError, KdfError, PolicyViolation, VerifyError,
};

#[test]
fn encrypt_decrypt_roundtrip() {
    let key = [7u8; 32];
    let plaintext = "hello\nworld";

    let encrypted = encrypt_text(&key, plaintext).unwrap();
    let decrypted = decrypt_text(&key, &encrypted).unwrap();

    assert_eq!(decrypted, plaintext);
}

#[test]
fn validate_password_rules() {
    assert!(validate_password("1234567").is_err());
    assert!(validate_password("abcdefgh").is_err());
    assert!(validate_password("abcd1234").is_ok());
}

#[test]
fn password_hash_verify_roundtrip() {
    let pw = "abcd1234";
    let hash = hash_password(pw).unwrap();
    verify_password(pw, &hash).unwrap();
    assert!(verify_password("wrong1234", &hash).is_err());
}

#[test]
fn derive_key_is_stable_for_same_salt() {
    let pw = "abcd1234";
    let (salt_b64, k1) = derive_master_key_new_salt(pw).unwrap();
    let k2 = derive_master_key_from_salt(pw, &salt_b64).unwrap();
    assert_eq!(k1, k2);
    assert_eq!(k1.len(), 32);
}

#[test]
fn policy_names_each_violation() {
    assert_eq!(validate_password(""), Err(PolicyViolation::TooShort));
    assert_eq!(validate_password("a1"), Err(PolicyViolation::TooShort));
    assert_eq!(validate_password("12345678"), Err(PolicyViolation::MissingLetterOrDigit));
    assert_eq!(validate_password("abcdefgh"), Err(PolicyViolation::MissingLetterOrDigit));
    assert_eq!(validate_password("abcdefg1"), Ok(()));
}

#[test]
fn policy_counts_bytes_and_unicode_classes() {
    // three characters of three bytes each: nine bytes, one letter, one digit
    assert_eq!(validate_password("密码1"), Err(PolicyViolation::TooShort));
    assert_eq!(validate_password("密码密1"), Ok(()));
    // an Arabic-Indic digit is numeric
    assert_eq!(validate_password("abcdefg\u{0663}"), Ok(()));
}

#[test]
fn envelope_with_fixed_nonce_is_exact() {
    let key = [0u8; 32];
    let nonce = [0u8; 12];
    let text = encrypt_text_with_nonce(&key, &nonce, "").unwrap();
    // AES-256-GCM of the empty message under the zero key and nonce is the
    // tag 530f8afbc74536b9a963b4f1c4cb738b.
    assert_eq!(
        text,
        "{\"v\":1,\"nonce_b64\":\"AAAAAAAAAAAAAAAA\",\"ciphertext_b64\":\"Uw+K+8dFNrmpY7TxxMtziw==\"}"
    );
    assert_eq!(decrypt_text(&key, &text), Ok(String::new()));
    let again = encrypt_text_with_nonce(&key, &nonce, "").unwrap();
    assert_eq!(again, text);
}

#[test]
fn encrypt_rejects_wrong_key_and_nonce_lengths() {
    assert_eq!(encrypt_text(&[1u8; 31], "x"), Err(CryptoError::InvalidKeyLength));
    assert_eq!(encrypt_text(&[1u8; 33], "x"), Err(CryptoError::InvalidKeyLength));
    assert_eq!(
        encrypt_text_with_nonce(&[1u8; 32], &[0u8; 11], "x"),
        Err(CryptoError::InvalidNonceLength)
    );
    assert_eq!(decrypt_text(&[1u8; 16], "{}"), Err(CryptoError::InvalidKeyLength));
}

#[test]
fn two_encryptions_differ_in_nonce_and_ciphertext() {
    let key = [9u8; 32];
    let a = encrypt_text(&key, "same text").unwrap();
    let b = encrypt_text(&key, "same text").unwrap();
    let pa = parse_envelope(&a).unwrap();
    let pb = parse_envelope(&b).unwrap();
    assert_ne!(pa.nonce_b64, pb.nonce_b64);
    assert_ne!(pa.ciphertext_b64, pb.ciphertext_b64);
    assert_eq!(decrypt_text(&key, &a).unwrap(), "same text");
    assert_eq!(decrypt_text(&key, &b).unwrap(), "same text");
}

#[test]
fn wrong_key_fails_authentication() {
    let text = encrypt_text(&[1u8; 32], "secret").unwrap();
    assert_eq!(decrypt_text(&[2u8; 32], &text), Err(CryptoError::DecryptionFailed));
}

#[test]
fn tampered_envelope_fails_authentication() {
    let key = [3u8; 32];
    let text = encrypt_text(&key, "tamper me").unwrap();
    let payload = parse_envelope(&text).unwrap();
    let engine = base64::engine::general_purpose::STANDARD;
    let nonce = engine.decode(&payload.nonce_b64).unwrap();
    let sealed = engine.decode(&payload.ciphertext_b64).unwrap();
    for i in 0..sealed.len() {
        let mut changed = sealed.clone();
        changed[i] ^= 0x01;
        let forged = render_envelope(&EncryptedPayload {
            v: 1,
            nonce_b64: payload.nonce_b64.clone(),
            ciphertext_b64: engine.encode(&changed),
        }).unwrap();
        assert_eq!(decrypt_text(&key, &forged), Err(CryptoError::DecryptionFailed));
    }
    for i in 0..nonce.len() {
        let mut changed = nonce.clone();
        changed[i] ^= 0x80;
        let forged = render_envelope(&EncryptedPayload {
            v: 1,
            nonce_b64: engine.encode(&changed),
            ciphertext_b64: payload.ciphertext_b64.clone(),
        }).unwrap();
        assert_eq!(decrypt_text(&key, &forged), Err(CryptoError::DecryptionFailed));
    }
}

#[test]
fn decrypt_names_each_failure() {
    let key = [5u8; 32];
    let engine = base64::engine::general_purpose::STANDARD;
    let good = encrypt_text(&key, "ok").unwrap();
    let payload = parse_envelope(&good).unwrap();
    let with = |v: u8, nonce: &str, sealed: &str| {
        render_envelope(&EncryptedPayload {
            v,
            nonce_b64: nonce.to_string(),
            ciphertext_b64: sealed.to_string(),
        }).unwrap()
    };
    assert_eq!(decrypt_text(&key, "not json"), Err(CryptoError::MalformedEnvelope));
    assert_eq!(decrypt_text(&key, ""), Err(CryptoError::MalformedEnvelope));
    assert_eq!(
        decrypt_text(&key, &with(2, &payload.nonce_b64, &payload.ciphertext_b64)),
        Err(CryptoError::UnsupportedVersion)
    );
    assert_eq!(
        decrypt_text(&key, &with(1, "***", &payload.ciphertext_b64)),
        Err(CryptoError::MalformedNonce)
    );
    assert_eq!(
        decrypt_text(&key, &with(1, &engine.encode([0u8; 11]), &payload.ciphertext_b64)),
        Err(CryptoError::InvalidNonceLength)
    );
    assert_eq!(
        decrypt_text(&key, &with(1, &payload.nonce_b64, "%%%")),
        Err(CryptoError::MalformedCiphertext)
    );
    assert_eq!(
        decrypt_text(&key, &with(1, &payload.nonce_b64, &engine.encode([0u8; 4]))),
        Err(CryptoError::DecryptionFailed)
    );
}

#[test]
fn decrypted_bytes_must_be_utf8() {
    let key = [6u8; 32];
    let nonce = [1u8; 12];
    let cipher = aes_gcm::Aes256Gcm::new_from_slice(&key).unwrap();
    let sealed = cipher
        .encrypt(aes_gcm::Nonce::from_slice(&nonce), &[0xffu8, 0xfe, 0xfd][..])
        .unwrap();
    let engine = base64::engine::general_purpose::STANDARD;
    let text = render_envelope(&EncryptedPayload {
        v: 1,
        nonce_b64: engine.encode(nonce),
        ciphertext_b64: engine.encode(sealed),
    }).unwrap();
    assert_eq!(decrypt_text(&key, &text), Err(CryptoError::InvalidUtf8));
}

#[test]
fn hash_is_a_phc_string_that_carries_its_salt() {
    let salt = [7u8; 16];
    let a = hash_password_with_salt("abcd1234", &salt).unwrap();
    let b = hash_password_with_salt("abcd1234", &salt).unwrap();
    assert_eq!(a, b);
    assert!(a.starts_with("$argon2id$v=19$m=19456,t=2,p=1$BwcHBwcHBwcHBwcHBwcHBw$"));
    assert_eq!(verify_password("abcd1234", &a), Ok(()));
    assert_eq!(verify_password("abcd1235", &a), Err(VerifyError::Mismatch));
    assert_eq!(hash_password_with_salt("abcd1234", &[1u8; 7]), Err(HashError::SaltTooShort));
    assert_eq!(hash_password_with_salt("abcd1234", &[1u8; 2]), Err(HashError::SaltTooShort));
    assert_eq!(hash_password_with_salt("abcd1234", &[1u8; 49]), Err(HashError::Hasher));
}

#[test]
fn malformed_hash_is_told_from_mismatch() {
    assert_eq!(verify_password("abcd1234", ""), Err(VerifyError::MalformedHash));
    assert_eq!(verify_password("abcd1234", "not a hash"), Err(VerifyError::MalformedHash));
    let hash = hash_password("abcd1234").unwrap();
    assert_eq!(verify_password("abcd12345", &hash), Err(VerifyError::Mismatch));
}

#[test]
fn two_hashes_of_one_password_differ() {
    let a = hash_password("abcd1234").unwrap();
    let b = hash_password("abcd1234").unwrap();
    assert_ne!(a, b);
    assert_eq!(verify_password("abcd1234", &a), Ok(()));
    assert_eq!(verify_password("abcd1234", &b), Ok(()));
}

#[test]
fn derive_from_salt_is_deterministic_and_salt_sensitive() {
    let engine = base64::engine::general_purpose::STANDARD;
    let salt = engine.encode([3u8; 16]);
    let k1 = derive_master_key_from_salt("abcd1234", &salt).unwrap();
    let k2 = derive_master_key_from_salt("abcd1234", &salt).unwrap();
    assert_eq!(k1, k2);
    assert_eq!(k1.len(), 32);
    let other = derive_master_key_from_salt("abcd1234", &engine.encode([4u8; 16])).unwrap();
    assert_ne!(k1, other);
    assert_eq!(derive_master_key_from_salt("abcd1234", "@@"), Err(KdfError::MalformedSalt));
    assert_eq!(
        derive_master_key_from_salt("abcd1234", &engine.encode([4u8; 4])),
        Err(KdfError::DerivationFailed)
    );
}

#[test]
fn derive_new_draws_fresh_salts() {
    let (s1, k1) = derive_master_key_new_salt("abcd1234").unwrap();
    let (s2, k2) = derive_master_key_new_salt("abcd1234").unwrap();
    assert_ne!(s1, s2);
    assert_ne!(k1, k2);
    let engine = base64::engine::general_purpose::STANDARD;
    assert_eq!(engine.decode(&s1).unwrap().len(), 16);
}

#[test]
fn payload_with_fixed_nonce_is_exact() {
    let key = [0u8; 32];
    let nonce = [0u8; 12];
    let payload = encrypt_payload(&key, &nonce, "").unwrap();
    assert_eq!(
        payload,
        EncryptedPayload {
            v: 1,
            nonce_b64: "AAAAAAAAAAAAAAAA".to_string(),
            ciphertext_b64: "Uw+K+8dFNrmpY7TxxMtziw==".to_string(),
        }
    );
    assert_eq!(decrypt_payload(&key, &payload), Ok(String::new()));
    assert_eq!(decrypt_payload(&[0u8; 31], &payload), Err(CryptoError::InvalidKeyLength));
    let newer = EncryptedPayload { v: 2, ..payload.clone() };
    assert_eq!(decrypt_payload(&key, &newer), Err(CryptoError::UnsupportedVersion));
}

#[test]
fn payload_round_trip_keeps_unicode_text() {
    let key = [8u8; 32];
    let nonce = [3u8; 12];
    let text = "今天\n天气很好 \u{1f600} \"quoted\" \\ end";
    let payload = encrypt_payload(&key, &nonce, text).unwrap();
    // sixteen bytes of tag follow the encrypted bytes
    let sealed = base64::engine::general_purpose::STANDARD.decode(&payload.ciphertext_b64).unwrap();
    assert_eq!(sealed.len(), text.len() + 16);
    assert_eq!(decrypt_payload(&key, &payload).unwrap(), text);
    let envelope = encrypt_text_with_nonce(&key, &nonce, text).unwrap();
    assert_eq!(parse_envelope(&envelope), Some(payload));
    assert_eq!(decrypt_text(&key, &envelope).unwrap(), text);
}

#[test]
fn base64_fields_have_the_stated_shape() {
    let key = [2u8; 32];
    let nonce = [9u8; 12];
    let in_alphabet =
        |c: char| c.is_ascii_alphanumeric() || c == '+' || c == '/' || c == '=';
    for len in 0..70usize {
        let plaintext = "x".repeat(len);
        let payload = encrypt_payload(&key, &nonce, &plaintext).unwrap();
        assert_eq!(payload.nonce_b64, "CQkJCQkJCQkJCQkJ");
        assert_eq!(payload.ciphertext_b64.len(), (len + 16 + 2) / 3 * 4);
        assert!(payload.ciphertext_b64.chars().all(in_alphabet));
        assert_eq!(decrypt_payload(&key, &payload).unwrap(), plaintext);
    }
}

#[test]
fn policy_is_judged_from_length_letter_and_digit() {
    assert_eq!(judge_password(7, true, true), Err(PolicyViolation::TooShort));
    assert_eq!(judge_password(0, false, false), Err(PolicyViolation::TooShort));
    assert_eq!(judge_password(8, true, false), Err(PolicyViolation::MissingLetterOrDigit));
    assert_eq!(judge_password(8, false, true), Err(PolicyViolation::MissingLetterOrDigit));
    assert_eq!(judge_password(100, false, false), Err(PolicyViolation::MissingLetterOrDigit));
    assert_eq!(judge_password(8, true, true), Ok(()));
    assert_eq!(judge_password(usize::MAX, true, true), Ok(()));
}

#[test]
fn ascii_letters_and_digits_are_the_ascii_classes() {
    for u in 0..0x80u32 {
        let c = char::from_u32(u).unwrap();
        assert_eq!(c.is_alphabetic(), c.is_ascii_alphabetic(), "{:?}", c);
        assert_eq!(c.is_numeric(), c.is_ascii_digit(), "{:?}", c);
        // seven of the character and one of the other class
        let with_digit = format!("{}1", c.to_string().repeat(7));
        let with_letter = format!("{}a", c.to_string().repeat(7));
        assert_eq!(validate_password(&with_digit).is_ok(), c.is_ascii_alphabetic());
        assert_eq!(validate_password(&with_letter).is_ok(), c.is_ascii_digit());
    }
}

#[test]
fn verification_is_judged_from_its_two_answers() {
    assert_eq!(judge_verification(false, false), Err(VerifyError::MalformedHash));
    assert_eq!(judge_verification(false, true), Err(VerifyError::MalformedHash));
    assert_eq!(judge_verification(true, false), Err(VerifyError::Mismatch));
    assert_eq!(judge_verification(true, true), Ok(()));
}

#[test]
fn opening_is_judged_from_the_answers_in_order() {
    let nonce = Some(vec![0u8; 12]);
    let short = Some(vec![0u8; 11]);
    let sealed = Some(vec![0u8; 20]);
    let text = Some("ok".as_bytes().to_vec());
    assert_eq!(judge_opening(32, 1, &nonce, &sealed, text.clone()), Ok("ok".to_string()));
    assert_eq!(judge_opening(32, 1, &nonce, &sealed, Some(vec![])), Ok(String::new()));
    assert_eq!(
        judge_opening(31, 2, &None, &None, None),
        Err(CryptoError::InvalidKeyLength)
    );
    assert_eq!(
        judge_opening(32, 2, &None, &None, None),
        Err(CryptoError::UnsupportedVersion)
    );
    assert_eq!(judge_opening(32, 0, &nonce, &sealed, text.clone()), Err(CryptoError::UnsupportedVersion));
    assert_eq!(judge_opening(32, 1, &None, &None, None), Err(CryptoError::MalformedNonce));
    assert_eq!(judge_opening(32, 1, &short, &None, None), Err(CryptoError::InvalidNonceLength));
    assert_eq!(judge_opening(32, 1, &nonce, &None, None), Err(CryptoError::MalformedCiphertext));
    assert_eq!(judge_opening(32, 1, &nonce, &sealed, None), Err(CryptoError::DecryptionFailed));
    assert_eq!(
        judge_opening(32, 1, &nonce, &sealed, Some(vec![0xff])),
        Err(CryptoError::InvalidUtf8)
    );
}

#[test]
fn derive_with_salt_writes_that_salt() {
    let (salt_b64, key) = derive_master_key_with_salt("abcd1234", &[3u8; 16]).unwrap();
    assert_eq!(salt_b64, "AwMDAwMDAwMDAwMDAwMDAw==");
    assert_eq!(key.len(), 32);
    assert_eq!(derive_master_key_from_salt("abcd1234", &salt_b64), Ok(key.clone()));
    assert_eq!(derive_master_key_from_decoded_salt("abcd1234", Some(&[3u8; 16])), Ok(key.clone()));
    let again = derive_master_key_with_salt("abcd1234", &[3u8; 16]).unwrap();
    assert_eq!(again, (salt_b64, key.clone()));
    let (other_salt, other_key) = derive_master_key_with_salt("abcd1234", &[4u8; 16]).unwrap();
    assert_eq!(other_salt, "BAQEBAQEBAQEBAQEBAQEBA==");
    assert_ne!(other_key, key);
    assert_eq!(
        derive_master_key_with_salt("abcd1234", &[1u8; 7]),
        Err(KdfError::DerivationFailed)
    );
    assert_eq!(
        derive_master_key_from_decoded_salt("abcd1234", None),
        Err(KdfError::MalformedSalt)
    );
    assert_eq!(
        derive_master_key_from_decoded_salt("abcd1234", Some(&[1u8; 7])),
        Err(KdfError::DerivationFailed)
    );
}

#[test]
fn derive_new_returns_the_base64_of_its_own_salt() {
    let (s1, k1) = derive_master_key_new_salt("abcd1234").unwrap();
    let (s2, k2) = derive_master_key_new_salt("abcd1234").unwrap();
    assert_ne!(s1, s2);
    let engine = base64::engine::general_purpose::STANDARD;
    let salt1 = engine.decode(&s1).unwrap();
    let salt2 = engine.decode(&s2).unwrap();
    assert_eq!((salt1.len(), salt2.len()), (16, 16));
    assert_eq!(derive_master_key_with_salt("abcd1234", &salt1), Ok((s1, k1)));
    assert_eq!(derive_master_key_with_salt("abcd1234", &salt2), Ok((s2, k2)));
}

#[test]
fn base64_text_fits_up_to_the_allocation_limit() {
    assert!(fits_base64(0));
    assert!(fits_base64(48));
    let most = (isize::MAX as usize - 4) / 4 * 3 + 2;
    assert!(fits_base64(most));
    assert!(!fits_base64(most + 1));
    assert!(!fits_base64(isize::MAX as usize));
    assert!(!fits_base64(usize::MAX));
}

#[test]
fn payload_fields_decode_to_nonce_and_tagged_bytes() {
    let key = [1u8; 32];
    let nonce: Vec<u8> = (100u8..112).collect();
    let engine = base64::engine::general_purpose::STANDARD;
    for text in ["", "a", "hello world", "多字节"] {
        let payload = encrypt_payload(&key, &nonce, text).unwrap();
        assert_eq!(engine.decode(&payload.nonce_b64).unwrap(), nonce);
        assert_eq!(engine.decode(&payload.ciphertext_b64).unwrap().len(), text.len() + 16);
    }
}
