use lnsig::signature::{
    check_lightning_signature, lightning_message_hash, verify_lightning_signature, zbase32_decode,
    VerifyError,
};
use sha2::Digest;

/// zbase32 encoding, as a signer would produce it: 5 bits per symbol,
/// most significant first, the last symbol padded with zero bits.
fn zbase32_encode(data: &[u8]) -> String {
    let alphabet: &[u8; 32] = b"ybndrfg8ejkmcpqxot1uwisza345h769";
    let mut bits: u64 = 0;
    let mut num_bits: u32 = 0;
    let mut out = String::new();
    for &byte in data {
        bits = (bits << 8) | byte as u64;
        num_bits += 8;
        while num_bits >= 5 {
            num_bits -= 5;
            out.push(alphabet[((bits >> num_bits) & 31) as usize] as char);
        }
    }
    if num_bits > 0 {
        out.push(alphabet[((bits << (5 - num_bits)) & 31) as usize] as char);
    }
    out
}

/// A fixed signer: secret key, and the signature blob for a message.
fn test_secret_key() -> secp256k1::SecretKey {
    let mut sk_bytes = [0u8; 32];
    for (i, b) in sk_bytes.iter_mut().enumerate() {
        *b = (i as u8) * 7 + 1;
    }
    secp256k1::SecretKey::from_byte_array(sk_bytes).expect("valid secret key")
}

/// Signs `msg` under the Lightning convention and returns the 65-byte
/// blob (marker = recovery id + 31, then compact r ‖ s).
fn sign_blob(msg: &[u8], sk: &secp256k1::SecretKey) -> Vec<u8> {
    let digest = lightning_message_hash(msg);
    let mut d = [0u8; 32];
    d.copy_from_slice(&digest);
    let m = secp256k1::Message::from_digest(d);
    let sig = secp256k1::ecdsa::RecoverableSignature::sign_ecdsa_recoverable(m, sk);
    let (recid, compact) = sig.serialize_compact();
    let mut blob = vec![recid.to_u8() + 31];
    blob.extend_from_slice(&compact);
    blob
}

fn pubkey_hex(sk: &secp256k1::SecretKey) -> String {
    hex::encode(secp256k1::PublicKey::from_secret_key(sk).serialize())
}

#[test]
fn zbase32_roundtrip_known() {
    // "yy" decodes to [0, 0] in zbase32
    let decoded = zbase32_decode("yy").unwrap();
    assert_eq!(decoded, vec![0]);
}

#[test]
fn bad_zbase32_returns_none() {
    assert!(zbase32_decode("!!!").is_none());
}

#[test]
fn lightning_hash_is_double_sha256() {
    let msg = b"test";
    let hash = lightning_message_hash(msg);
    // Manually compute: SHA256(SHA256("Lightning Signed Message:" || "test"))
    let mut h1 = sha2::Sha256::new();
    h1.update(b"Lightning Signed Message:");
    h1.update(b"test");
    let first = h1.finalize();
    let mut h2 = sha2::Sha256::new();
    h2.update(&first);
    let expected = h2.finalize();
    assert_eq!(hash.as_slice(), expected.as_slice());
}

#[test]
fn decode_empty_is_empty() {
    assert_eq!(zbase32_decode("").unwrap(), Vec::<u8>::new());
}

#[test]
fn decode_no_partial_result() {
    // A bad character invalidates the whole string, wherever it stands.
    assert!(zbase32_decode("yy!").is_none());
    assert!(zbase32_decode("!yy").is_none());
    assert!(zbase32_decode("y y").is_none());
    // Uppercase is outside the alphabet: no case folding.
    assert!(zbase32_decode("YY").is_none());
}

#[test]
fn encode_decode_roundtrip() {
    let data: Vec<u8> = (0u8..65).map(|i| i.wrapping_mul(37).wrapping_add(5)).collect();
    assert_eq!(zbase32_decode(&zbase32_encode(&data)).unwrap(), data);
}

#[test]
fn sign_and_verify_roundtrip() {
    let sk = test_secret_key();
    let pk_hex = pubkey_hex(&sk);
    for msg in [
        b"hello world".as_slice(),
        b"".as_slice(),
        b"conduit listing 0123456789abcdef".as_slice(),
    ] {
        let blob = sign_blob(msg, &sk);
        assert_eq!(blob.len(), 65);
        let encoded = zbase32_encode(&blob);
        assert_eq!(check_lightning_signature(msg, &encoded, &pk_hex), Ok(()));
        assert!(verify_lightning_signature(msg, &encoded, &pk_hex));
    }
}

#[test]
fn mutated_message_rejects() {
    let sk = test_secret_key();
    let pk_hex = pubkey_hex(&sk);
    let msg = b"attack at dawn";
    let encoded = zbase32_encode(&sign_blob(msg, &sk));
    assert!(verify_lightning_signature(msg, &encoded, &pk_hex));
    for byte in 0..msg.len() {
        for bit in 0..8 {
            let mut mutated = msg.to_vec();
            mutated[byte] ^= 1 << bit;
            assert!(!verify_lightning_signature(&mutated, &encoded, &pk_hex));
        }
    }
}

#[test]
fn mutated_signature_rejects() {
    let sk = test_secret_key();
    let pk_hex = pubkey_hex(&sk);
    let msg = b"attack at dawn";
    let blob = sign_blob(msg, &sk);
    for byte in 0..blob.len() {
        // One bit per byte keeps the test fast; the bit index varies.
        let bit = byte % 8;
        let mut mutated = blob.clone();
        mutated[byte] ^= 1 << bit;
        assert!(!verify_lightning_signature(msg, &zbase32_encode(&mutated), &pk_hex));
    }
}

#[test]
fn mutated_pubkey_rejects() {
    let sk = test_secret_key();
    let pk_hex = pubkey_hex(&sk);
    let msg = b"attack at dawn";
    let encoded = zbase32_encode(&sign_blob(msg, &sk));
    let bytes = pk_hex.as_bytes();
    for pos in 0..bytes.len() {
        let mut mutated = bytes.to_vec();
        mutated[pos] = if mutated[pos] == b'0' { b'1' } else { b'0' };
        let mutated = String::from_utf8(mutated).unwrap();
        assert!(!verify_lightning_signature(msg, &encoded, &mutated));
    }
}

#[test]
fn truncated_or_padded_signature_rejects() {
    let sk = test_secret_key();
    let pk_hex = pubkey_hex(&sk);
    let msg = b"sized just so";
    let blob = sign_blob(msg, &sk);
    for len in [0usize, 1, 64] {
        let shorter = &blob[..len];
        let encoded = zbase32_encode(shorter);
        assert_eq!(
            check_lightning_signature(msg, &encoded, &pk_hex),
            Err(VerifyError::Length)
        );
        assert!(!verify_lightning_signature(msg, &encoded, &pk_hex));
    }
    for pad in [1usize, 2, 65] {
        let mut longer = blob.clone();
        longer.extend(std::iter::repeat(0u8).take(pad));
        let encoded = zbase32_encode(&longer);
        assert_eq!(
            check_lightning_signature(msg, &encoded, &pk_hex),
            Err(VerifyError::Length)
        );
        assert!(!verify_lightning_signature(msg, &encoded, &pk_hex));
    }
}

#[test]
fn rejection_reasons_are_distinguished() {
    let sk = test_secret_key();
    let pk_hex = pubkey_hex(&sk);
    let msg = b"why did it fail";

    // A character outside the alphabet.
    assert_eq!(
        check_lightning_signature(msg, "!!!", &pk_hex),
        Err(VerifyError::Encoding)
    );

    // Decodes, but not to 65 bytes.
    assert_eq!(
        check_lightning_signature(msg, "yy", &pk_hex),
        Err(VerifyError::Length)
    );

    // Marker byte out of range: 30 and 35 just miss {31, ..., 34}.
    for marker in [0u8, 27, 30, 35, 255] {
        let mut blob = vec![marker];
        blob.extend_from_slice(&[1u8; 64]);
        assert_eq!(
            check_lightning_signature(msg, &zbase32_encode(&blob), &pk_hex),
            Err(VerifyError::RecoveryId)
        );
    }

    // Scalar r overflows the curve order: the compact pair is unusable.
    let mut blob = vec![31u8];
    blob.extend_from_slice(&[0xffu8; 64]);
    assert_eq!(
        check_lightning_signature(msg, &zbase32_encode(&blob), &pk_hex),
        Err(VerifyError::SignatureShape)
    );

    // r = 0 parses but no public key can be recovered from it.
    let mut blob = vec![31u8];
    blob.extend_from_slice(&[0u8; 63]);
    blob.push(1u8);
    assert_eq!(
        check_lightning_signature(msg, &zbase32_encode(&blob), &pk_hex),
        Err(VerifyError::RecoveryFailure)
    );

    // A valid signature from one key checked against another key.
    let other_sk = secp256k1::SecretKey::from_byte_array([0x42u8; 32]).unwrap();
    let encoded = zbase32_encode(&sign_blob(msg, &sk));
    assert_eq!(
        check_lightning_signature(msg, &encoded, &pubkey_hex(&other_sk)),
        Err(VerifyError::Mismatch)
    );
    assert_eq!(check_lightning_signature(msg, &encoded, &pk_hex), Ok(()));
}

#[test]
fn hostile_inputs_return_false() {
    // Zero-length message, zero-length signature, all-garbage signature:
    // each returns a clean false.
    assert!(!verify_lightning_signature(b"", "", ""));
    assert!(!verify_lightning_signature(b"msg", "", "00"));
    assert!(!verify_lightning_signature(b"", "@@@@@@@@", "00"));
    let garbage: String = std::iter::repeat('!').take(1000).collect();
    assert!(!verify_lightning_signature(b"m", &garbage, "abcdef"));
    // Non-ASCII signature text.
    assert!(!verify_lightning_signature(b"m", "y\u{00e9}y", "abcdef"));
}

#[test]
fn repeated_calls_agree() {
    let sk = test_secret_key();
    let pk_hex = pubkey_hex(&sk);
    let msg = b"same in, same out";
    let encoded = zbase32_encode(&sign_blob(msg, &sk));
    let first = verify_lightning_signature(msg, &encoded, &pk_hex);
    for _ in 0..5 {
        assert_eq!(verify_lightning_signature(msg, &encoded, &pk_hex), first);
        assert_eq!(
            check_lightning_signature(msg, "!!!", &pk_hex),
            check_lightning_signature(msg, "!!!", &pk_hex)
        );
    }
    assert!(first);
}
