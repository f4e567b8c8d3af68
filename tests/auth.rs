use bookmarker::auth::{decode_hex, verify, VerificationFailure};
use ed25519_dalek::{Signer, SigningKey};

fn key() -> SigningKey {
    SigningKey::from_bytes(&[7u8; 32])
}

fn sign(ts: &str, body: &[u8]) -> String {
    let mut msg = ts.as_bytes().to_vec();
    msg.extend_from_slice(body);
    hex::encode(key().sign(&msg).to_bytes())
}

fn public() -> String {
    hex::encode(key().verifying_key().to_bytes())
}

#[test]
fn hex_decodes_both_cases() {
    assert_eq!(decode_hex("00ffA0"), Some(vec![0, 255, 160]));
    assert_eq!(decode_hex(""), Some(vec![]));
    assert_eq!(decode_hex("abc"), None);
    assert_eq!(decode_hex("zz"), None);
}

#[test]
fn valid_signature_is_accepted() {
    let body = br#"{"type":1}"#;
    let sig = sign("1700000000", body);
    assert_eq!(verify(body, &sig, "1700000000", &public()), Ok(()));
}

#[test]
fn altered_body_is_rejected_for_several_sizes() {
    for n in [0usize, 1, 64, 1000, 10000] {
        let body = vec![b'a'; n];
        let sig = sign("1700000000", &body);
        assert_eq!(verify(&body, &sig, "1700000000", &public()), Ok(()));
        let mut altered = body.clone();
        if n == 0 {
            altered.push(b'x');
        } else {
            altered[n / 2] = b'b';
        }
        assert_eq!(
            verify(&altered, &sig, "1700000000", &public()),
            Err(VerificationFailure::BadSignature)
        );
    }
}

#[test]
fn other_timestamp_is_rejected() {
    let body = b"payload";
    let sig = sign("1700000000", body);
    assert_eq!(verify(body, &sig, "1700000001", &public()), Err(VerificationFailure::BadSignature));
}

#[test]
fn malformed_inputs_are_reported() {
    let body = b"payload";
    let sig = sign("1", body);
    assert_eq!(verify(body, "", "1", &public()), Err(VerificationFailure::MalformedInput));
    assert_eq!(verify(body, &sig, "", &public()), Err(VerificationFailure::MalformedInput));
    assert_eq!(verify(body, &sig[..126], "1", &public()), Err(VerificationFailure::MalformedInput));
    let bad = format!("zz{}", &sig[2..]);
    assert_eq!(verify(body, &bad, "1", &public()), Err(VerificationFailure::MalformedInput));
    assert_eq!(verify(body, &sig, "1", "00"), Err(VerificationFailure::MalformedInput));
}
