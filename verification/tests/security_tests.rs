use bution::security::noise::{check_plaintext, encode_frame, frame_length, NoiseError, MAX_FRAME};
use bution::security::{pairing_code, pairing_payload, uuid_text, validate_distinct_identity, NodeIdentity, SecurityError};

fn identity(seed: u8) -> NodeIdentity {
    NodeIdentity::from_secret(vec![seed; 32]).unwrap()
}

#[test]
fn identity_is_persistent_and_signatures_verify() {
    let first = identity(7);
    let signature = first.sign(b"pair me");
    let second = NodeIdentity::from_stored(&first.to_stored()).unwrap();
    assert_eq!(first.public_key(), second.public_key());
    NodeIdentity::verify(&second.public_key(), b"pair me", &signature).unwrap();
}

#[test]
fn pairing_code_is_symmetric_and_formatted() {
    let left = uuid::Uuid::new_v4().as_u128();
    let right = uuid::Uuid::new_v4().as_u128();
    let forward = pairing_code(left, "left-key", right, "right-key");
    let reverse = pairing_code(right, "right-key", left, "left-key");
    assert_eq!(forward, reverse);
    assert_eq!(forward.len(), 7);
    assert_eq!(forward.as_bytes()[3], b' ');
}

#[test]
fn modified_payload_fails_verification() {
    let identity = identity(9);
    let signature = identity.sign(b"accepted");
    assert!(NodeIdentity::verify(&identity.public_key(), b"rejected", &signature).is_err());
}

#[test]
fn identity_needs_exactly_thirty_two_bytes() {
    assert!(NodeIdentity::from_secret(vec![1; 31]).is_none());
    assert!(matches!(NodeIdentity::from_stored("not base64!"), Err(SecurityError::IdentityNotBase64)));
    assert!(matches!(NodeIdentity::from_stored("AAAA"), Err(SecurityError::IdentityLength)));
}

#[test]
fn verification_explains_what_is_wrong() {
    let signer = identity(3);
    let other = identity(4);
    let signature = signer.sign(b"x");
    assert_eq!(NodeIdentity::verify("***", b"x", &signature), Err(SecurityError::KeyNotBase64));
    assert_eq!(NodeIdentity::verify("AAAA", b"x", &signature), Err(SecurityError::KeyLength));
    assert_eq!(NodeIdentity::verify(&signer.public_key(), b"x", "***"), Err(SecurityError::SignatureNotBase64));
    assert_eq!(NodeIdentity::verify(&other.public_key(), b"x", &signature), Err(SecurityError::VerificationFailed));
    assert_ne!(signer.public_key(), signer.to_stored());
}

#[test]
fn uuid_text_is_hyphenated_lowercase() {
    let id = uuid::Uuid::new_v4();
    assert_eq!(uuid_text(id.as_u128()), id.to_string());
    assert_eq!(validate_distinct_identity(5, 5), Err(SecurityError::SelfPairing));
    assert_eq!(validate_distinct_identity(5, 6), Ok(()));
}

#[test]
fn pairing_payload_names_both_nodes_and_the_decision() {
    let payload = pairing_payload(1, 2, "accepted");
    let text = String::from_utf8(payload).unwrap();
    assert!(text.contains("accepted"));
    assert!(text.contains(&uuid_text(1)));
    assert!(text.contains(&uuid_text(2)));
}

#[test]
fn frames_carry_a_big_endian_length() {
    let frame = encode_frame(b"hello").unwrap();
    assert_eq!(&frame[..4], &[0, 0, 0, 5]);
    assert_eq!(&frame[4..], b"hello");
    assert_eq!(frame_length(&frame[..4]), Ok(5));
    assert_eq!(frame_length(&[0, 0, 0, 0]), Err(NoiseError::FrameLength));
    assert_eq!(frame_length(&[0, 1, 0, 0]), Err(NoiseError::FrameLength));
    assert!(encode_frame(&vec![0u8; MAX_FRAME + 1]).is_err());
    assert!(check_plaintext(MAX_FRAME).is_err());
    assert!(check_plaintext(10).is_ok());
}
