use cleverhans::sign::{parse_u64, signature_header, verify_signature, SignatureError, DEFAULT_SKEW_SECS, SIGNATURE_HEADER};

const KEY: &[u8] = b"test-signing-key";
const BODY: &[u8] = br#"{"kind":"execute","params":{}}"#;
const T: u64 = 1_700_000_000;

fn keys(list: &[&[u8]]) -> Vec<Vec<u8>> {
    list.iter().map(|k| k.to_vec()).collect()
}

#[test]
fn round_trips() {
    let header = signature_header(KEY, T, BODY);
    assert!(header.starts_with(&format!("t={T},v1=")));
    assert_eq!(verify_signature(&keys(&[KEY]), &header, BODY, T + 60, DEFAULT_SKEW_SECS), Ok(()));
}

#[test]
fn known_vector() {
    assert_eq!(
        signature_header(KEY, T, BODY),
        "t=1700000000,v1=54043b28f3ce9c05dd923645ca289ac7cee7910b87042a03b29677cef8ffdf50"
    );
}

#[test]
fn rejects_tampered_body_wrong_key_and_stale_timestamp() {
    let header = signature_header(KEY, T, BODY);
    assert_eq!(
        verify_signature(&keys(&[KEY]), &header, br#"{"kind":"execute","params":{"x":1}}"#, T, DEFAULT_SKEW_SECS),
        Err(SignatureError::Mismatch)
    );
    assert_eq!(
        verify_signature(&keys(&[b"other-key".as_slice()]), &header, BODY, T, DEFAULT_SKEW_SECS),
        Err(SignatureError::Mismatch)
    );
    assert_eq!(
        verify_signature(&keys(&[KEY]), &header, BODY, T + 301, DEFAULT_SKEW_SECS),
        Err(SignatureError::Expired)
    );
    assert_eq!(verify_signature(&keys(&[KEY]), "v1=abcd", BODY, T, DEFAULT_SKEW_SECS), Err(SignatureError::Malformed));
}

#[test]
fn rotation_grace_accepts_either_key() {
    let header = signature_header(KEY, T, BODY);
    assert_eq!(
        verify_signature(&keys(&[b"new-key".as_slice(), KEY]), &header, BODY, T, DEFAULT_SKEW_SECS),
        Ok(())
    );
}

#[test]
fn the_skew_window_is_inclusive_on_both_sides() {
    let header = signature_header(KEY, T, BODY);
    assert_eq!(verify_signature(&keys(&[KEY]), &header, BODY, T + 300, DEFAULT_SKEW_SECS), Ok(()));
    assert_eq!(verify_signature(&keys(&[KEY]), &header, BODY, T - 300, DEFAULT_SKEW_SECS), Ok(()));
    assert_eq!(verify_signature(&keys(&[KEY]), &header, BODY, T - 301, DEFAULT_SKEW_SECS), Err(SignatureError::Expired));
}

#[test]
fn no_keys_means_mismatch() {
    let header = signature_header(KEY, T, BODY);
    assert_eq!(verify_signature(&Vec::new(), &header, BODY, T, DEFAULT_SKEW_SECS), Err(SignatureError::Mismatch));
}

#[test]
fn header_with_spaces_and_reordered_fields_still_verifies() {
    let header = signature_header(KEY, T, BODY);
    let sig = header.split(",v1=").nth(1).unwrap().to_owned();
    let reordered = format!(" v1={sig} , t={T} ");
    assert_eq!(verify_signature(&keys(&[KEY]), &reordered, BODY, T, DEFAULT_SKEW_SECS), Ok(()));
}

#[test]
fn error_messages_and_header_name() {
    assert_eq!(SignatureError::Malformed.message(), "malformed signature header");
    assert_eq!(SignatureError::Expired.message(), "signature timestamp outside the skew window");
    assert_eq!(SignatureError::Mismatch.message(), "signature does not match the body");
    assert_eq!(SIGNATURE_HEADER, "x-cleverhans-signature");
}

#[test]
fn parses_decimal_timestamps_only() {
    assert_eq!(parse_u64("1700000000"), Some(1_700_000_000));
    assert_eq!(parse_u64("18446744073709551615"), Some(u64::MAX));
    assert_eq!(parse_u64("18446744073709551616"), None);
    assert_eq!(parse_u64(""), None);
    assert_eq!(parse_u64("12a"), None);
    assert_eq!(parse_u64("+1"), Some(1));
    assert_eq!(parse_u64("-1"), None);
}
