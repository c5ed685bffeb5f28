use xpc::codec::Value;
use xpc::envelope::Envelope;
use xpc::envelope::build_message_dictionary;
use xpc::envelope::r_data_key_bytes;
use xpc::envelope::retrieve_r_data;
use xpc::error::ConnectionError;
use xpc::options::ConnectionOptions;
use xpc::utils::NSOperatingSystemVersion;
use xpc::utils::OsFamily;

#[test]
fn at_least_mac_thresholds() {
    let v = NSOperatingSystemVersion::new(10, 15, 1, OsFamily::Mac);
    assert!(v.at_least((10, 12), (10, 0)));
    let older = NSOperatingSystemVersion::new(10, 11, 9, OsFamily::Mac);
    assert!(!older.at_least((10, 12), (10, 0)));
}

#[test]
fn at_least_compares_lexicographically_and_ignores_patch() {
    let v = NSOperatingSystemVersion::new(11, 0, 0, OsFamily::Mac);
    assert!(v.at_least((10, 15), (14, 0)));
    let exact = NSOperatingSystemVersion::new(10, 12, 0, OsFamily::Mac);
    assert!(exact.at_least((10, 12), (10, 0)));
    let patched = NSOperatingSystemVersion::new(10, 11, 99, OsFamily::Mac);
    assert!(!patched.at_least((10, 12), (10, 0)));
}

#[test]
fn at_least_uses_the_alternate_threshold_off_mac() {
    let v = NSOperatingSystemVersion::new(13, 2, 0, OsFamily::Ios);
    assert!(v.at_least((99, 0), (13, 0)));
    assert!(!v.at_least((10, 0), (14, 0)));
}

#[test]
fn privileged_is_a_noop_under_listener() {
    let combined = ConnectionOptions::listener().union(ConnectionOptions::privileged());
    let alone = ConnectionOptions::listener();
    assert_eq!(combined.to_effective_bits(), alone.to_effective_bits());
}

#[test]
fn privileged_alone_is_kept() {
    let p = ConnectionOptions::privileged();
    assert_eq!(p.to_effective_bits(), p.bits);
    assert_ne!(p.to_effective_bits(), ConnectionOptions::empty().bits);
}

#[test]
fn envelope_carries_the_message_under_the_payload_key() {
    let v = Value::Dict(vec![(b"op".to_vec(), Value::Text(b"ping".to_vec()))]);
    let env = build_message_dictionary(&v);
    assert_eq!(env.entries.len(), 1);
    assert_eq!(env.entries[0].0, b"R_DATA".to_vec());
    assert_eq!(retrieve_r_data(&env).unwrap(), v);
}

#[test]
fn envelope_without_payload_field_fails_decoding() {
    let mut env = Envelope::new();
    env.insert(b"other".to_vec(), b"t".to_vec());
    assert_eq!(retrieve_r_data(&env), Err(ConnectionError::DecodingFailed));
}

#[test]
fn envelope_with_malformed_payload_fails_decoding() {
    let mut env = Envelope::new();
    env.insert(r_data_key_bytes(), b"garbage".to_vec());
    assert_eq!(retrieve_r_data(&env), Err(ConnectionError::DecodingFailed));
}

#[test]
fn envelope_payload_is_found_among_other_fields() {
    let mut env = Envelope::new();
    env.insert(b"first".to_vec(), b"x".to_vec());
    env.insert(r_data_key_bytes(), b"t".to_vec());
    assert_eq!(retrieve_r_data(&env).unwrap(), Value::Bool(true));
}
