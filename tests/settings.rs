use twofa::json::JsonValue;
use twofa::otp::{create_code_with_twofa_settings, CodeError};
use twofa::settings::{
    create_twofa_settings, create_twofa_settings_with_input, encoding_from_name, hash_from_name,
    Encoding, HashFunction, SettingsError, TwofaSettings,
};

fn obj(members: Vec<(&str, JsonValue)>) -> Vec<(String, JsonValue)> {
    members.into_iter().map(|(k, v)| (k.to_string(), v)).collect()
}

fn s(t: &str) -> JsonValue {
    JsonValue::Str(t.to_string())
}

#[test]
fn input_defaults() {
    let t = create_twofa_settings_with_input(Some("S".to_string()), None, None, None).unwrap();
    assert_eq!(t.secret.as_deref(), Some("S"));
    assert_eq!(t.window, Some(30));
    assert_eq!(t.hash, Some(HashFunction::Sha512));
    assert_eq!(t.encoding, Some(Encoding::Base32));
}

#[test]
fn input_unknown_hash_rejected() {
    let r = create_twofa_settings_with_input(Some("S".to_string()), None, Some("md5"), None);
    assert!(matches!(r, Err(SettingsError::UnknownValue)));
}

#[test]
fn input_unknown_encoding_rejected() {
    let r = create_twofa_settings_with_input(Some("S".to_string()), None, None, Some("base64"));
    assert!(matches!(r, Err(SettingsError::UnknownValue)));
}

#[test]
fn input_missing_secret() {
    let r = create_twofa_settings_with_input(None, Some(30), Some("sha1"), Some("hex"));
    assert!(matches!(r, Err(SettingsError::MissingSecret)));
}

#[test]
fn input_window_too_large() {
    let r = create_twofa_settings_with_input(Some("S".to_string()), Some(1 << 32), None, None);
    assert!(matches!(r, Err(SettingsError::MismatchedType)));
}

#[test]
fn input_all_given() {
    let t = create_twofa_settings_with_input(Some("K".to_string()), Some(60), Some("sha1"), Some("hex"))
        .unwrap();
    assert_eq!(t.window, Some(60));
    assert_eq!(t.hash, Some(HashFunction::Sha1));
    assert_eq!(t.encoding, Some(Encoding::Hex));
}

#[test]
fn names_map_both_ways() {
    assert_eq!(hash_from_name("sha256"), Some(HashFunction::Sha256));
    assert_eq!(hash_from_name("SHA256"), None);
    assert_eq!(encoding_from_name("ascii"), Some(Encoding::Ascii));
    assert_eq!(encoding_from_name(""), None);
}

#[test]
fn stored_round_trip() {
    let mut t = TwofaSettings::new();
    t.set_secret("ABC".to_string());
    t.set_window(Some(45));
    t.set_hash(Some(HashFunction::Sha256));
    t.set_encoding(Some(Encoding::Ascii));
    let e = match t.to_json() {
        JsonValue::Object(e) => e,
        _ => panic!("not an object"),
    };
    let back = create_twofa_settings(Some(e)).unwrap();
    assert_eq!(back.secret.as_deref(), Some("ABC"));
    assert_eq!(back.window, Some(45));
    assert_eq!(back.hash, Some(HashFunction::Sha256));
    assert_eq!(back.encoding, Some(Encoding::Ascii));
}

#[test]
fn to_json_writes_names() {
    let mut t = TwofaSettings::new();
    t.set_secret("X".to_string()).set_window(None).set_hash(None).set_encoding(None);
    let e = match t.to_json() {
        JsonValue::Object(e) => e,
        _ => panic!("not an object"),
    };
    let get = |k: &str| e.iter().find(|(n, _)| n == k).map(|(_, v)| v).unwrap();
    assert!(matches!(get("hash"), JsonValue::Str(h) if h == "sha512"));
    assert!(matches!(get("encoding"), JsonValue::Str(h) if h == "base32"));
    assert!(matches!(get("window"), JsonValue::Unsigned(30)));
    assert!(matches!(get("secret"), JsonValue::Str(h) if h == "X"));
}

#[test]
fn stored_no_data() {
    assert!(matches!(create_twofa_settings(None), Err(SettingsError::NoData)));
}

#[test]
fn stored_defaults_and_unknown_members() {
    let t = create_twofa_settings(Some(obj(vec![("secret", s("Q")), ("note", s("x"))]))).unwrap();
    assert_eq!(t.secret.as_deref(), Some("Q"));
    assert_eq!(t.window, Some(30));
    assert_eq!(t.hash, Some(HashFunction::Sha512));
    assert_eq!(t.encoding, Some(Encoding::Base32));
}

#[test]
fn stored_mismatched_secret() {
    let r = create_twofa_settings(Some(obj(vec![("secret", JsonValue::Unsigned(4))])));
    assert!(matches!(r, Err(SettingsError::MismatchedType)));
}

#[test]
fn stored_mismatched_window() {
    let r = create_twofa_settings(Some(obj(vec![("secret", s("Q")), ("window", s("30"))])));
    assert!(matches!(r, Err(SettingsError::MismatchedType)));
    let r = create_twofa_settings(Some(obj(vec![("secret", s("Q")), ("window", JsonValue::Signed(-1))])));
    assert!(matches!(r, Err(SettingsError::MismatchedType)));
}

#[test]
fn stored_unknown_hash() {
    let r = create_twofa_settings(Some(obj(vec![("secret", s("Q")), ("hash", s("md5"))])));
    assert!(matches!(r, Err(SettingsError::UnknownValue)));
    let r = create_twofa_settings(Some(obj(vec![("secret", s("Q")), ("encoding", JsonValue::Null)])));
    assert!(matches!(r, Err(SettingsError::UnknownValue)));
}

#[test]
fn stored_missing_secret() {
    let r = create_twofa_settings(Some(obj(vec![("window", JsonValue::Unsigned(30))])));
    assert!(matches!(r, Err(SettingsError::MissingSecret)));
}

#[test]
fn code_from_settings_is_six_digits() {
    let t = create_twofa_settings_with_input(Some("JBSWY3DPEHPK3PXP".to_string()), None, None, None)
        .unwrap();
    let c = create_code_with_twofa_settings(&t).unwrap();
    assert_eq!(c.len(), 6);
    assert!(c.chars().all(|ch| ch.is_ascii_digit()));
    assert_ne!(c, "JBSWY3DPEHPK3PXP");
}

#[test]
fn code_errors() {
    let t = TwofaSettings::new();
    assert!(matches!(create_code_with_twofa_settings(&t), Err(CodeError::MissingSecret)));
    let mut t = TwofaSettings::new();
    t.set_secret("abc".to_string());
    assert!(matches!(create_code_with_twofa_settings(&t), Err(CodeError::MissingEncoding)));
    t.set_encoding(Some(Encoding::Ascii));
    t.set_window(Some(0));
    assert!(matches!(create_code_with_twofa_settings(&t), Err(CodeError::InvalidParameters)));
    t.set_encoding(Some(Encoding::Hex));
    t.set_window(Some(30));
    t.set_secret("zz".to_string());
    assert!(matches!(create_code_with_twofa_settings(&t), Err(CodeError::InvalidParameters)));
}

#[test]
fn describe_settings_line() {
    let t = create_twofa_settings_with_input(Some("S".to_string()), None, None, None).unwrap();
    assert_eq!(t.describe(), "s: S; h: SHA512; w: 30; e: base32");
    let mut u = TwofaSettings::new();
    u.set_secret("K".to_string());
    u.set_hash(Some(HashFunction::Sha1));
    u.set_window(Some(4294967295));
    assert_eq!(u.describe(), "s: K; h: SHA1; w: 4294967295; e: undefined");
}

#[test]
fn decimal_text_values() {
    assert_eq!(twofa::text::decimal_text(0), "0");
    assert_eq!(twofa::text::decimal_text(7), "7");
    assert_eq!(twofa::text::decimal_text(1024), "1024");
}

#[test]
fn input_window_zero_rejected() {
    let r = create_twofa_settings_with_input(Some("S".to_string()), Some(0), None, None);
    assert!(matches!(r, Err(SettingsError::MismatchedType)));
}

#[test]
fn input_empty_secret_rejected() {
    let r = create_twofa_settings_with_input(Some(String::new()), None, None, None);
    assert!(matches!(r, Err(SettingsError::MissingSecret)));
}

#[test]
fn stored_empty_secret_rejected() {
    let r = create_twofa_settings(Some(obj(vec![("secret", s(""))])));
    assert!(matches!(r, Err(SettingsError::MissingSecret)));
}

#[test]
fn stored_window_zero_accepted() {
    let t = create_twofa_settings(Some(obj(vec![("secret", s("Q")), ("window", JsonValue::Unsigned(0))])))
        .unwrap();
    assert_eq!(t.window, Some(0));
}

#[test]
fn code_for_each_encoding() {
    let mut t = TwofaSettings::new();
    t.set_secret("3132333435363738393031323334353637383930".to_string())
        .set_encoding(Some(Encoding::Hex))
        .set_hash(Some(HashFunction::Sha1))
        .set_window(Some(30));
    let hex = create_code_with_twofa_settings(&t).unwrap();
    assert_eq!(hex.len(), 6);
    t.set_secret("12345678901234567890".to_string()).set_encoding(Some(Encoding::Ascii));
    let ascii = create_code_with_twofa_settings(&t).unwrap();
    assert_eq!(ascii.len(), 6);
    t.set_secret("gezdgnbvgy3tqojq====".to_string()).set_encoding(Some(Encoding::Base32));
    let b32 = create_code_with_twofa_settings(&t).unwrap();
    assert!(b32.chars().all(|c| c.is_ascii_digit()));
}

#[test]
fn code_rejects_undecodable_keys() {
    let mut t = TwofaSettings::new();
    t.set_secret("abc".to_string()).set_encoding(Some(Encoding::Hex));
    assert!(matches!(create_code_with_twofa_settings(&t), Err(CodeError::InvalidParameters)));
    t.set_secret("JBSWY3DPEHPK3PX1".to_string()).set_encoding(Some(Encoding::Base32));
    assert!(matches!(create_code_with_twofa_settings(&t), Err(CodeError::InvalidParameters)));
}

#[test]
fn unknown_members_are_listed() {
    let e = obj(vec![("secret", s("Q")), ("note", s("x")), ("hash", s("sha1")), ("extra", JsonValue::Null)]);
    let mut r = twofa::settings::unrecognized_members(&e);
    r.sort();
    assert_eq!(r, vec!["extra".to_string(), "note".to_string()]);
}
