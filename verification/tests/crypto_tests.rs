use xjtuportal::crypto::{decrypt_text, encrypt_text};
use xjtuportal::error::PortalError;
use xjtuportal::portal::login_request_json;

#[test]
fn encrypts_compact_json_with_python_compatible_vector() {
    let payload = login_request_json("http://10.184.6.32/", "u", "p").unwrap();

    let encrypted = encrypt_text(&payload).unwrap();

    assert_eq!(
        encrypted,
        "d6eeef71f42c5e7f48a8aee242df00ea3f0533f4b36302af0e4d5ca6f21f837b\
         a13cba2d341a47658392810d8438b7df5ae1e19f242f4e591bd8eed4761053685b659\
         8a2693d8113b1de4875f9632ebac06c8c3cbc26111bd59683d1a8f0b3c9"
            .replace(char::is_whitespace, "")
    );
}

#[test]
fn decrypts_plain_and_json_quoted_hex_bodies() {
    let encrypted = encrypt_text(r#"{"code":0,"token":"abcdef"}"#).unwrap();

    let plain: serde_json::Value = serde_json::from_str(&decrypt_text(&encrypted).unwrap()).unwrap();
    let quoted: serde_json::Value = serde_json::from_str(
        &decrypt_text(&serde_json::to_string(&encrypted).unwrap()).unwrap(),
    )
    .unwrap();

    assert_eq!(plain["code"], 0);
    assert_eq!(quoted["token"], "abcdef");
}

#[test]
fn encryption_round_trips_and_pads_to_whole_blocks() {
    for text in ["", "a", "0123456789abcdef", "校园网 portal"] {
        let hex = encrypt_text(text).unwrap();
        assert_eq!(hex.len() % 32, 0);
        assert!(hex.len() > 2 * text.len());
        assert!(hex.chars().all(|c| c.is_ascii_hexdigit() && !c.is_ascii_uppercase()));
        assert_ne!(hex, text);
        assert_eq!(decrypt_text(&hex).unwrap(), text);
    }
}

#[test]
fn decrypt_accepts_surrounding_whitespace_and_uppercase_hex() {
    let hex = encrypt_text("hello").unwrap();
    let padded = format!("  {}\n", hex.to_uppercase());
    assert_eq!(decrypt_text(&padded).unwrap(), "hello");
}

#[test]
fn decrypt_errors_by_kind() {
    assert!(matches!(decrypt_text(r#" "ab"x" "#), Err(PortalError::Json(_))));
    assert!(matches!(decrypt_text("\"unterminated"), Err(PortalError::Hex(_))));
    assert!(matches!(decrypt_text("abc"), Err(PortalError::Hex(_))));
    assert!(matches!(decrypt_text("zz"), Err(PortalError::Hex(_))));
    assert!(matches!(decrypt_text("00112233"), Err(PortalError::Decrypt)));
    assert!(matches!(
        decrypt_text("00000000000000000000000000000000"),
        Err(PortalError::Decrypt)
    ));
}
