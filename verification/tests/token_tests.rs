use mailsync::token::{get_payload_field, TokenError};

fn token_with_payload(json: &str) -> String {
    let payload = base64::encode_config(json.as_bytes(), base64::URL_SAFE_NO_PAD);
    format!("header.{}.signature", payload)
}

#[test]
fn reads_a_string_field_out_of_the_payload() {
    let token = token_with_payload("{\"sub\":\"user@localhost\",\"n\":3}");
    assert_eq!(get_payload_field(&token, "sub").unwrap(), "user@localhost");
}

#[test]
fn missing_field_is_an_invalid_token() {
    let token = token_with_payload("{\"sub\":\"user@localhost\"}");
    assert!(matches!(
        get_payload_field(&token, "email"),
        Err(TokenError::InvalidToken)
    ));
}

#[test]
fn non_string_field_is_an_invalid_token() {
    let token = token_with_payload("{\"n\":3}");
    assert!(matches!(get_payload_field(&token, "n"), Err(TokenError::InvalidToken)));
}

#[test]
fn broken_base64_fails_as_base64() {
    assert!(matches!(
        get_payload_field("header.???.sig", "sub"),
        Err(TokenError::Base64)
    ));
}

#[test]
fn broken_json_fails_as_json() {
    let payload = base64::encode_config("not json".as_bytes(), base64::URL_SAFE_NO_PAD);
    let token = format!("header.{}.sig", payload);
    assert!(matches!(get_payload_field(&token, "sub"), Err(TokenError::Json)));
}
