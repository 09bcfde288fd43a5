use github_integration::auth::get_claims;

fn make_token(user_id: i64, secret: &str) -> String {
    let mut claims = serde_json::Map::new();
    claims.insert("user_id".to_string(), serde_json::Value::from(user_id));
    jsonwebtoken::encode(
        &jsonwebtoken::Header::default(),
        &serde_json::Value::Object(claims),
        &jsonwebtoken::EncodingKey::from_secret(secret.as_ref()),
    )
    .unwrap()
}

#[test]
fn test_get_claims() {
    let token = make_token(42, "secret");

    let decoded_claims = get_claims(token.as_str(), "secret".as_ref());

    assert!(decoded_claims.is_some());
    assert_eq!(decoded_claims.unwrap().user_id, 42);
}

#[test]
fn test_get_claims_invalid_token() {
    let token = make_token(42, "secret");

    assert!(get_claims(token.as_str(), "wrong_secret".as_ref()).is_none());
}

#[test]
fn test_get_claims_garbage_token() {
    assert!(get_claims("not.a.token", "secret".as_ref()).is_none());
}
