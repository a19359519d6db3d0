use linkstore::auth::{
    authorize, authorize_at, first_token, issue, AuthBody, AuthError, AuthPayload, Claims,
    JwtSecret, TOKEN_LIFETIME,
};
use linkstore::password::Password;
use linkstore::store::Config;

fn key() -> JwtSecret {
    JwtSecret::new(b"a test secret".to_vec())
}

fn other_key() -> JwtSecret {
    JwtSecret::new(b"another secret".to_vec())
}

fn object(members: Vec<(&str, serde_json::Value)>) -> serde_json::Map<String, serde_json::Value> {
    let mut object = serde_json::Map::new();
    for (name, value) in members {
        object.insert(name.to_string(), value);
    }
    object
}

fn full_claims(exp: u64) -> serde_json::Map<String, serde_json::Value> {
    object(vec![
        ("sub", serde_json::Value::from("bob")),
        ("username", serde_json::Value::from("bob")),
        ("iat", serde_json::Value::from(1000u64)),
        ("exp", serde_json::Value::from(exp)),
    ])
}

fn signed(claims: &serde_json::Map<String, serde_json::Value>, secret: &[u8]) -> String {
    jsonwebtoken::encode(
        &jsonwebtoken::Header::default(),
        claims,
        &jsonwebtoken::EncodingKey::from_secret(secret),
    )
    .unwrap()
}

fn admin_config() -> Config {
    Config::new_by_creating_file(
        "p".to_string(),
        "admin".to_string(),
        Password::new("secret123".to_string()),
    )
    .unwrap()
}

fn attempt(username: &str, password: &str) -> AuthPayload {
    AuthPayload::new(username.to_string(), Password::new(password.to_string()))
}

#[test]
fn lifetime_is_a_day() {
    assert_eq!(TOKEN_LIFETIME, 24 * 60 * 60);
}

#[test]
fn issued_token_is_a_bearer_token_in_three_parts() {
    let body = issue(&key(), "bob", 1_700_000_000).unwrap();
    assert_eq!(body.token_type(), "Bearer");
    assert_eq!(body.access_token().split('.').count(), 3);
    assert_eq!(body.access_token(), body.access_token.as_str());
    assert_ne!(body.access_token(), "bob");
}

#[test]
fn issued_token_carries_name_and_times() {
    let body = issue(&key(), "bob", 1_700_000_000).unwrap();
    let claims = Claims::validate(&key(), body.access_token(), 1_700_000_001).unwrap();
    assert_eq!(claims.subject(), "bob");
    assert_eq!(claims.username(), "bob");
    assert_eq!(claims.username, "bob");
    assert_eq!(claims.issued_at(), 1_700_000_000);
    assert_eq!(claims.expires_at(), 1_700_086_400);
}

#[test]
fn issued_token_is_what_the_signing_crate_reads() {
    let body = issue(&key(), "bob", 1_700_000_000).unwrap();
    let mut validation = jsonwebtoken::Validation::default();
    validation.validate_exp = false;
    let read = jsonwebtoken::decode::<serde_json::Map<String, serde_json::Value>>(
        body.access_token(),
        &jsonwebtoken::DecodingKey::from_secret(b"a test secret"),
        &validation,
    )
    .unwrap();
    assert_eq!(read.header.alg, jsonwebtoken::Algorithm::HS256);
    assert_eq!(read.claims, full_claims_of("bob", 1_700_000_000, 1_700_086_400));
}

fn full_claims_of(name: &str, iat: u64, exp: u64) -> serde_json::Map<String, serde_json::Value> {
    object(vec![
        ("sub", serde_json::Value::from(name)),
        ("username", serde_json::Value::from(name)),
        ("iat", serde_json::Value::from(iat)),
        ("exp", serde_json::Value::from(exp)),
    ])
}

#[test]
fn token_is_valid_until_it_expires() {
    let body = issue(&key(), "bob", 1000).unwrap();
    let token = body.access_token();
    assert!(Claims::validate(&key(), token, 0).is_ok());
    assert!(Claims::validate(&key(), token, 1000).is_ok());
    assert!(Claims::validate(&key(), token, 1000 + 86_399).is_ok());
    assert_eq!(Claims::validate(&key(), token, 1000 + 86_400).err(), Some(AuthError::InvalidToken));
    assert_eq!(Claims::validate(&key(), token, 1000 + 86_401).err(), Some(AuthError::InvalidToken));
    assert_eq!(Claims::validate(&key(), token, u64::MAX).err(), Some(AuthError::InvalidToken));
}

#[test]
fn token_of_another_secret_is_invalid() {
    let body = issue(&key(), "bob", 1000).unwrap();
    assert_eq!(
        Claims::validate(&other_key(), body.access_token(), 1001).err(),
        Some(AuthError::InvalidToken)
    );
}

#[test]
fn corrupted_signature_is_invalid() {
    let body = issue(&key(), "bob", 1000).unwrap();
    let token = body.access_token();
    let last = token.chars().last().unwrap();
    let swapped = if last == 'A' { 'B' } else { 'A' };
    let mut corrupted = token[..token.len() - 1].to_string();
    corrupted.push(swapped);
    assert_eq!(
        Claims::validate(&key(), &corrupted, 1001).err(),
        Some(AuthError::InvalidToken)
    );
    let mut first_changed = token.to_string();
    let at = token.rfind('.').unwrap() + 1;
    let first = token[at..].chars().next().unwrap();
    first_changed.replace_range(at..at + 1, if first == 'x' { "y" } else { "x" });
    assert_eq!(
        Claims::validate(&key(), &first_changed, 1001).err(),
        Some(AuthError::InvalidToken)
    );
}

#[test]
fn changed_payload_is_invalid() {
    let body = issue(&key(), "bob", 1000).unwrap();
    let parts: Vec<&str> = body.access_token().split('.').collect();
    let forged_payload = signed(&full_claims_of("admin", 1000, 87_400), b"a test secret");
    let forged_parts: Vec<&str> = forged_payload.split('.').collect();
    let forged = format!("{}.{}.{}", parts[0], forged_parts[1], parts[2]);
    assert_eq!(Claims::validate(&key(), &forged, 1001).err(), Some(AuthError::InvalidToken));
}

#[test]
fn malformed_tokens_are_invalid() {
    for token in ["", ".", "..", "a.b.c", "abc", "a.b", "a.b.c.d", "Bearer x"] {
        assert_eq!(
            Claims::validate(&key(), token, 0).err(),
            Some(AuthError::InvalidToken),
            "{:?}",
            token
        );
    }
}

#[test]
fn token_without_a_claim_is_invalid() {
    let no_username = object(vec![
        ("sub", serde_json::Value::from("bob")),
        ("iat", serde_json::Value::from(1000u64)),
        ("exp", serde_json::Value::from(5000u64)),
    ]);
    let no_sub = object(vec![
        ("username", serde_json::Value::from("bob")),
        ("iat", serde_json::Value::from(1000u64)),
        ("exp", serde_json::Value::from(5000u64)),
    ]);
    let no_iat = object(vec![
        ("sub", serde_json::Value::from("bob")),
        ("username", serde_json::Value::from("bob")),
        ("exp", serde_json::Value::from(5000u64)),
    ]);
    let no_exp = object(vec![
        ("sub", serde_json::Value::from("bob")),
        ("username", serde_json::Value::from("bob")),
        ("iat", serde_json::Value::from(1000u64)),
    ]);
    for claims in [no_username, no_sub, no_iat, no_exp] {
        let token = signed(&claims, b"a test secret");
        assert_eq!(Claims::validate(&key(), &token, 1001).err(), Some(AuthError::InvalidToken));
    }
    let token = signed(&full_claims(5000), b"a test secret");
    assert!(Claims::validate(&key(), &token, 1001).is_ok());
}

#[test]
fn claims_of_the_wrong_kind_are_invalid() {
    let numeric_name = object(vec![
        ("sub", serde_json::Value::from(7u64)),
        ("username", serde_json::Value::from("bob")),
        ("iat", serde_json::Value::from(1000u64)),
        ("exp", serde_json::Value::from(5000u64)),
    ]);
    let text_time = object(vec![
        ("sub", serde_json::Value::from("bob")),
        ("username", serde_json::Value::from("bob")),
        ("iat", serde_json::Value::from("1000")),
        ("exp", serde_json::Value::from(5000u64)),
    ]);
    let negative_time = object(vec![
        ("sub", serde_json::Value::from("bob")),
        ("username", serde_json::Value::from("bob")),
        ("iat", serde_json::Value::from(-1i64)),
        ("exp", serde_json::Value::from(5000u64)),
    ]);
    for claims in [numeric_name, text_time, negative_time] {
        assert!(Claims::from_payload(&claims).is_none());
        assert_eq!(Claims::accept(Ok(claims), 1001).err(), Some(AuthError::InvalidToken));
    }
}

#[test]
fn from_payload_reads_the_four_claims() {
    let claims = Claims::from_payload(&full_claims(5000)).unwrap();
    assert_eq!(claims.subject(), "bob");
    assert_eq!(claims.username(), "bob");
    assert_eq!(claims.issued_at(), 1000);
    assert_eq!(claims.expires_at(), 5000);
    let mut extra = full_claims(5000);
    extra.insert("role".to_string(), serde_json::Value::from("admin"));
    assert!(Claims::from_payload(&extra).is_some());
    assert!(Claims::from_payload(&serde_json::Map::new()).is_none());
}

#[test]
fn accept_checks_the_expiry() {
    assert!(Claims::accept(Ok(full_claims(5000)), 4999).is_ok());
    assert_eq!(Claims::accept(Ok(full_claims(5000)), 5000).err(), Some(AuthError::InvalidToken));
    assert_eq!(Claims::accept(Ok(full_claims(5000)), 5001).err(), Some(AuthError::InvalidToken));
    assert_eq!(Claims::accept(Ok(full_claims(0)), 0).err(), Some(AuthError::InvalidToken));
}

#[test]
fn accept_turns_a_reading_error_into_the_one_rejection() {
    let error = jsonwebtoken::errors::Error::from(jsonwebtoken::errors::ErrorKind::InvalidSignature);
    assert_eq!(Claims::accept(Err(error), 0).err(), Some(AuthError::InvalidToken));
    let expired =
        jsonwebtoken::errors::Error::from(jsonwebtoken::errors::ErrorKind::ExpiredSignature);
    assert_eq!(Claims::accept(Err(expired), 0).err(), Some(AuthError::InvalidToken));
}

#[test]
fn from_signing_maps_both_outcomes() {
    let body = AuthBody::from_signing(Ok("a.b.c".to_string())).unwrap();
    assert_eq!(body.access_token, "a.b.c");
    assert_eq!(body.token_type(), "Bearer");
    let error = jsonwebtoken::errors::Error::from(jsonwebtoken::errors::ErrorKind::InvalidKeyFormat);
    assert_eq!(AuthBody::from_signing(Err(error)).err(), Some(AuthError::TokenCreation));
}

#[test]
fn auth_body_new_is_a_bearer() {
    let body = AuthBody::new("token".to_string());
    assert_eq!(body.access_token, "token");
    assert_eq!(body.access_token(), "token");
    assert_eq!(body.token_type(), "Bearer");
}

#[test]
fn no_token_is_issued_when_the_expiry_does_not_fit() {
    assert_eq!(issue(&key(), "bob", u64::MAX).err(), Some(AuthError::TokenCreation));
    assert_eq!(issue(&key(), "bob", u64::MAX - 86_399).err(), Some(AuthError::TokenCreation));
    let last = issue(&key(), "bob", u64::MAX - 86_400).unwrap();
    let claims = Claims::validate(&key(), last.access_token(), u64::MAX - 1).unwrap();
    assert_eq!(claims.expires_at(), u64::MAX);
    assert_eq!(claims.issued_at(), u64::MAX - 86_400);
}

#[test]
fn names_with_any_characters_come_back() {
    for name in ["", "a b", "ü\"\\\n", "名前", "{\"sub\":\"x\"}"] {
        let body = issue(&key(), name, 10).unwrap();
        let claims = Claims::validate(&key(), body.access_token(), 11).unwrap();
        assert_eq!(claims.subject(), name);
        assert_eq!(claims.username(), name);
    }
}

#[test]
fn first_token_takes_the_first_that_is_there() {
    let a = Some("a".to_string());
    let b = Some("b".to_string());
    assert_eq!(first_token(&vec![]), None);
    assert_eq!(first_token(&vec![None, None]), None);
    assert_eq!(first_token(&vec![a.clone(), b.clone()]), a);
    assert_eq!(first_token(&vec![None, b.clone()]), b);
    assert_eq!(first_token(&vec![None, None, a.clone(), b.clone()]), a);
}

#[test]
fn bearer_header_goes_before_the_cookie() {
    let bob = issue(&key(), "bob", 1000).unwrap().access_token;
    let eve = issue(&key(), "eve", 1000).unwrap().access_token;
    let by_header =
        Claims::authenticate(Some(bob.clone()), Some(eve.clone()), &key(), 1001).unwrap();
    assert_eq!(by_header.subject(), "bob");
    let by_cookie = Claims::authenticate(None, Some(eve.clone()), &key(), 1001).unwrap();
    assert_eq!(by_cookie.subject(), "eve");
    let header_only = Claims::authenticate(Some(bob), None, &key(), 1001).unwrap();
    assert_eq!(header_only.subject(), "bob");
}

#[test]
fn bad_header_is_not_mended_by_a_good_cookie() {
    let eve = issue(&key(), "eve", 1000).unwrap().access_token;
    assert_eq!(
        Claims::authenticate(Some("a.b.c".to_string()), Some(eve), &key(), 1001).err(),
        Some(AuthError::InvalidToken)
    );
}

#[test]
fn request_without_a_token_is_turned_away() {
    assert_eq!(Claims::authenticate(None, None, &key(), 0).err(), Some(AuthError::InvalidToken));
    assert_eq!(Claims::from_request_parts(None, None, &key()).err(), Some(AuthError::InvalidToken));
}

#[test]
fn guard_by_the_clock_takes_a_fresh_token_and_no_old_one() {
    let now = jsonwebtoken::get_current_timestamp();
    let fresh = issue(&key(), "bob", now).unwrap().access_token;
    let claims = Claims::from_request_parts(Some(fresh.clone()), None, &key()).unwrap();
    assert_eq!(claims.subject(), "bob");
    let by_cookie = Claims::from_request_parts(None, Some(fresh), &key()).unwrap();
    assert_eq!(by_cookie.subject(), "bob");
    let old = issue(&key(), "bob", now - 2 * 86_400).unwrap().access_token;
    assert_eq!(
        Claims::from_request_parts(Some(old), None, &key()).err(),
        Some(AuthError::InvalidToken)
    );
    let just_expired = issue(&key(), "bob", now - 86_400).unwrap().access_token;
    assert_eq!(
        Claims::from_request_parts(Some(just_expired), None, &key()).err(),
        Some(AuthError::InvalidToken)
    );
}

#[test]
fn login_without_name_or_password_is_missing_credentials() {
    let config = admin_config();
    assert_eq!(
        authorize_at(&config, &key(), attempt("", "secret123"), 5).err(),
        Some(AuthError::MissingCredentials)
    );
    assert_eq!(
        authorize_at(&config, &key(), attempt("admin", ""), 5).err(),
        Some(AuthError::MissingCredentials)
    );
    assert_eq!(
        authorize(&config, &key(), attempt("", "")).err(),
        Some(AuthError::MissingCredentials)
    );
}

#[test]
fn login_with_wrong_credentials_is_refused_in_one_way() {
    let config = admin_config();
    assert_eq!(
        authorize_at(&config, &key(), attempt("admin", "secret124"), 5).err(),
        Some(AuthError::WrongCredentials)
    );
    assert_eq!(
        authorize_at(&config, &key(), attempt("nobody", "secret123"), 5).err(),
        Some(AuthError::WrongCredentials)
    );
    assert_eq!(
        authorize(&config, &key(), attempt("nobody", "nothing")).err(),
        Some(AuthError::WrongCredentials)
    );
}

#[test]
fn login_at_a_time_issues_a_token_from_that_time() {
    let config = admin_config();
    let body = authorize_at(&config, &key(), attempt("admin", "secret123"), 5000).unwrap();
    assert_eq!(body.token_type(), "Bearer");
    let claims = Claims::validate(&key(), body.access_token(), 5001).unwrap();
    assert_eq!(claims.subject(), "admin");
    assert_eq!(claims.username(), "admin");
    assert_eq!(claims.issued_at(), 5000);
    assert_eq!(claims.expires_at(), 91_400);
    assert_eq!(
        authorize_at(&config, &key(), attempt("admin", "secret123"), u64::MAX).err(),
        Some(AuthError::TokenCreation)
    );
}

#[test]
fn login_by_the_clock_issues_a_token_for_a_day() {
    let config = admin_config();
    let before = jsonwebtoken::get_current_timestamp();
    let body = authorize(&config, &key(), attempt("admin", "secret123")).unwrap();
    let after = jsonwebtoken::get_current_timestamp();
    let claims = Claims::from_request_parts(Some(body.access_token), None, &key()).unwrap();
    assert_eq!(claims.subject(), "admin");
    assert!(before <= claims.issued_at() && claims.issued_at() <= after);
    assert_eq!(claims.expires_at(), claims.issued_at() + 86_400);
}

#[test]
fn errors_have_their_status_and_message() {
    assert_eq!(AuthError::WrongCredentials.status(), 401);
    assert_eq!(AuthError::MissingCredentials.status(), 400);
    assert_eq!(AuthError::TokenCreation.status(), 500);
    assert_eq!(AuthError::InvalidToken.status(), 401);
    assert_eq!(AuthError::WrongCredentials.message(), "Wrong credentials");
    assert_eq!(AuthError::MissingCredentials.message(), "Missing credentials");
    assert_eq!(AuthError::TokenCreation.message(), "Token creation error");
    assert_eq!(AuthError::InvalidToken.message(), "Invalid token");
}

#[test]
fn token_with_a_list_or_an_object_for_a_name_is_invalid() {
    let values = [
        serde_json::Value::Array(vec![]),
        serde_json::Value::Array(vec![serde_json::Value::from("bob")]),
        serde_json::Value::Object(serde_json::Map::new()),
    ];
    for value in values {
        let mut claims = full_claims(5000);
        claims.insert("sub".to_string(), value);
        let token = signed(&claims, b"a test secret");
        assert_eq!(Claims::validate(&key(), &token, 1001).err(), Some(AuthError::InvalidToken));
    }
}

#[test]
fn token_that_cannot_be_read_back_is_invalid() {
    let mut claims = full_claims(5000);
    claims.insert(
        "nbf".to_string(),
        serde_json::Value::Array(vec![serde_json::Value::from(1u64)]),
    );
    let token = signed(&claims, b"a test secret");
    let mut validation = jsonwebtoken::Validation::default();
    validation.validate_exp = false;
    let read = jsonwebtoken::decode::<serde_json::Map<String, serde_json::Value>>(
        &token,
        &jsonwebtoken::DecodingKey::from_secret(b"a test secret"),
        &validation,
    );
    assert!(read.is_err());
    assert_eq!(Claims::validate(&key(), &token, 1001).err(), Some(AuthError::InvalidToken));
}

#[test]
fn token_with_more_plain_members_is_valid() {
    let mut claims = full_claims(5000);
    claims.insert("nbf".to_string(), serde_json::Value::from("soon"));
    claims.insert("aud".to_string(), serde_json::Value::from(7u64));
    claims.insert("role".to_string(), serde_json::Value::from("admin"));
    let token = signed(&claims, b"a test secret");
    let read = Claims::validate(&key(), &token, 1001).unwrap();
    assert_eq!(read.subject(), "bob");
    assert_eq!(read.expires_at(), 5000);
}

#[test]
fn a_token_is_issued_whenever_the_expiry_fits() {
    let secrets: Vec<Vec<u8>> = vec![vec![], vec![0], b"a test secret".to_vec(), vec![255; 300]];
    for secret in secrets {
        let key = JwtSecret::new(secret);
        for now in [0, 1, 1_700_000_000, u64::MAX - 86_400] {
            for name in ["", "bob", "a\"b\\c\n", "名前"] {
                let body = issue(&key, name, now).unwrap();
                let claims = Claims::validate(&key, body.access_token(), now).unwrap();
                assert_eq!(claims.subject(), name);
                assert_eq!(claims.expires_at(), now + 86_400);
            }
        }
    }
}

#[test]
fn login_with_the_stored_credential_always_gets_a_token() {
    let config = admin_config();
    for now in [0, 5000, 1_700_000_000, u64::MAX - 86_400] {
        let body = authorize_at(&config, &key(), attempt("admin", "secret123"), now).unwrap();
        assert_eq!(body.token_type(), "Bearer");
        let claims = Claims::validate(&key(), body.access_token(), now).unwrap();
        assert_eq!(claims.username(), "admin");
        assert_eq!(claims.issued_at(), now);
        assert_eq!(claims.expires_at(), now + 86_400);
    }
}

#[test]
fn plain_members_of_any_name_are_read_back_as_they_were_signed() {
    let mut numbers_for_names = full_claims(5000);
    numbers_for_names.insert("sub".to_string(), serde_json::Value::from(7u64));
    numbers_for_names.insert("nbf".to_string(), serde_json::Value::from(u64::MAX));
    numbers_for_names.insert("iss".to_string(), serde_json::Value::from(0u64));
    numbers_for_names.insert("aud".to_string(), serde_json::Value::from(1u64));
    let mut strings_for_times = full_claims(5000);
    strings_for_times.insert("nbf".to_string(), serde_json::Value::from("soon"));
    strings_for_times.insert("iat".to_string(), serde_json::Value::from(""));
    strings_for_times.insert("iss".to_string(), serde_json::Value::from("a\"b"));
    strings_for_times.insert("aud".to_string(), serde_json::Value::from("x"));
    let mut validation = jsonwebtoken::Validation::default();
    validation.validate_exp = false;
    for claims in [numbers_for_names, strings_for_times] {
        let token = signed(&claims, b"a test secret");
        let read = jsonwebtoken::decode::<serde_json::Map<String, serde_json::Value>>(
            &token,
            &jsonwebtoken::DecodingKey::from_secret(b"a test secret"),
            &validation,
        )
        .unwrap();
        assert_eq!(read.claims, claims);
    }
}
