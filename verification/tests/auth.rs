use happy_remote::auth::{
    check_email_free, CONFLICT,
    generate_tokens, generate_tokens_at, issue_token_claims_at, validate_token, validate_token_at,
    auth_token, auth_user_from_lookup, bearer_token, check_login, check_registration, hash_password, invalid_token,
    machine_id_from_header, machine_name_from_header, requested_cwd, token_claims, AuthFailure, BAD_REQUEST,
    INTERNAL_SERVER_ERROR, TOKEN_LIFETIME_SECS, UNAUTHORIZED,
};

#[test]
fn registered_password_logs_in() {
    let phc = hash_password("secret-password").expect("hash");
    assert!(phc.starts_with("$argon2"));
    let ok = check_login(Some(("user-1".to_string(), phc.clone())), "secret-password");
    assert_eq!(ok, Ok("user-1".to_string()));
}

#[test]
fn wrong_password_is_invalid_credentials() {
    let phc = hash_password("right").expect("hash");
    let r = check_login(Some(("u".to_string(), phc)), "wrong");
    assert_eq!(r, Err(AuthFailure::InvalidCredentials));
}

#[test]
fn unknown_account_is_invalid_credentials() {
    assert_eq!(check_login(None, "whatever"), Err(AuthFailure::InvalidCredentials));
}

#[test]
fn unreadable_hash_is_reported() {
    let r = check_login(Some(("u".to_string(), "not a phc string".to_string())), "pw");
    assert_eq!(r, Err(AuthFailure::InvalidPasswordHash));
}

#[test]
fn two_hashes_of_one_password_differ_by_salt() {
    let a = hash_password("pw123456").unwrap();
    let b = hash_password("pw123456").unwrap();
    assert_ne!(a, b);
}

#[test]
fn registration_rules() {
    assert_eq!(check_registration("a@b.c", "123456"), Ok(()));
    assert_eq!(check_registration("no-at-sign", "123456"), Err(BAD_REQUEST));
    assert_eq!(check_registration("a@b.c", "12345"), Err(BAD_REQUEST));
}

#[test]
fn bearer_tokens() {
    assert_eq!(bearer_token("Bearer abc.def"), Some("abc.def".to_string()));
    assert_eq!(bearer_token("Bearer "), Some(String::new()));
    assert_eq!(bearer_token("Basic xyz"), None);
    let missing = auth_token(None).unwrap_err();
    assert_eq!(missing.status, UNAUTHORIZED);
    assert_eq!(missing.message, "Missing Authorization header");
    let bad = auth_token(Some("Token x")).unwrap_err();
    assert_eq!(bad.message, "Invalid Authorization format");
    assert_eq!(auth_token(Some("Bearer t0k")).unwrap(), "t0k");
}

#[test]
fn token_errors_and_lookups() {
    let e = invalid_token("ExpiredSignature");
    assert_eq!(e.status, UNAUTHORIZED);
    assert_eq!(e.message, "Invalid token: ExpiredSignature");
    let u = auth_user_from_lookup(Ok(Some(("id".into(), "e@x".into(), None)))).unwrap();
    assert_eq!(u.user_id, "id");
    assert_eq!(u.email, "e@x");
    let none = auth_user_from_lookup(Ok(None)).unwrap_err();
    assert_eq!(none.status, UNAUTHORIZED);
    assert_eq!(none.message, "User not found");
    let db = auth_user_from_lookup(Err("disk".into())).unwrap_err();
    assert_eq!(db.status, INTERNAL_SERVER_ERROR);
    assert_eq!(db.message, "Database error: disk");
}

#[test]
fn claims_expire_after_the_lifetime() {
    let c = token_claims("u1", 1000, "access");
    assert_eq!(c.sub, "u1");
    assert_eq!(c.iat, 1000);
    assert_eq!(c.exp, 1000 + TOKEN_LIFETIME_SECS);
    assert_eq!(c.token_type, "access");
}

#[test]
fn header_defaults() {
    assert_eq!(machine_id_from_header(Some("m-1")), "m-1");
    assert_eq!(machine_id_from_header(None), "unknown");
    assert_eq!(machine_name_from_header(None), "Unknown Machine");
    assert_eq!(requested_cwd(None), "/");
    assert_eq!(requested_cwd(Some("/tmp".into())), "/tmp");
}

#[test]
fn issued_tokens_validate_to_their_user() {
    let t = generate_tokens("server-secret", "user-7").expect("tokens");
    assert_eq!(t.expires_in, 0);
    assert_ne!(t.access_token, t.refresh_token);
    assert_eq!(validate_token("server-secret", &t.access_token), Ok("user-7".to_string()));
    assert_eq!(validate_token("server-secret", &t.refresh_token), Ok("user-7".to_string()));
    assert_eq!(validate_token("other-secret", &t.access_token), Err(AuthFailure::InvalidToken));
    assert_eq!(validate_token("server-secret", "not.a.token"), Err(AuthFailure::InvalidToken));
    let old = generate_tokens_at("s", "u", 1_000).expect("tokens");
    assert_eq!(validate_token_at("s", &old.access_token, 1_000 + TOKEN_LIFETIME_SECS + 60), Ok("u".to_string()));
    assert_eq!(validate_token_at("s", &old.access_token, 1_000 + TOKEN_LIFETIME_SECS + 61), Err(AuthFailure::TokenExpired));
    let again = generate_tokens_at("s", "u", 1_000).expect("tokens");
    assert_eq!(again.access_token, old.access_token);
}

#[test]
fn token_claims_out_of_clock_range_fail() {
    assert_eq!(issue_token_claims_at("u", i64::MAX).err(), Some(AuthFailure::ClockOutOfRange));
    let (a, r) = issue_token_claims_at("u", 5).expect("claims");
    assert_eq!((a.iat, a.exp, a.token_type.as_str()), (5, 5 + TOKEN_LIFETIME_SECS, "access"));
    assert_eq!((r.iat, r.exp, r.token_type.as_str()), (5, 5 + TOKEN_LIFETIME_SECS, "refresh"));
    assert_eq!(generate_tokens_at("s", "u", i64::MAX).err(), Some(AuthFailure::ClockOutOfRange));
}

#[test]
fn taken_emails_conflict() {
    assert_eq!(check_email_free(Ok(None)), Ok(()));
    assert_eq!(check_email_free(Ok(Some(("u".to_string(), "h".to_string())))), Err(CONFLICT));
    assert_eq!(check_email_free(Err("db".to_string())), Err(INTERNAL_SERVER_ERROR));
}

#[test]
fn token_payload_keeps_the_claim_order() {
    let t = generate_tokens_at("s", "u", 1_000).expect("tokens");
    let validation = jsonwebtoken::Validation::new(jsonwebtoken::Algorithm::HS256);
    let key = jsonwebtoken::DecodingKey::from_secret(b"s");
    let data = jsonwebtoken::decode::<serde_json::Value>(&t.access_token, &key, &validation).expect("decodes");
    let keys: Vec<String> = data.claims.as_object().expect("object").keys().cloned().collect();
    assert_eq!(keys, vec!["sub", "exp", "iat", "token_type"]);
    assert_eq!(data.claims["token_type"], "access");
    assert_eq!(data.claims["iat"], 1_000);
}
