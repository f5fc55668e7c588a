//! Accounts and authentication: request and response records, password checks,
//! token claims and the decisions of the authentication endpoints.

use vstd::prelude::*;
use crate::model::{opt_str_view, Session, SessionView, SessionStatus};
use crate::text::{owned, concat, starts_with, contains_char};
use argon2::{PasswordHasher, PasswordVerifier};
use jsonwebtoken::{Algorithm, DecodingKey, EncodingKey, Header, Validation};
use serde_json::{Map as JsonMap, Value};

verus! {

/// `argon2::password_hash::Error`, the error of hashing and of reading a stored hash.
#[verifier::external_type_specification]
#[verifier::external_body]
pub struct ExPasswordHashError(argon2::password_hash::Error);

/// What checking `password` against the stored PHC hash text `phc` with Argon2 gives:
/// `None` when the text is no valid password hash, else whether the password matches.
pub uninterp spec fn argon2_outcome(password: Seq<char>, phc: Seq<char>) -> Option<bool>;

/// The most characters a password can have and still be hashed: Argon2 refuses a
/// password of more than `0xFFFF_FFFF` bytes, and a character takes at most four.
pub const MAX_HASHED_CHARS: u64 = 0x3FFF_FFFF;

/// Hashes the password with `Argon2::default()` and a fresh salt from the operating
/// system's random source, in the PHC text form. The salt is random, so the text is
/// not determined by the password; what the contract states is that checking the
/// same password against it succeeds: `verify_password` recomputes the hash with the
/// algorithm, version, parameters and salt that the text records, and compares.
/// With the default parameters and a generated salt, the only error is a password
/// longer than `MAX_PWD_LEN` (`0xFFFF_FFFF`) bytes.
#[verifier::external_body]
fn argon2_hash(password: &str) -> (r: Result<String, argon2::password_hash::Error>)
    ensures
        r matches Ok(h) ==> argon2_outcome(password@, h@) == Some(true),
        password@.len() <= MAX_HASHED_CHARS ==> r is Ok,
{
    let salt = argon2::password_hash::SaltString::generate(&mut rand::rngs::OsRng);
    argon2::Argon2::default().hash_password(password.as_bytes(), &salt).map(|h| h.to_string())
}

/// Reads the stored hash with `PasswordHash::new` and checks the password with
/// `Argon2::default().verify_password`: an error when the text is no valid hash,
/// else whether the password matches.
#[verifier::external_body]
fn argon2_verify(password: &str, phc: &str) -> (r: Result<bool, argon2::password_hash::Error>)
    ensures
        match r {
            Ok(b) => argon2_outcome(password@, phc@) == Some(b),
            Err(_) => argon2_outcome(password@, phc@) is None,
        },
{
    let parsed = argon2::PasswordHash::new(phc)?;
    Ok(argon2::Argon2::default().verify_password(password.as_bytes(), &parsed).is_ok())
}

/// Why an authentication step failed.
#[derive(Debug, Clone, Copy, PartialEq, Eq, Structural)]
pub enum AuthFailure {
    /// The email is unknown or the password does not match.
    InvalidCredentials,
    /// The stored hash could not be read.
    InvalidPasswordHash,
    /// The password could not be hashed.
    HashFailed,
    /// The clock is outside the range that tokens can express.
    ClockOutOfRange,
    /// The token is not one this server signed with its secret, or it is malformed.
    InvalidToken,
    /// The token expired more than a minute ago.
    TokenExpired,
}

/// Hashes a password for storage.
pub fn hash_password(password: &str) -> (r: Result<String, AuthFailure>)
    ensures
        match r {
            Ok(h) => argon2_outcome(password@, h@) == Some(true),
            Err(e) => e == AuthFailure::HashFailed,
        },
        password@.len() <= MAX_HASHED_CHARS ==> r is Ok,
{
    match argon2_hash(password) {
        Ok(h) => Ok(h),
        Err(_) => Err(AuthFailure::HashFailed),
    }
}

/// The outcome of a login with `password` for the account row `(user id, stored hash)`
/// found by email (`None` when no account has the email).
pub open spec fn login_outcome(account: Option<(Seq<char>, Seq<char>)>, password: Seq<char>) -> Result<Seq<char>, AuthFailure> {
    match account {
        None => Err(AuthFailure::InvalidCredentials),
        Some((id, phc)) => match argon2_outcome(password, phc) {
            None => Err(AuthFailure::InvalidPasswordHash),
            Some(true) => Ok(id),
            Some(false) => Err(AuthFailure::InvalidCredentials),
        },
    }
}

/// The view of an account row.
pub open spec fn account_view(a: Option<(String, String)>) -> Option<(Seq<char>, Seq<char>)> {
    match a {
        Some((id, phc)) => Some((id@, phc@)),
        None => None,
    }
}

/// Checks a login: the user id of the account when the password matches its stored hash.
pub fn check_login(account: Option<(String, String)>, password: &str) -> (r: Result<String, AuthFailure>)
    ensures
        match r {
            Ok(id) => login_outcome(account_view(account), password@) == Ok::<Seq<char>, AuthFailure>(id@),
            Err(e) => login_outcome(account_view(account), password@) == Err::<Seq<char>, AuthFailure>(e),
        },
{
    match account {
        None => Err(AuthFailure::InvalidCredentials),
        Some((id, phc)) => match argon2_verify(password, phc.as_str()) {
            Err(_) => Err(AuthFailure::InvalidPasswordHash),
            Ok(true) => Ok(id),
            Ok(false) => Err(AuthFailure::InvalidCredentials),
        },
    }
}

/// A password that was just hashed for an account logs in to that account.
pub proof fn lemma_registered_password_logs_in(id: Seq<char>, password: Seq<char>, phc: Seq<char>)
    requires
        argon2_outcome(password, phc) == Some(true),
    ensures
        login_outcome(Some((id, phc)), password) == Ok::<Seq<char>, AuthFailure>(id),
{
}

/// Seconds in the lifetime of every token: one hundred years of 365 days.
pub const TOKEN_LIFETIME_SECS: i64 = 3153600000;

/// The claims a token carries.
#[derive(Debug, Clone)]
pub struct TokenClaims {
    /// The user id.
    pub sub: String,
    /// Expiry time, in seconds since the Unix epoch.
    pub exp: i64,
    /// Issue time, in seconds since the Unix epoch.
    pub iat: i64,
    /// `access` or `refresh`.
    pub token_type: String,
}

/// The current time in whole seconds since the Unix epoch, from `chrono::Utc::now`.
/// The clock is outside the library: nothing is stated of the reading.
#[verifier::external_body]
pub(crate) fn now_unix_seconds() -> i64 {
    chrono::Utc::now().timestamp()
}

/// The current time in milliseconds since the Unix epoch, from `chrono::Utc::now`.
/// The clock is outside the library: nothing is stated of the reading.
#[verifier::external_body]
pub(crate) fn now_unix_millis() -> i64 {
    chrono::Utc::now().timestamp_millis()
}

/// The mathematical value of token claims.
pub struct TokenClaimsView {
    pub sub: Seq<char>,
    pub exp: i64,
    pub iat: i64,
    pub token_type: Seq<char>,
}

impl View for TokenClaims {
    type V = TokenClaimsView;

    open spec fn view(&self) -> TokenClaimsView {
        TokenClaimsView { sub: self.sub@, exp: self.exp, iat: self.iat, token_type: self.token_type@ }
    }
}

/// The claims of a token of type `token_type` for `user_id` issued at `now`.
pub open spec fn claims_at(user_id: Seq<char>, now: i64, token_type: Seq<char>) -> TokenClaimsView {
    TokenClaimsView { sub: user_id, exp: (now + TOKEN_LIFETIME_SECS) as i64, iat: now, token_type }
}

/// The claims of the access and the refresh token issued to `user_id` at `now`;
/// none where the expiry would not fit.
pub open spec fn issued_claims(user_id: Seq<char>, now: i64) -> Option<(TokenClaimsView, TokenClaimsView)> {
    if now > i64::MAX - TOKEN_LIFETIME_SECS {
        None
    } else {
        Some((claims_at(user_id, now, "access"@), claims_at(user_id, now, "refresh"@)))
    }
}

/// The claims of a token of the given type for `user_id`, issued at `now`.
pub fn token_claims(user_id: &str, now: i64, token_type: &str) -> (r: TokenClaims)
    requires
        now <= i64::MAX - TOKEN_LIFETIME_SECS,
    ensures
        r@ == claims_at(user_id@, now, token_type@),
{
    TokenClaims { sub: owned(user_id), exp: now + TOKEN_LIFETIME_SECS, iat: now, token_type: owned(token_type) }
}

/// The claims of the access and the refresh token issued to `user_id` at `now`:
/// both last one hundred years; an error where the expiry would not fit.
pub fn issue_token_claims_at(user_id: &str, now: i64) -> (r: Result<(TokenClaims, TokenClaims), AuthFailure>)
    ensures
        match r {
            Ok((access, refresh)) => issued_claims(user_id@, now) == Some((access@, refresh@)),
            Err(e) => e == AuthFailure::ClockOutOfRange && issued_claims(user_id@, now) is None,
        },
{
    if now > i64::MAX - TOKEN_LIFETIME_SECS {
        return Err(AuthFailure::ClockOutOfRange);
    }
    proof { reveal_strlit("access"); reveal_strlit("refresh"); }
    let access = token_claims(user_id, now, "access");
    let refresh = token_claims(user_id, now, "refresh");
    Ok((access, refresh))
}

/// The claims of the access and the refresh token issued to `user_id` now, as
/// [`issue_token_claims_at`] gives them at the clock's reading.
pub fn issue_token_claims(user_id: &str) -> (r: Result<(TokenClaims, TokenClaims), AuthFailure>)
    ensures
        exists|now: i64| match r {
            Ok((access, refresh)) => issued_claims(user_id@, now) == Some((access@, refresh@)),
            Err(e) => e == AuthFailure::ClockOutOfRange && #[trigger] issued_claims(user_id@, now) is None,
        },
{
    let now = now_unix_seconds();
    issue_token_claims_at(user_id, now)
}

/// What `jsonwebtoken::encode` gives for claims under a secret: the HS256 token
/// whose payload is the JSON object of the claims (`sub`, `exp`, `iat`, `token_type`)
/// and whose signature is the HMAC-SHA256 of header and payload under the secret.
pub uninterp spec fn jwt_signed(claims: TokenClaimsView, secret: Seq<char>) -> Seq<char>;

/// Signs the claims as a JSON object with `jsonwebtoken::encode`, the default (HS256)
/// header and `EncodingKey::from_secret`. With an HMAC key and a JSON object of
/// strings and integers, `encode` has no error to report: serialising the header and
/// the object cannot fail, and HMAC signing returns no error. Decoding the token under
/// the same secret checks the same HMAC and reads the same object back, so it gives
/// the claims again where `exp` is not negative (`decode` requires it as an unsigned
/// integer).
#[verifier::external_body]
fn jwt_encode(claims: &TokenClaims, secret: &str) -> (r: Option<String>)
    ensures
        r is Some,
        r.unwrap()@ == jwt_signed(claims@, secret@),
        claims.exp >= 0 ==> jwt_claims(r.unwrap()@, secret@) == Some(claims@),
{
    let mut m = JsonMap::new();
    m.insert("sub".to_string(), Value::from(claims.sub.as_str()));
    m.insert("exp".to_string(), Value::from(claims.exp));
    m.insert("iat".to_string(), Value::from(claims.iat));
    m.insert("token_type".to_string(), Value::from(claims.token_type.as_str()));
    jsonwebtoken::encode(&Header::default(), &m, &EncodingKey::from_secret(secret.as_bytes())).ok()
}

/// What `jsonwebtoken::decode` reads from a token under a secret, checking the HS256
/// signature and the presence of a non-negative integer `exp` but not the time: the
/// claims, where the payload is a JSON object with text `sub` and `token_type` and
/// integer `exp` and `iat`; none where any of that fails.
pub uninterp spec fn jwt_claims(token: Seq<char>, secret: Seq<char>) -> Option<TokenClaimsView>;

/// Decodes a token with `jsonwebtoken::decode` under `DecodingKey::from_secret` and an
/// HS256 `Validation` whose expiry check is off, into a JSON object, and reads its
/// four claims out of it.
#[verifier::external_body]
fn jwt_decode(token: &str, secret: &str) -> (r: Option<TokenClaims>)
    ensures
        match r {
            Some(c) => jwt_claims(token@, secret@) == Some(c@),
            None => jwt_claims(token@, secret@) is None,
        },
{
    let mut v = Validation::new(Algorithm::HS256);
    v.validate_exp = false;
    let key = DecodingKey::from_secret(secret.as_bytes());
    let m = jsonwebtoken::decode::<JsonMap<String, Value>>(token, &key, &v).ok()?.claims;
    let text = |k: &str| m.get(k).and_then(|x| x.as_str()).map(String::from);
    let number = |k: &str| m.get(k).and_then(|x| x.as_i64());
    Some(TokenClaims { sub: text("sub")?, exp: number("exp")?, iat: number("iat")?, token_type: text("token_type")? })
}

/// The seconds by which a token may be past its expiry and still be accepted.
pub const EXPIRY_LEEWAY_SECS: i64 = 60;

/// What checking `token` under `secret` at time `now` gives: the user id of a token
/// this server signed that expired no more than the leeway ago.
pub open spec fn token_check(token: Seq<char>, secret: Seq<char>, now: i64) -> Result<Seq<char>, AuthFailure> {
    match jwt_claims(token, secret) {
        None => Err(AuthFailure::InvalidToken),
        Some(c) => if c.exp >= now - EXPIRY_LEEWAY_SECS {
            Ok(c.sub)
        } else {
            Err(AuthFailure::TokenExpired)
        },
    }
}

/// The user id that a token carries, checked at time `now`.
pub fn validate_token_at(secret: &str, token: &str, now: i64) -> (r: Result<String, AuthFailure>)
    ensures
        match r {
            Ok(u) => token_check(token@, secret@, now) == Ok::<Seq<char>, AuthFailure>(u@),
            Err(e) => token_check(token@, secret@, now) == Err::<Seq<char>, AuthFailure>(e),
        },
{
    match jwt_decode(token, secret) {
        None => Err(AuthFailure::InvalidToken),
        Some(c) => {
            if now < i64::MIN + EXPIRY_LEEWAY_SECS || c.exp >= now - EXPIRY_LEEWAY_SECS {
                Ok(c.sub)
            } else {
                Err(AuthFailure::TokenExpired)
            }
        },
    }
}

/// The user id that a token carries, checked now.
pub fn validate_token(secret: &str, token: &str) -> (r: Result<String, AuthFailure>)
    ensures
        exists|now: i64| match r {
            Ok(u) => token_check(token@, secret@, now) == Ok::<Seq<char>, AuthFailure>(u@),
            Err(e) => #[trigger] token_check(token@, secret@, now) == Err::<Seq<char>, AuthFailure>(e),
        },
{
    let now = now_unix_seconds();
    validate_token_at(secret, token, now)
}

/// The tokens issued to `user_id` at `now` under `secret`: the signed access and
/// refresh claims, with no expiry announced; none where the expiry would not fit.
pub open spec fn tokens_at(user_id: Seq<char>, secret: Seq<char>, now: i64) -> Option<(Seq<char>, Seq<char>)> {
    match issued_claims(user_id, now) {
        Some((a, f)) => Some((jwt_signed(a, secret), jwt_signed(f, secret))),
        None => None,
    }
}

/// Issues and signs the access and the refresh token of `user_id` at time `now`.
pub fn generate_tokens_at(secret: &str, user_id: &str, now: i64) -> (r: Result<AuthTokens, AuthFailure>)
    ensures
        match r {
            Ok(t) => tokens_at(user_id@, secret@, now) == Some((t.access_token@, t.refresh_token@)) && t.expires_in == 0,
            Err(e) => e == AuthFailure::ClockOutOfRange && tokens_at(user_id@, secret@, now) is None,
        },
        match r {
            Ok(t) => now + TOKEN_LIFETIME_SECS >= 0 ==> {
                &&& jwt_claims(t.access_token@, secret@) == Some(claims_at(user_id@, now, "access"@))
                &&& jwt_claims(t.refresh_token@, secret@) == Some(claims_at(user_id@, now, "refresh"@))
            },
            Err(_) => true,
        },
{
    let (access, refresh) = match issue_token_claims_at(user_id, now) {
        Ok(p) => p,
        Err(e) => return Err(e),
    };
    let a = match jwt_encode(&access, secret) {
        Some(t) => t,
        None => return Err(AuthFailure::InvalidToken),
    };
    let f = match jwt_encode(&refresh, secret) {
        Some(t) => t,
        None => return Err(AuthFailure::InvalidToken),
    };
    Ok(AuthTokens::issued(a, f))
}

/// A token whose claims were issued to a user at `now` validates to that user up to
/// a minute past its expiry, one hundred years later.
pub proof fn lemma_issued_token_validates(
    token: Seq<char>,
    secret: Seq<char>,
    user_id: Seq<char>,
    now: i64,
    token_type: Seq<char>,
    later: i64,
)
    requires
        now <= i64::MAX - TOKEN_LIFETIME_SECS,
        jwt_claims(token, secret) == Some(claims_at(user_id, now, token_type)),
        later <= now + TOKEN_LIFETIME_SECS + EXPIRY_LEEWAY_SECS,
    ensures
        token_check(token, secret, later) == Ok::<Seq<char>, AuthFailure>(user_id),
{
}

/// Issues and signs the access and the refresh token of `user_id` now.
pub fn generate_tokens(secret: &str, user_id: &str) -> (r: Result<AuthTokens, AuthFailure>)
    ensures
        exists|now: i64| match r {
            Ok(t) => {
                &&& tokens_at(user_id@, secret@, now) == Some((t.access_token@, t.refresh_token@))
                &&& t.expires_in == 0
                &&& (now + TOKEN_LIFETIME_SECS >= 0 ==> {
                    &&& jwt_claims(t.access_token@, secret@) == Some(claims_at(user_id@, now, "access"@))
                    &&& jwt_claims(t.refresh_token@, secret@) == Some(claims_at(user_id@, now, "refresh"@))
                })
            },
            Err(e) => e == AuthFailure::ClockOutOfRange && #[trigger] tokens_at(user_id@, secret@, now) is None,
        },
{
    let now = now_unix_seconds();
    generate_tokens_at(secret, user_id, now)
}

/// Authentication tokens handed to a client.
#[derive(Debug, Clone)]
pub struct AuthTokens {
    pub access_token: String,
    pub refresh_token: String,
    /// Zero: the tokens do not expire in practice.
    pub expires_in: i64,
}

impl AuthTokens {
    /// The tokens of a login or registration; `expires_in` is 0, meaning no expiry.
    pub fn issued(access_token: String, refresh_token: String) -> (r: AuthTokens)
        ensures
            r.access_token@ == access_token@,
            r.refresh_token@ == refresh_token@,
            r.expires_in == 0,
    {
        AuthTokens { access_token, refresh_token, expires_in: 0 }
    }
}

/// A user account.
#[derive(Debug, Clone)]
pub struct User {
    pub id: String,
    pub email: String,
    pub name: Option<String>,
    pub avatar_url: Option<String>,
    /// Milliseconds since the Unix epoch.
    pub created_at: i64,
    /// Milliseconds since the Unix epoch.
    pub updated_at: i64,
}

/// A registration request.
#[derive(Debug, Clone)]
pub struct UserRegistration {
    pub email: String,
    pub name: Option<String>,
    pub password: String,
}

/// A login request.
#[derive(Debug, Clone)]
pub struct UserLogin {
    pub email: String,
    pub password: String,
}

/// A key for API authentication.
#[derive(Debug, Clone)]
pub struct AccessKey {
    pub id: String,
    pub user_id: String,
    pub name: String,
    pub key_prefix: String,
    pub permissions: Vec<String>,
    /// Milliseconds since the Unix epoch.
    pub created_at: i64,
    /// Milliseconds since the Unix epoch.
    pub expires_at: Option<i64>,
    /// Milliseconds since the Unix epoch.
    pub last_used_at: Option<i64>,
}

/// A request to create an access key.
#[derive(Debug, Clone)]
pub struct AccessKeyCreate {
    pub name: String,
    pub permissions: Vec<String>,
    pub expires_in_days: Option<i32>,
}

/// An access key with its secret, shown once.
#[derive(Debug, Clone)]
pub struct AccessKeyWithSecret {
    pub key: AccessKey,
    pub secret: String,
}

/// The body of a login request.
#[derive(Debug, Clone)]
pub struct LoginRequest {
    pub email: String,
    pub password: String,
}

/// The body of a registration request.
#[derive(Debug, Clone)]
pub struct RegisterRequest {
    pub email: String,
    pub name: Option<String>,
    pub password: String,
}

/// The user part of a login answer.
#[derive(Debug, Clone)]
pub struct UserInfo {
    pub id: String,
    pub email: String,
    pub name: Option<String>,
}

/// The answer to a login or registration.
#[derive(Debug, Clone)]
pub struct LoginResponse {
    pub access_token: String,
    pub refresh_token: String,
    pub expires_in: i64,
    pub user: UserInfo,
}

/// The answer of a login: the tokens, and the user with the email of the request
/// and no name.
pub fn login_response(tokens: AuthTokens, user_id: String, email: String) -> (r: LoginResponse)
    ensures
        r.access_token@ == tokens.access_token@,
        r.refresh_token@ == tokens.refresh_token@,
        r.expires_in == tokens.expires_in,
        r.user.id@ == user_id@,
        r.user.email@ == email@,
        r.user.name is None,
{
    LoginResponse {
        access_token: tokens.access_token,
        refresh_token: tokens.refresh_token,
        expires_in: tokens.expires_in,
        user: UserInfo { id: user_id, email, name: None },
    }
}

/// The answer of a registration: the tokens, and the user with the email and name
/// of the request.
pub fn register_response(tokens: AuthTokens, user_id: String, email: String, name: Option<String>) -> (r: LoginResponse)
    ensures
        r.access_token@ == tokens.access_token@,
        r.refresh_token@ == tokens.refresh_token@,
        r.expires_in == tokens.expires_in,
        r.user.id@ == user_id@,
        r.user.email@ == email@,
        opt_str_view(r.user.name) == opt_str_view(name),
{
    LoginResponse {
        access_token: tokens.access_token,
        refresh_token: tokens.refresh_token,
        expires_in: tokens.expires_in,
        user: UserInfo { id: user_id, email, name },
    }
}

/// HTTP status 400.
pub const BAD_REQUEST: u16 = 400;
/// HTTP status 401.
pub const UNAUTHORIZED: u16 = 401;
/// HTTP status 403.
pub const FORBIDDEN: u16 = 403;
/// HTTP status 404.
pub const NOT_FOUND: u16 = 404;
/// HTTP status 409.
pub const CONFLICT: u16 = 409;
/// HTTP status 500.
pub const INTERNAL_SERVER_ERROR: u16 = 500;

/// Whether a registration is well formed: the email holds `@` and the password
/// has at least 6 bytes.
pub open spec fn registration_ok(email: &str, password: &str) -> bool {
    crate::text::has_char(email@, '@') && password.len() >= 6
}

/// Checks a registration request before the store is asked: 400 when the email
/// holds no `@` or the password is shorter than 6 bytes.
pub fn check_registration(email: &str, password: &str) -> (r: Result<(), u16>)
    ensures
        r is Ok <==> registration_ok(email, password),
        r matches Err(code) ==> code == BAD_REQUEST,
{
    if !contains_char(email, '@') {
        return Err(BAD_REQUEST);
    }
    if password.len() < 6 {
        return Err(BAD_REQUEST);
    }
    Ok(())
}

/// Whether a new account may be made once the store was asked for the email: the
/// lookup failing is a server error (500), an account that already has the email a
/// conflict (409).
pub fn check_email_free(lookup: Result<Option<(String, String)>, String>) -> (r: Result<(), u16>)
    ensures
        match lookup {
            Err(_) => r == Err::<(), u16>(INTERNAL_SERVER_ERROR),
            Ok(Some(_)) => r == Err::<(), u16>(CONFLICT),
            Ok(None) => r is Ok,
        },
{
    match lookup {
        Err(_) => Err(INTERNAL_SERVER_ERROR),
        Ok(Some(_)) => Err(CONFLICT),
        Ok(None) => Ok(()),
    }
}

/// The user of an authenticated request.
#[derive(Debug, Clone)]
pub struct AuthUser {
    pub user_id: String,
    pub email: String,
}

/// A refused authentication: the HTTP status and the message.
#[derive(Debug, Clone)]
pub struct AuthError {
    pub status: u16,
    pub message: String,
}

/// The token of an `Authorization` header of the form `Bearer <token>`.
pub open spec fn bearer_token_of(header: Seq<char>) -> Option<Seq<char>> {
    if crate::text::has_prefix(header, "Bearer "@) {
        Some(header.skip(7))
    } else {
        None
    }
}

/// The token of an `Authorization` header value, if it has the form `Bearer <token>`.
pub fn bearer_token(header: &str) -> (r: Option<String>)
    ensures
        match r {
            Some(t) => bearer_token_of(header@) == Some(t@),
            None => bearer_token_of(header@) is None,
        },
{
    proof {
        reveal_strlit("Bearer ");
    }
    if starts_with(header, "Bearer ") {
        let n = header.unicode_len();
        let mut t = String::new();
        let mut i: usize = 7;
        while i < n
            invariant
                n == header@.len(),
                7 <= i <= n,
                t@ == header@.subrange(7, i as int),
            decreases n - i,
        {
            let c = header.get_char(i);
            t.push(c);
            assert(header@.subrange(7, i as int + 1) =~= header@.subrange(7, i as int).push(c));
            i = i + 1;
        }
        assert(header@.subrange(7, n as int) =~= header@.skip(7));
        Some(t)
    } else {
        None
    }
}

/// The token of a request for a protected route, or why it is refused: 401 when the
/// `Authorization` header is missing or is not of the form `Bearer <token>`.
pub fn auth_token(header: Option<&str>) -> (r: Result<String, AuthError>)
    ensures
        match header {
            None => r matches Err(e) && e.status == UNAUTHORIZED && e.message@ == "Missing Authorization header"@,
            Some(h) => match bearer_token_of(h@) {
                Some(t) => r matches Ok(tok) && tok@ == t,
                None => r matches Err(e) && e.status == UNAUTHORIZED && e.message@ == "Invalid Authorization format"@,
            },
        },
{
    match header {
        None => Err(AuthError { status: UNAUTHORIZED, message: owned("Missing Authorization header") }),
        Some(h) => match bearer_token(h) {
            Some(t) => Ok(t),
            None => Err(AuthError { status: UNAUTHORIZED, message: owned("Invalid Authorization format") }),
        },
    }
}

/// A token that did not validate: 401 with the validation error.
pub fn invalid_token(reason: &str) -> (r: AuthError)
    ensures
        r.status == UNAUTHORIZED,
        r.message@ == "Invalid token: "@ + reason@,
{
    AuthError { status: UNAUTHORIZED, message: concat("Invalid token: ", reason) }
}

/// The user of a request whose token named a user id, from the account lookup
/// `(id, email, name)`: 401 when there is no such account, 500 when the store failed.
pub fn auth_user_from_lookup(lookup: Result<Option<(String, String, Option<String>)>, String>) -> (r: Result<AuthUser, AuthError>)
    ensures
        match lookup {
            Ok(Some((id, email, _))) => r matches Ok(u) && u.user_id@ == id@ && u.email@ == email@,
            Ok(None) => r matches Err(e) && e.status == UNAUTHORIZED && e.message@ == "User not found"@,
            Err(m) => r matches Err(e) && e.status == INTERNAL_SERVER_ERROR && e.message@ == "Database error: "@ + m@,
        },
{
    match lookup {
        Ok(Some((id, email, _))) => Ok(AuthUser { user_id: id, email }),
        Ok(None) => Err(AuthError { status: UNAUTHORIZED, message: owned("User not found") }),
        Err(m) => Err(AuthError { status: INTERNAL_SERVER_ERROR, message: concat("Database error: ", m.as_str()) }),
    }
}

/// The value of a request header, or `default` when the request has none.
pub fn header_or(value: Option<&str>, default: &str) -> (r: String)
    ensures
        r@ == match value {
            Some(v) => v@,
            None => default@,
        },
{
    match value {
        Some(v) => owned(v),
        None => owned(default),
    }
}

/// The machine id of a session request: the `X-Machine-ID` header, or `unknown`.
pub fn machine_id_from_header(value: Option<&str>) -> (r: String)
    ensures
        r@ == match value {
            Some(v) => v@,
            None => "unknown"@,
        },
{
    header_or(value, "unknown")
}

/// The machine name of a session request: the `X-Machine-Name` header, or `Unknown Machine`.
pub fn machine_name_from_header(value: Option<&str>) -> (r: String)
    ensures
        r@ == match value {
            Some(v) => v@,
            None => "Unknown Machine"@,
        },
{
    header_or(value, "Unknown Machine")
}

/// The body of a session creation request.
#[derive(Debug, Clone)]
pub struct CreateSessionRequest {
    pub tag: String,
    pub profile: Option<String>,
    pub cwd: Option<String>,
}

/// The working directory of a new session: the requested one, or `/`.
pub fn requested_cwd(cwd: Option<String>) -> (r: String)
    ensures
        r@ == match cwd {
            Some(c) => c@,
            None => "/"@,
        },
{
    match cwd {
        Some(c) => c,
        None => owned("/"),
    }
}

/// The body of a machine registration request.
#[derive(Debug, Clone)]
pub struct RegisterMachineRequest {
    pub name: String,
    pub public_key: Vec<u8>,
}

/// What `GET /sessions/:id` answers for the session found (or not) for the user:
/// the session when the user owns it, 403 when another user does, 404 when there
/// is none, 500 when the store failed.
pub fn session_access(lookup: Result<Option<Session>, String>, user_id: &str) -> (r: Result<Session, u16>)
    ensures
        match lookup {
            Ok(Some(s)) => if s.user_id@ == user_id@ {
                r matches Ok(t) && t@ == s@
            } else {
                r == Err::<Session, u16>(FORBIDDEN)
            },
            Ok(None) => r == Err::<Session, u16>(NOT_FOUND),
            Err(_) => r == Err::<Session, u16>(INTERNAL_SERVER_ERROR),
        },
{
    match lookup {
        Ok(Some(s)) => {
            if crate::text::str_eq(s.user_id.as_str(), user_id) {
                Ok(s)
            } else {
                Err(FORBIDDEN)
            }
        },
        Ok(None) => Err(NOT_FOUND),
        Err(_) => Err(INTERNAL_SERVER_ERROR),
    }
}

/// How `DELETE /sessions/:id` ends a session.
#[derive(Debug, Clone, Copy, PartialEq, Eq, Structural)]
pub enum Deletion {
    /// Mark it terminated and keep it; its CLI bridge is told it stopped.
    Terminate,
    /// Remove it for good; its CLI bridge is told it was deleted.
    Remove,
}

/// A running or paused session is terminated; an initializing or terminated one is removed.
pub fn deletion_for(status: SessionStatus) -> (r: Deletion)
    ensures
        r == (match status {
            SessionStatus::Running | SessionStatus::Paused => Deletion::Terminate,
            SessionStatus::Initializing | SessionStatus::Terminated => Deletion::Remove,
        }),
{
    match status {
        SessionStatus::Running | SessionStatus::Paused => Deletion::Terminate,
        SessionStatus::Initializing | SessionStatus::Terminated => Deletion::Remove,
    }
}

/// The notice the CLI bridge of a deleted session gets.
pub fn deletion_notice(kind: Deletion, session_id: String) -> (r: crate::messages::ServerMessage)
    ensures
        r@ == (match kind {
            Deletion::Terminate => crate::messages::ServerMessageView::SessionStopped { session_id: session_id@ },
            Deletion::Remove => crate::messages::ServerMessageView::SessionDeleted { session_id: session_id@ },
        }),
{
    match kind {
        Deletion::Terminate => crate::messages::ServerMessage::SessionStopped { session_id },
        Deletion::Remove => crate::messages::ServerMessage::SessionDeleted { session_id },
    }
}

/// The answer of `GET /users/me`.
#[derive(Debug, Clone)]
pub struct UserResponse {
    pub id: String,
    pub email: String,
    pub name: Option<String>,
    pub avatar_url: Option<String>,
    pub created_at: String,
    pub updated_at: String,
}

/// The answer of `GET /users/me` for the user of the token at time `now` (RFC 3339
/// text): the administrator account's fixed email and name, created and updated now.
pub fn me_response(user_id: String, now: &str) -> (r: UserResponse)
    ensures
        r.id@ == user_id@,
        r.email@ == "admin@hackerlife.fun"@,
        opt_str_view(r.name) == Some("Admin"@),
        r.avatar_url is None,
        r.created_at@ == now@,
        r.updated_at@ == now@,
{
    UserResponse {
        id: user_id,
        email: owned("admin@hackerlife.fun"),
        name: Some(owned("Admin")),
        avatar_url: None,
        created_at: owned(now),
        updated_at: owned(now),
    }
}

} // verus!
