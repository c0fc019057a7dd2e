//! Administrator accounts: first-time setup, login, and the session cookie.

use argon2::{PasswordHasher, PasswordVerifier};
use vstd::prelude::*;

use crate::error::{AppError, ErrorKind};
use crate::shared::{AdminCredentials, AdminMe, SetupStatus};
use crate::text::byte_len;
use crate::validation::{credentials_error, validate_credentials};

verus! {

/// The name of the cookie that carries an administrator's session token.
pub open spec fn auth_cookie_name() -> Seq<char> {
    "greeniem_admin_token"@
}

/// How long a session cookie lives: 12 hours, in seconds.
pub const SESSION_MAX_AGE_SECONDS: i64 = 43_200;

/// The administrator behind a request with a valid session.
#[derive(Debug, Clone, PartialEq)]
pub struct AdminUser {
    pub username: String,
}

/// What a response sets as a cookie.
#[derive(Debug, Clone, PartialEq)]
pub struct CookieSettings {
    pub name: String,
    pub value: String,
    pub path: String,
    pub http_only: bool,
    pub same_site_lax: bool,
    pub secure: bool,
    pub max_age_seconds: i64,
}

/// Whether the first administrator account still has to be created: exactly
/// when there is none.
pub fn setup_status(admin_count: u64) -> (s: SetupStatus)
    ensures
        s.needs_setup == (admin_count == 0),
{
    SetupStatus { needs_setup: admin_count == 0 }
}

/// The answer owed to a setup request: the credentials' first broken rule,
/// else 403 once any administrator exists.
pub open spec fn setup_outcome(r: Result<(), AppError>, input: AdminCredentials, admin_count: u64) -> bool {
    match credentials_error(input) {
        Some(msg) => r matches Err(e) && e.kind == ErrorKind::BadRequest && e.message@ == msg,
        None => if admin_count > 0 {
            r matches Err(e) && e.kind == ErrorKind::Forbidden && e.message@
                == "an admin account already exists"@
        } else {
            r is Ok
        },
    }
}

/// Decides whether the first administrator account may be created: only
/// with valid credentials and only while no administrator exists, so that a
/// later request cannot replay it.
pub fn check_setup_allowed(input: &AdminCredentials, admin_count: u64) -> (r: Result<(), AppError>)
    ensures
        setup_outcome(r, *input, admin_count),
{
    validate_credentials(input)?;
    if admin_count > 0 {
        return Err(AppError::forbidden("an admin account already exists"));
    }
    Ok(())
}

/// The answer owed to a login: the stored account when it exists and the
/// password matched, else 401 with the same message in both cases.
pub open spec fn login_outcome_spec(r: Result<AdminMe, AppError>, stored: Option<Seq<char>>, password_ok: bool) -> bool {
    match stored {
        Some(u) if password_ok => r matches Ok(me) && me.username@ == u,
        _ => r matches Err(e) && e.kind == ErrorKind::Unauthorized && e.message@
            == "invalid username or password"@,
    }
}

/// Decides a login from the stored account found for the user name (if any)
/// and whether the password matched its hash.
pub fn login_outcome(stored_username: Option<String>, password_ok: bool) -> (r: Result<AdminMe, AppError>)
    ensures
        login_outcome_spec(r, match stored_username {
            Some(u) => Some(u@),
            None => None,
        }, password_ok),
{
    match stored_username {
        Some(u) => {
            if password_ok {
                Ok(AdminMe { username: u })
            } else {
                Err(AppError::unauthorized("invalid username or password"))
            }
        },
        None => Err(AppError::unauthorized("invalid username or password")),
    }
}

/// What `argon2::Argon2::default().verify_password` answers for a password
/// and a stored PHC hash string parsed by `PasswordHash::new`: whether the
/// password hashes, under the hash's own algorithm, version, parameters and
/// salt, to the stored output.
pub uninterp spec fn argon2_accepts(password: Seq<char>, phc_hash: Seq<char>) -> bool;

/// `argon2::password_hash::PasswordHash::new` on the stored text, then
/// `Argon2::default().verify_password` on the password's UTF-8 bytes; `false`
/// when the text is not a PHC string or the password does not match. Trusted:
/// the answer is the named [`argon2_accepts`] of the two texts.
#[verifier::external_body]
fn password_matches(password: &str, phc_hash: &str) -> (ok: bool)
    ensures
        ok == argon2_accepts(password@, phc_hash@),
{
    match argon2::password_hash::PasswordHash::new(phc_hash) {
        Ok(parsed) => argon2::Argon2::default().verify_password(password.as_bytes(), &parsed).is_ok(),
        Err(_) => false,
    }
}

/// `Argon2::default().hash_password` (Argon2id) of the password's UTF-8 bytes
/// under a fresh salt from `SaltString::generate` with the operating system's
/// generator, as its PHC string; `None` when the crate answers an error.
/// Trusted: with the default parameters and a generated salt, the one error
/// that depends on the input is a password longer than `MAX_PWD_LEN`
/// (`0xFFFFFFFF` bytes), so a shorter one is always hashed; the PHC string
/// starts with the algorithm's identifier, `$argon2id$`; and the hash accepts
/// the password it was made from, the round trip the crate's documentation
/// shows. The salt is random, so the rest of the text is left unsaid.
#[verifier::external_body]
fn hash_with_fresh_salt(password: &str) -> (h: Option<String>)
    ensures
        byte_len(password@) <= 0xFFFF_FFFF ==> h is Some,
        h matches Some(t) ==> argon2_accepts(password@, t@) && argon2id_prefix().is_prefix_of(t@),
{
    let salt = argon2::password_hash::SaltString::generate(&mut rand::rngs::OsRng);
    match argon2::Argon2::default().hash_password(password.as_bytes(), &salt) {
        Ok(hash) => Some(hash.to_string()),
        Err(_) => None,
    }
}

/// The start of every PHC string of an Argon2id hash.
pub open spec fn argon2id_prefix() -> Seq<char> {
    "$argon2id$"@
}

/// A stored administrator account: the user name and the PHC string of an
/// Argon2id hash of the password.
#[derive(Debug, Clone, PartialEq)]
pub struct AdminAccount {
    pub username: String,
    pub password_hash: String,
}

/// Whether setup is refused whatever else happens: broken credentials, or an
/// administrator exists already.
pub open spec fn setup_refused(input: AdminCredentials, admin_count: u64) -> bool {
    credentials_error(input) is Some || admin_count > 0
}

/// The first administrator account to store: refused as
/// [`check_setup_allowed`] decides, else the user name with a fresh Argon2id
/// hash of the password (a PHC string starting `$argon2id$`), which that
/// password verifies against.
pub fn prepare_admin(input: &AdminCredentials, admin_count: u64) -> (r: Result<AdminAccount, AppError>)
    ensures
        setup_refused(*input, admin_count) ==> (r matches Err(e) && setup_outcome(
            Err(e),
            *input,
            admin_count,
        )),
        !setup_refused(*input, admin_count) ==> (r matches Ok(acc) && acc.username@
            == input.username@ && argon2_accepts(input.password@, acc.password_hash@)
            && argon2id_prefix().is_prefix_of(acc.password_hash@)),
{
    check_setup_allowed(input, admin_count)?;
    match hash_with_fresh_salt(input.password.as_str()) {
        Some(h) => Ok(AdminAccount { username: input.username.clone(), password_hash: h }),
        None => Err(AppError::internal("internal error")),
    }
}

/// Decides a login from the account stored under the user name (if any):
/// the account when the password verifies against its hash, else 401 with
/// the same message whichever part was wrong.
pub fn authenticate(stored: Option<AdminAccount>, password: &str) -> (r: Result<AdminMe, AppError>)
    ensures
        login_outcome_spec(
            r,
            match stored {
                Some(a) => Some(a.username@),
                None => None,
            },
            stored matches Some(a) && argon2_accepts(password@, a.password_hash@),
        ),
{
    match stored {
        Some(a) => {
            let ok = password_matches(password, a.password_hash.as_str());
            login_outcome(Some(a.username), ok)
        },
        None => login_outcome(None, false),
    }
}

/// A password verifies against the hash stored for it at setup: the account
/// prepared from some credentials lets those credentials log in.
pub proof fn law_setup_then_login(
    input: AdminCredentials,
    admin_count: u64,
    acc: AdminAccount,
    r: Result<AdminMe, AppError>,
)
    requires
        !setup_refused(input, admin_count),
        acc.username@ == input.username@,
        argon2_accepts(input.password@, acc.password_hash@),
        login_outcome_spec(r, Some(acc.username@), argon2_accepts(input.password@, acc.password_hash@)),
    ensures
        r matches Ok(me) && me.username@ == input.username@,
{
}

/// The expiry written into a session token issued at `now` (Unix seconds):
/// [`SESSION_MAX_AGE_SECONDS`] later, and never before the epoch.
pub open spec fn session_expiry(now: i64) -> i64 {
    if now + SESSION_MAX_AGE_SECONDS < 0 {
        0
    } else {
        (now + SESSION_MAX_AGE_SECONDS) as i64
    }
}

/// What `jsonwebtoken::encode` gives with `Header::default()` (HS256) for the
/// claims `{"sub": subject, "exp": expires}` signed with
/// `EncodingKey::from_secret` of the secret's bytes.
pub uninterp spec fn hs256_session_token(subject: Seq<char>, expires: i64, secret: Seq<char>) -> Seq<
    char,
>;

/// The `sub` text of the claims of a token whose HS256 signature checks out
/// under `DecodingKey::from_secret` of the secret's bytes, as
/// `jsonwebtoken::decode` reads them; `None` for any other token. This part
/// of `decode` does not look at the clock.
pub uninterp spec fn hs256_verified_subject(token: Seq<char>, secret: Seq<char>) -> Option<
    Seq<char>,
>;

/// `jsonwebtoken::encode` with `Header::default()` of the claims `sub` and
/// `exp`, in that order, keyed with `EncodingKey::from_secret`; `None` when
/// the crate answers an error. Trusted: it never does here, since an HMAC key
/// from `from_secret` always suits the HS256 header, HS256 signing always
/// succeeds, and a string and an integer always serialize; the token is the
/// named [`hs256_session_token`] of the three arguments; and its signature
/// checks out under the same secret with the subject as its `sub`, the round
/// trip of `encode` and `decode` that the crate's examples show.
#[verifier::external_body]
fn encode_session_token(subject: &str, expires: i64, secret: &str) -> (t: Option<String>)
    ensures
        t is Some,
        t is Some ==> t->0@ == hs256_session_token(subject@, expires, secret@),
        t is Some ==> hs256_verified_subject(t->0@, secret@) == Some(subject@),
{
    let mut claims = bson::Document::new();
    claims.insert("sub", subject);
    claims.insert("exp", expires);
    let key = jsonwebtoken::EncodingKey::from_secret(secret.as_bytes());
    jsonwebtoken::encode(&jsonwebtoken::Header::default(), &claims, &key).ok()
}

/// A signed session token for `username` issued at `now` (Unix seconds),
/// expiring [`SESSION_MAX_AGE_SECONDS`] later.
pub fn create_token(username: &str, now: i64, secret: &str) -> (t: String)
    requires
        now <= i64::MAX - SESSION_MAX_AGE_SECONDS,
    ensures
        t@ == hs256_session_token(username@, session_expiry(now), secret@),
        hs256_verified_subject(t@, secret@) == Some(username@),
{
    let later = now + SESSION_MAX_AGE_SECONDS;
    let expires: i64 = if later < 0 {
        0
    } else {
        later
    };
    match encode_session_token(username, expires, secret) {
        Some(t) => t,
        None => String::new(),
    }
}

/// `jsonwebtoken::decode::<bson::Document>` of the token with
/// `DecodingKey::from_secret` of the secret's bytes and `Validation::default()`
/// (an HS256 signature, and an `exp` claim that the crate checks against the
/// system clock), then the claims' `sub` text; `None` when the crate refuses
/// the token or `sub` is not a text. Whether an answer comes back rests on
/// the clock, so that is left unsaid. Trusted: an answer that comes back is
/// the `sub` of a token whose signature checks out, the named
/// [`hs256_verified_subject`].
#[verifier::external_body]
fn decode_session_subject(token: &str, secret: &str) -> (r: Option<String>)
    ensures
        r matches Some(sub) ==> hs256_verified_subject(token@, secret@) == Some(sub@),
{
    let key = jsonwebtoken::DecodingKey::from_secret(secret.as_bytes());
    match jsonwebtoken::decode::<bson::Document>(token, &key, &jsonwebtoken::Validation::default()) {
        Ok(data) => data.claims.get_str("sub").ok().map(String::from),
        Err(_) => None,
    }
}

/// The administrator a session token names, when the token's signature
/// checks out against the secret and it has not expired. An administrator
/// that comes back is the subject of a token signed with the secret; whether
/// the token has expired rests on the system clock at the call, so when the
/// answer is `None` is left unsaid.
pub fn session_admin(token: &str, secret: &str) -> (a: Option<AdminUser>)
    ensures
        a matches Some(u) ==> hs256_verified_subject(token@, secret@) == Some(u.username@),
{
    match decode_session_subject(token, secret) {
        Some(username) => Some(AdminUser { username }),
        None => None,
    }
}

/// The session cookie: the token, HTTP-only, same-site lax, for the whole
/// site, secure as configured, living 12 hours.
pub fn auth_cookie(token: String, secure: bool) -> (c: CookieSettings)
    ensures
        c.name@ == auth_cookie_name(),
        c.value@ == token@,
        c.path@ == "/"@,
        c.http_only,
        c.same_site_lax,
        c.secure == secure,
        c.max_age_seconds == SESSION_MAX_AGE_SECONDS,
{
    CookieSettings {
        name: String::from_str("greeniem_admin_token"),
        value: token,
        path: String::from_str("/"),
        http_only: true,
        same_site_lax: true,
        secure,
        max_age_seconds: SESSION_MAX_AGE_SECONDS,
    }
}

/// The cookie that ends a session: the same name, an empty value, for the
/// whole site, expiring at once, with no other attribute set.
pub fn logout_cookie() -> (c: CookieSettings)
    ensures
        c.name@ == auth_cookie_name(),
        c.value@.len() == 0,
        c.path@ == "/"@,
        !c.http_only,
        !c.same_site_lax,
        !c.secure,
        c.max_age_seconds == 0,
{
    CookieSettings {
        name: String::from_str("greeniem_admin_token"),
        value: String::new(),
        path: String::from_str("/"),
        http_only: false,
        same_site_lax: false,
        secure: false,
        max_age_seconds: 0,
    }
}

/// Once an administrator exists, setup is refused for every input.
pub proof fn law_setup_closed_once_admin_exists(r: Result<(), AppError>, input: AdminCredentials, admin_count: u64)
    requires
        admin_count > 0,
        setup_outcome(r, input, admin_count),
    ensures
        r is Err,
{
}

/// A failed login says the same whether the user name is unknown or the
/// password is wrong.
pub proof fn law_login_failures_alike(
    r1: Result<AdminMe, AppError>,
    r2: Result<AdminMe, AppError>,
    name: Seq<char>,
)
    requires
        login_outcome_spec(r1, None, true),
        login_outcome_spec(r2, Some(name), false),
    ensures
        r1 matches Err(e1) && r2 matches Err(e2) && e1.kind == e2.kind && e1.message@ == e2.message@,
{
}

} // verus!
