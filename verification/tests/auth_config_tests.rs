use greeniem::auth::{
    auth_cookie, authenticate, check_setup_allowed, login_outcome, logout_cookie, prepare_admin, setup_status,
    AdminAccount, SESSION_MAX_AGE_SECONDS,
};
use greeniem::config::{Config, ConfigError};
use greeniem::error::ErrorKind;
use greeniem::shared::AdminCredentials;

fn creds() -> AdminCredentials {
    AdminCredentials { username: "admin".to_string(), password: "password1".to_string() }
}

#[test]
fn setup_only_while_no_admin_exists() {
    assert!(setup_status(0).needs_setup);
    assert!(!setup_status(1).needs_setup);
    assert!(check_setup_allowed(&creds(), 0).is_ok());
    let e = check_setup_allowed(&creds(), 1).unwrap_err();
    assert_eq!(e.kind, ErrorKind::Forbidden);
    assert_eq!(e.status(), 403);
    assert_eq!(e.message, "an admin account already exists");
    let bad = AdminCredentials { username: "ad".to_string(), password: "password1".to_string() };
    assert_eq!(check_setup_allowed(&bad, 1).unwrap_err().kind, ErrorKind::BadRequest);
}

#[test]
fn login_failures_look_the_same() {
    let ok = login_outcome(Some("admin".to_string()), true).unwrap();
    assert_eq!(ok.username, "admin");
    let unknown = login_outcome(None, true).unwrap_err();
    let wrong = login_outcome(Some("admin".to_string()), false).unwrap_err();
    assert_eq!(unknown, wrong);
    assert_eq!(wrong.kind, ErrorKind::Unauthorized);
    assert_eq!(wrong.message, "invalid username or password");
    assert_eq!(wrong.to_api_error().error, "invalid username or password");
    assert!(!wrong.to_api_error().captcha_required);
}

#[test]
fn session_cookies() {
    let c = auth_cookie("tok".to_string(), true);
    assert_eq!(c.name, "greeniem_admin_token");
    assert_eq!(c.value, "tok");
    assert_eq!(c.path, "/");
    assert!(c.http_only && c.same_site_lax && c.secure);
    assert_eq!(c.max_age_seconds, SESSION_MAX_AGE_SECONDS);
    assert_eq!(SESSION_MAX_AGE_SECONDS, 12 * 3600);
    let l = logout_cookie();
    assert_eq!(l.name, "greeniem_admin_token");
    assert_eq!(l.value, "");
    assert_eq!(l.max_age_seconds, 0);
}

fn s(v: &str) -> Option<String> {
    Some(v.to_string())
}

#[test]
fn config_defaults_and_requirements() {
    let c = Config::from_values(s("mongodb://x"), None, s("secret"), None, None).unwrap();
    assert_eq!(c.database_name, "greeniem");
    assert_eq!(c.port, 8080);
    assert!(c.cookie_secure);
    let c = Config::from_values(s("m"), s("db"), s("k"), s("3000"), s("false")).unwrap();
    assert_eq!((c.database_name.as_str(), c.port, c.cookie_secure), ("db", 3000, false));
    let c = Config::from_values(s("m"), None, s("k"), s("70000"), s("yes")).unwrap();
    assert_eq!((c.port, c.cookie_secure), (8080, true));
    assert_eq!(Config::from_values(None, None, s("k"), None, None), Err(ConfigError::MissingMongodbUri));
    assert_eq!(Config::from_values(s("m"), None, None, None, None), Err(ConfigError::MissingJwtSecret));
}

#[test]
fn the_first_admin_is_stored_with_an_argon2id_hash() {
    let account = prepare_admin(&creds(), 0).unwrap();
    assert_eq!(account.username, "admin");
    assert_ne!(account.password_hash, "password1");
    assert!(account.password_hash.starts_with("$argon2id$"));
    let again = prepare_admin(&creds(), 0).unwrap();
    assert_ne!(again.password_hash, account.password_hash);
    let err = prepare_admin(&creds(), 1).unwrap_err();
    assert_eq!(err.kind, ErrorKind::Forbidden);
    let short = AdminCredentials { username: "admin".to_string(), password: "short".to_string() };
    assert_eq!(prepare_admin(&short, 0).unwrap_err().kind, ErrorKind::BadRequest);
}

#[test]
fn login_checks_the_password_against_the_stored_hash() {
    let account = prepare_admin(&creds(), 0).unwrap();
    let me = authenticate(Some(account.clone()), "password1").unwrap();
    assert_eq!(me.username, "admin");
    let wrong = authenticate(Some(account), "password2").unwrap_err();
    assert_eq!(wrong.kind, ErrorKind::Unauthorized);
    assert_eq!(wrong.message, "invalid username or password");
    let unknown = authenticate(None, "password1").unwrap_err();
    assert_eq!(unknown, wrong);
    let garbage = AdminAccount { username: "admin".to_string(), password_hash: "password1".to_string() };
    assert_eq!(authenticate(Some(garbage), "password1").unwrap_err(), wrong);
}

fn claims_of(token: &str, secret: &str, check_expiry: bool) -> Option<bson::Document> {
    let mut validation = jsonwebtoken::Validation::default();
    validation.validate_exp = check_expiry;
    jsonwebtoken::decode::<bson::Document>(token, &jsonwebtoken::DecodingKey::from_secret(secret.as_bytes()), &validation)
        .ok()
        .map(|data| data.claims)
}

fn expiry_of(claims: &bson::Document) -> i64 {
    match claims.get("exp") {
        Some(bson::Bson::Int32(v)) => *v as i64,
        Some(bson::Bson::Int64(v)) => *v,
        other => panic!("unexpected expiry {other:?}"),
    }
}

#[test]
fn session_tokens_name_the_admin_and_last_twelve_hours() {
    let now = std::time::SystemTime::now().duration_since(std::time::UNIX_EPOCH).unwrap().as_secs() as i64;
    let token = greeniem::auth::create_token("admin", now, "s3cret");
    assert_eq!(token.split('.').count(), 3);
    let claims = claims_of(&token, "s3cret", true).unwrap();
    assert_eq!(claims.get_str("sub").unwrap(), "admin");
    assert_eq!(expiry_of(&claims), now + 43_200);
    assert!(claims_of(&token, "other", true).is_none());
    // Before the epoch the expiry is held at zero.
    let early = greeniem::auth::create_token("admin", -50_000, "s3cret");
    assert_eq!(expiry_of(&claims_of(&early, "s3cret", false).unwrap()), 0);
}

#[test]
fn session_tokens_are_checked_against_the_secret() {
    let now = std::time::SystemTime::now().duration_since(std::time::UNIX_EPOCH).unwrap().as_secs() as i64;
    let token = greeniem::auth::create_token("admin", now, "s3cret");
    let admin = greeniem::auth::session_admin(&token, "s3cret").unwrap();
    assert_eq!(admin.username, "admin");
    assert!(greeniem::auth::session_admin(&token, "other").is_none());
    assert!(greeniem::auth::session_admin("not-a-token", "s3cret").is_none());
    // A token that expired long ago is refused.
    let old = greeniem::auth::create_token("admin", 1_000, "s3cret");
    assert!(greeniem::auth::session_admin(&old, "s3cret").is_none());
}
