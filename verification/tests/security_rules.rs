use nano_image_server::security::extract_token;
use nano_image_server::security::AuthError;
use nano_image_server::security::Claims;
use nano_image_server::security::JwtConfig;
use nano_image_server::security::DEFAULT_EXPIRATION;

fn claims_at(now: usize) -> Claims {
    Claims::new("alice".to_string(), now, 3600)
}

#[test]
fn config_defaults() {
    let config = JwtConfig::new("s3cr3t".to_string(), None, None, None);
    assert_eq!(
        config,
        JwtConfig {
            secret: "s3cr3t".to_string(),
            expiration: 3600,
            issuer: "nano_image_server".to_string(),
            audience: "nano_image_client".to_string(),
        }
    );
    assert_eq!(DEFAULT_EXPIRATION, 3600);
}

#[test]
fn config_takes_what_is_set() {
    let config =
        JwtConfig::new("k".to_string(), Some(60), Some("me".to_string()), Some("you".to_string()));
    assert_eq!(
        config,
        JwtConfig {
            secret: "k".to_string(),
            expiration: 60,
            issuer: "me".to_string(),
            audience: "you".to_string(),
        }
    );
}

#[test]
fn new_claims_start_now_and_end_after_the_lifetime() {
    assert_eq!(
        claims_at(1000),
        Claims {
            aud: "nano_image_client".to_string(),
            exp: 4600,
            iat: 1000,
            iss: "nano_image_server".to_string(),
            nbf: 1000,
            sub: "alice".to_string(),
        }
    );
}

#[test]
fn issue_refuses_a_lifetime_past_the_end_of_time() {
    assert_eq!(Claims::issue("a".to_string(), 10, 5), Some(Claims::new("a".to_string(), 10, 5)));
    assert_eq!(
        Claims::issue("a".to_string(), usize::MAX - 5, 5).map(|c| c.exp),
        Some(usize::MAX)
    );
    assert_eq!(Claims::issue("a".to_string(), usize::MAX - 4, 5), None);
    assert_eq!(Claims::issue("a".to_string(), usize::MAX, 1), None);
}

#[test]
fn claims_hold_during_their_lifetime() {
    let claims = claims_at(1000);
    assert_eq!(claims.check(1000), Ok(()));
    assert_eq!(claims.check(4599), Ok(()));
    assert_eq!(claims.check(4600), Err(AuthError::InvalidTokenError));
    assert_eq!(claims.check(5000), Err(AuthError::InvalidTokenError));
    assert_eq!(claims.check(999), Err(AuthError::InvalidTokenError));
}

#[test]
fn claims_of_another_issuer_or_audience_are_refused() {
    let mut claims = claims_at(1000);
    claims.iss = "someone_else".to_string();
    assert_eq!(claims.check(2000), Err(AuthError::InvalidTokenError));
    let mut claims = claims_at(1000);
    claims.aud = "someone_else".to_string();
    assert_eq!(claims.check(2000), Err(AuthError::InvalidTokenError));
    let mut claims = claims_at(1000);
    claims.sub = "bob".to_string();
    assert_eq!(claims.check(2000), Ok(()));
}

#[test]
fn token_follows_the_scheme() {
    assert_eq!(extract_token("Bearer abc.def.ghi"), Ok("abc.def.ghi".to_string()));
    assert_eq!(extract_token("Bearer "), Ok(String::new()));
    assert_eq!(extract_token("Bearer  x"), Ok(" x".to_string()));
    assert_eq!(extract_token("Bearer t\u{f6}ken"), Ok("t\u{f6}ken".to_string()));
    assert_eq!(extract_token("bearer abc"), Err(AuthError::InvalidTokenError));
    assert_eq!(extract_token("Bearer"), Err(AuthError::InvalidTokenError));
    assert_eq!(extract_token("Basic abc"), Err(AuthError::InvalidTokenError));
    assert_eq!(extract_token(""), Err(AuthError::InvalidTokenError));
    assert_eq!(extract_token(" Bearer abc"), Err(AuthError::InvalidTokenError));
}
