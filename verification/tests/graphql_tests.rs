use base64::Engine;
use sleeper_bot::graphql::{
    check_token, decode_jwt_claims, decode_jwt_expiry, decode_jwt_user_id, token_is_set,
    token_status, token_user_id, JwtError, TokenCheck, TokenStatus,
};

fn encode(s: &str) -> String {
    base64::prelude::BASE64_URL_SAFE_NO_PAD.encode(s)
}

fn token_with(payload: &str) -> String {
    format!("{}.{}.sig", encode(r#"{"alg":"HS256"}"#), encode(payload))
}

#[test]
fn test_decode_jwt_expiry() {
    let header = encode(r#"{"alg":"HS256","typ":"JWT"}"#);
    let payload = encode(r#"{"exp":1805745375,"user_id":"123"}"#);
    let token = format!("{header}.{payload}.fakesignature");

    let exp = decode_jwt_expiry(&token).unwrap();
    assert_eq!(exp, Some(1805745375));
}

#[test]
fn test_decode_jwt_no_exp() {
    let header = encode(r#"{"alg":"HS256"}"#);
    let payload = encode(r#"{"user_id":"123"}"#);
    let token = format!("{header}.{payload}.fakesig");

    let exp = decode_jwt_expiry(&token).unwrap();
    assert_eq!(exp, None);
}

#[test]
fn test_decode_jwt_invalid() {
    assert!(decode_jwt_expiry("not-a-jwt").is_err());
}

#[test]
fn test_jwt_format_error_counts_parts() {
    assert_eq!(decode_jwt_claims("a.b").err(), Some(JwtError::Format { parts: 2 }));
    assert_eq!(decode_jwt_claims("a.b.c.d").err(), Some(JwtError::Format { parts: 4 }));
    assert_eq!(decode_jwt_claims("").err(), Some(JwtError::Format { parts: 1 }));
    assert_eq!(
        JwtError::Format { parts: 1 }.message(),
        "Invalid JWT format (expected 3 parts, got 1)"
    );
}

#[test]
fn test_jwt_base64_error() {
    assert_eq!(decode_jwt_claims("x.!!!.y").err(), Some(JwtError::Base64));
    // Padding is refused by the unpadded engine.
    let padded = format!("x.{}=.y", encode("{}"));
    assert_eq!(decode_jwt_claims(&padded).err(), Some(JwtError::Base64));
    assert_eq!(JwtError::Base64.message(), "Failed to base64-decode JWT payload");
}

#[test]
fn test_jwt_claims_errors() {
    for payload in [
        "not json",
        "42",
        r#"{"exp":"soon"}"#,
        r#"{"exp":1.5}"#,
        r#"{"exp":18446744073709551615}"#,
        r#"{"user_id":7}"#,
        "[1]",
        r#"[1,"a",2]"#,
    ] {
        assert_eq!(
            decode_jwt_claims(&token_with(payload)).err(),
            Some(JwtError::Claims),
            "payload {payload}"
        );
    }
    assert_eq!(JwtError::Claims.message(), "Failed to parse JWT claims");
}

#[test]
fn test_jwt_claims_accepted_shapes() {
    let c = decode_jwt_claims(&token_with(r#"{"exp":null,"user_id":null,"other":[1]}"#)).unwrap();
    assert_eq!(c.exp, None);
    assert_eq!(c.user_id, None);
    let c = decode_jwt_claims(&token_with(r#"{"exp":-5,"user_id":"u9"}"#)).unwrap();
    assert_eq!(c.exp, Some(-5));
    assert_eq!(c.user_id.as_deref(), Some("u9"));
    let c = decode_jwt_claims(&token_with(r#"[100,"abc"]"#)).unwrap();
    assert_eq!(c.exp, Some(100));
    assert_eq!(c.user_id.as_deref(), Some("abc"));
}

#[test]
fn test_decode_jwt_user_id() {
    let token = token_with(r#"{"exp":1,"user_id":"123"}"#);
    assert_eq!(decode_jwt_user_id(&token).unwrap().as_deref(), Some("123"));
    assert_eq!(token_user_id(&token).as_deref(), Some("123"));
    assert_eq!(token_user_id("garbage"), None);
    assert_eq!(token_user_id(&token_with(r#"{"exp":1}"#)), None);
}

#[test]
fn test_token_is_set() {
    assert!(token_is_set("abc"));
    assert!(!token_is_set(""));
}

#[test]
fn test_token_status_boundaries() {
    let now = 1_000_000_000;
    assert_eq!(token_status(now + 31 * 86400, now), TokenStatus::Valid { days: 31 });
    assert_eq!(token_status(now + 30 * 86400 + 86399, now), TokenStatus::ExpiresSoon { days: 30 });
    assert_eq!(token_status(now, now), TokenStatus::ExpiresSoon { days: 0 });
    // Less than a day past expiry still rounds to zero days.
    assert_eq!(token_status(now - 1, now), TokenStatus::Expired { days: 0 });
    assert_eq!(token_status(now - 86399, now), TokenStatus::Expired { days: 0 });
    assert_eq!(token_status(now - 86400, now), TokenStatus::Expired { days: -1 });
    assert_eq!(token_status(now - 3 * 86400 - 5, now), TokenStatus::Expired { days: -3 });
}

#[test]
fn test_check_token() {
    let now = 1_700_000_000;
    let token = token_with(&format!(r#"{{"exp":{},"user_id":"1"}}"#, now + 10 * 86400));
    assert_eq!(check_token(&token, now), TokenCheck::Status(TokenStatus::ExpiresSoon { days: 10 }));
    assert_eq!(check_token(&token_with(r#"{"user_id":"1"}"#), now), TokenCheck::NoExpiry);
    assert_eq!(
        check_token("nope", now),
        TokenCheck::Undecodable(JwtError::Format { parts: 1 })
    );
    let far = token_with(&format!(r#"{{"exp":{}}}"#, i64::MIN));
    // An expiry far in the past is expired, however far.
    assert_eq!(
        check_token(&far, 1),
        TokenCheck::Status(TokenStatus::Expired { days: -106751991167300 })
    );
    assert_eq!(token_status(i64::MAX, -5), TokenStatus::Valid { days: 106751991167300 });
}

#[test]
fn test_check_token_now_uses_the_clock() {
    let token = token_with(r#"{"exp":4102444800}"#);
    let (check, now) = sleeper_bot::graphql::check_token_now(&token);
    assert!(now > 1_600_000_000);
    assert_eq!(check, check_token(&token, now));
    assert!(matches!(check, TokenCheck::Status(TokenStatus::Valid { .. })));
}
