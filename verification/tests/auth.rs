use lan_iot_hub::auth::{
    after_validation, bearer_token, decide_code, expiry_ms, is_public_path, issue_token_text, logout_response, logout_token, mint_code,
    normalize_code, pair_error_response, require_bearer, revoke_target, Access, AuthService, CodeDecision, PairError, PairResponse,
    PairStart, PAIRING_TTL_SECS, TOKEN_TTL_SECS,
};
use lan_iot_hub::json::{JsonNumber, JsonValue};

fn to_serde(j: &JsonValue) -> serde_json::Value {
    match j {
        JsonValue::Null => serde_json::Value::Null,
        JsonValue::Bool(b) => serde_json::Value::Bool(*b),
        JsonValue::Number(JsonNumber::PosInt(n, _)) => serde_json::Value::from(*n),
        JsonValue::Number(JsonNumber::NegInt(n, _)) => serde_json::Value::from(*n),
        JsonValue::Number(JsonNumber::Float(x)) => serde_json::Value::from(f64::from_bits(x.bits)),
        JsonValue::Str(t) => serde_json::Value::String(t.clone()),
        JsonValue::Array(v) => serde_json::Value::Array(v.iter().map(to_serde).collect()),
        JsonValue::Object(e) => {
            let mut m = serde_json::Map::new();
            for (k, v) in e {
                m.insert(k.clone(), to_serde(v));
            }
            serde_json::Value::Object(m)
        }
    }
}

fn js(t: &str) -> serde_json::Value {
    serde_json::from_str(t).unwrap()
}

fn fnv(bytes: &[u8]) -> u64 {
    let mut h: u64 = 0xcbf29ce484222325;
    for b in bytes {
        h ^= *b as u64;
        h = h.wrapping_mul(0x100000001b3);
    }
    h
}

#[test]
fn codes_are_trimmed_and_upper_cased() {
    assert_eq!(normalize_code("  ab12 ").as_deref(), Some("AB12"));
    assert_eq!(normalize_code("ß").as_deref(), Some("SS"));
    assert!(normalize_code("   ").is_none());
    assert_eq!(mint_code(0x12345, 0x1ab), "22EEAB");
    assert_eq!(mint_code(0, 0), "000000");
}

#[test]
fn token_texts() {
    assert_eq!(issue_token_text("", "ABC", 255, 16), "lit_ff_10");
    let expected = format!("lit_{:016x}_{:x}", fnv(b"10:1:ABC:s"), 1);
    assert_eq!(issue_token_text("s", "ABC", 10, 1), expected);
    assert_ne!(issue_token_text("s", "ABC", 10, 1), issue_token_text("t", "ABC", 10, 1));
}

#[test]
fn code_lifetime() {
    assert_eq!(PAIRING_TTL_SECS, 600);
    assert_eq!(TOKEN_TTL_SECS, 86400);
    assert_eq!(expiry_ms(1_000, PAIRING_TTL_SECS), 601_000);
    assert!(matches!(decide_code(None, 5), CodeDecision::Accept));
    assert!(matches!(decide_code(Some(5), 5), CodeDecision::Expired));
    assert!(matches!(decide_code(Some(6), 5), CodeDecision::Consume));
    assert_eq!(revoke_target("  lit_1 ").as_deref(), Some("lit_1"));
    assert!(revoke_target(" ").is_none());
}

#[test]
fn pairing_start() {
    let s = AuthService::new("sec", true);
    assert!(s.available());
    assert!(matches!(s.pair_start(None), Ok(PairStart::Mint)));
    assert!(matches!(s.pair_start(Some(" x1 ".into())), Ok(PairStart::Lookup(c)) if c == "X1"));
    assert!(matches!(s.pair_start(Some("  ".into())), Err(PairError::InvalidCode)));
    let mut down = AuthService::new("sec", true);
    down.mark_down();
    assert!(!down.available());
    assert!(matches!(down.pair_start(None), Ok(PairStart::Mint)));
    let unbound = AuthService::new("sec", false);
    assert!(matches!(unbound.pair_start(Some("x".into())), Err(PairError::Unavailable)));
    let g = PairResponse::bearer("X1".into(), "lit_a_1".into());
    assert_eq!(to_serde(&g.to_json()), js(r#"{"code":"X1","token":"lit_a_1","token_type":"Bearer","expires_in":86400}"#));
}

#[test]
fn guard_decisions() {
    assert!(matches!(require_bearer(false, "/api/v1/devices", false, None), Access::Pass));
    assert!(matches!(require_bearer(true, "/api/v1/health", false, None), Access::Pass));
    assert!(is_public_path("/ws") && !is_public_path("/api/v1/scenes"));
    match require_bearer(true, "/api/v1/devices", false, Some("Bearer x")) {
        Access::Reject(r) => {
            assert_eq!(r.status, 503);
            assert_eq!(to_serde(&r.body)["error"], js("\"auth_unavailable\""));
        }
        _ => panic!("503 expected"),
    }
    match require_bearer(true, "/api/v1/devices", true, Some("Basic x")) {
        Access::Reject(r) => {
            assert_eq!(r.status, 401);
            assert_eq!(to_serde(&r.body), js(r#"{"error":"missing_token","message":"Authorization: Bearer <token> required (AUTH_REQUIRED=true)"}"#));
        }
        _ => panic!("401 expected"),
    }
    assert!(matches!(require_bearer(true, "/api/v1/devices", true, Some("bearer  tok ")), Access::Validate(t) if t == "tok"));
    assert!(matches!(after_validation(Ok(true)), Access::Pass));
    assert!(matches!(after_validation(Ok(false)), Access::Reject(r) if r.status == 401));
    assert!(matches!(after_validation(Err(PairError::Unavailable)), Access::Reject(r) if r.status == 503));
}

#[test]
fn bearer_parsing() {
    assert_eq!(bearer_token(Some("Bearer abc")).as_deref(), Some("abc"));
    assert!(bearer_token(Some("Bearer    ")).is_none());
    assert!(bearer_token(Some("Token abc")).is_none());
    assert!(bearer_token(None).is_none());
}

#[test]
fn pair_and_logout_answers() {
    let r = pair_error_response(&PairError::InvalidCode);
    assert_eq!((r.status, to_serde(&r.body)), (400, js(r#"{"error":"invalid pairing code"}"#)));
    assert_eq!(pair_error_response(&PairError::ExpiredCode).status, 410);
    assert_eq!(pair_error_response(&PairError::Unavailable).status, 503);
    assert!(matches!(logout_token(Some(" t1 "), None), Ok(t) if t == " t1 "));
    assert!(matches!(logout_token(Some("  "), Some("Bearer t2")), Ok(t) if t == "t2"));
    match logout_token(None, None) {
        Err(r) => assert_eq!((r.status, to_serde(&r.body)), (400, js(r#"{"error":"token required (body.token or Authorization Bearer)"}"#))),
        Ok(_) => panic!("400 expected"),
    }
    assert_eq!(to_serde(&logout_response(Ok(true)).ok().unwrap()), js(r#"{"ok":true,"revoked":true}"#));
    assert!(matches!(logout_response(Err(PairError::Unavailable)), Err(r) if r.status == 503));
    assert!(matches!(logout_response(Err(PairError::InvalidCode)), Err(r) if r.status == 400));
}

#[test]
fn without_a_store_every_token_operation_is_unavailable() {
    let a = AuthService::new("secret", false);
    assert!(!a.available());
    assert!(matches!(a.pair_start(None), Err(PairError::Unavailable)));
    assert!(matches!(a.pair_start(Some("ABC123".to_string())), Err(PairError::Unavailable)));
    assert!(matches!(a.validate_start("tok"), Err(PairError::Unavailable)));
    assert!(matches!(a.revoke_start("tok"), Err(PairError::Unavailable)));
    assert!(matches!(a.revoke_start("   "), Err(PairError::Unavailable)));
    let b = AuthService::new("secret", true);
    assert_eq!(b.validate_start("tok").ok().as_deref(), Some("tok"));
    assert!(matches!(b.revoke_start("  tok "), Ok(Some(t)) if t == "tok"));
    assert!(matches!(b.revoke_start("   "), Ok(None)));
    assert!(matches!(b.pair_start(Some(" ab12 ".to_string())), Ok(PairStart::Lookup(c)) if c == "AB12"));
    assert!(matches!(b.pair_start(Some("  ".to_string())), Err(PairError::InvalidCode)));
    assert!(matches!(b.pair_start(None), Ok(PairStart::Mint)));
}

#[test]
fn only_health_pair_and_websocket_paths_skip_the_guard() {
    for p in ["/api/v1/health", "/health", "/api/v1/auth/pair", "/api/v1/ws", "/ws"] {
        assert!(is_public_path(p));
    }
    for p in ["/api/v1/auth/logout", "/api/v1/health/", "/api/v1/devices"] {
        assert!(!is_public_path(p));
    }
    assert!(matches!(require_bearer(true, "/api/v1/auth/logout", true, None), Access::Reject(r) if r.status == 401));
    assert!(matches!(require_bearer(true, "/api/v1/auth/logout", true, Some("Bearer t")), Access::Validate(t) if t == "t"));
    assert!(matches!(require_bearer(false, "/api/v1/auth/logout", false, None), Access::Pass));
}
