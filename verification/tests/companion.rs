use lan_iot_hub::companion::{demo_companions, CommandReply, CompanionAdapter, CompanionDevice, CompanionError};
use lan_iot_hub::json::{JsonNumber, JsonValue};

fn to_serde(j: &JsonValue) -> serde_json::Value {
    match j {
        JsonValue::Null => serde_json::Value::Null,
        JsonValue::Bool(b) => serde_json::Value::Bool(*b),
        JsonValue::Number(JsonNumber::PosInt(n, _)) => serde_json::Value::from(*n),
        JsonValue::Number(JsonNumber::NegInt(n, _)) => serde_json::Value::from(*n),
        JsonValue::Number(JsonNumber::Float(x)) => serde_json::Value::from(f64::from_bits(x.bits)),
        JsonValue::Str(t) => serde_json::Value::String(t.clone()),
        JsonValue::Array(v) => serde_json::Value::Array(v.iter().map(to_serde).collect()),
        JsonValue::Object(e) => {
            let mut m = serde_json::Map::new();
            for (k, v) in e {
                m.insert(k.clone(), to_serde(v));
            }
            serde_json::Value::Object(m)
        }
    }
}

fn js(t: &str) -> serde_json::Value {
    serde_json::from_str(t).unwrap()
}

fn dev(id: &str, base: &str) -> CompanionDevice {
    CompanionDevice { id: id.into(), name: format!("Dev {}", id), base_url: base.into(), kind: "pc".into() }
}

#[test]
fn demo_seed() {
    let d = demo_companions();
    assert_eq!(d.len(), 1);
    assert_eq!(d[0].id, "companion.demo_pc");
    assert_eq!(d[0].base_url, "http://127.0.0.1:9876");
    let a = CompanionAdapter::with_demo();
    assert!(a.get("companion.demo_pc").is_some());
    assert!(!a.mongo_backed());
    assert_eq!(to_serde(&d[0].to_json()), js(r#"{"id":"companion.demo_pc","name":"Demo PC Companion","base_url":"http://127.0.0.1:9876","kind":"pc"}"#));
}

#[test]
fn upsert_validates_fields() {
    let mut a = CompanionAdapter::new();
    assert!(matches!(a.upsert(dev(" ", "http://x"), true), Err(CompanionError::Invalid(m)) if m == "companion id required"));
    assert!(matches!(a.upsert(dev("pc1", "  "), true), Err(CompanionError::Invalid(m)) if m == "companion base_url required"));
    assert!(a.upsert(dev("pc2", "http://b"), true).is_ok());
    assert!(a.upsert(dev("pc1", "http://a"), true).is_ok());
    let ids: Vec<String> = a.list().into_iter().map(|d| d.id).collect();
    assert_eq!(ids, vec!["pc1".to_string(), "pc2".to_string()]);
}

#[test]
fn persisted_registry_needs_store() {
    let mut a = CompanionAdapter::from_devices(vec![dev("pc1", "http://a")], true);
    assert!(a.mongo_backed());
    assert!(matches!(a.upsert(dev("pc2", "http://b"), false), Err(CompanionError::Unavailable)));
    assert!(a.get("pc2").is_none());
    assert!(matches!(a.remove("pc1", false), Err(CompanionError::Unavailable)));
    assert!(a.get("pc1").is_some());
}

#[test]
fn remove_by_trimmed_id() {
    let mut a = CompanionAdapter::from_devices(vec![dev("pc1", "http://a")], false);
    assert!(matches!(a.remove("  ", true), Err(CompanionError::Invalid(_))));
    assert!(matches!(a.remove("pc9", true), Err(CompanionError::NotFound(id)) if id == "pc9"));
    assert!(a.remove(" pc1 ", true).is_ok());
    assert!(a.get("pc1").is_none());
    assert!(matches!(CompanionAdapter::removal_id(" x "), Ok(t) if t == "x"));
}

#[test]
fn command_request_targets_command_path() {
    let a = CompanionAdapter::from_devices(vec![dev("pc1", "http://10.0.0.5:9876//")], false);
    let (url, body) = a.command_request("pc1", "lock").ok().unwrap();
    assert_eq!(url, "http://10.0.0.5:9876/command");
    assert_eq!(to_serde(&body), js(r#"{"command":"lock"}"#));
    assert!(matches!(a.command_request("nope", "ping"), Err(CompanionError::NotFound(id)) if id == "nope"));
}

#[test]
fn offline_companion_is_not_a_success() {
    let r = CompanionAdapter::command_result("pc1", "ping", CommandReply::Failed("connection refused".into()));
    match r {
        Err(e) => assert_eq!(e.to_string(), "companion unreachable: connection refused"),
        Ok(_) => panic!("offline must fail"),
    }
    let r = CompanionAdapter::command_result("pc1", "ping", CommandReply::Sent { status: 500, text: "boom".into(), parsed: None });
    match r {
        Err(e) => assert_eq!(e.to_string(), "companion API error (500): boom"),
        Ok(_) => panic!("500 must fail"),
    }
}

#[test]
fn command_replies() {
    let ok = CompanionAdapter::command_result("pc1", "ping", CommandReply::Sent { status: 204, text: "  ".into(), parsed: None }).ok().unwrap();
    assert!(ok.ok);
    assert_eq!(to_serde(&ok.to_json()), js(r#"{"ok":true,"device_id":"pc1","command":"ping","response":{"accepted":true}}"#));
    let raw = CompanionAdapter::command_result("pc1", "ping", CommandReply::Sent { status: 200, text: "pong".into(), parsed: None }).ok().unwrap();
    assert_eq!(to_serde(raw.response.as_ref().unwrap()), js(r#"{"raw":"pong"}"#));
    let parsed = CompanionAdapter::command_result(
        "pc1",
        "ping",
        CommandReply::Sent { status: 200, text: "{\"pong\":true}".into(), parsed: Some(JsonValue::Object(vec![("pong".into(), JsonValue::Bool(true))])) },
    )
    .ok()
    .unwrap();
    assert_eq!(to_serde(parsed.response.as_ref().unwrap()), js(r#"{"pong":true}"#));
}

#[test]
fn error_texts() {
    assert_eq!(CompanionError::NotFound("x".into()).to_string(), "companion not found: x");
    assert_eq!(CompanionError::Invalid("y".into()).to_string(), "invalid companion: y");
    assert_eq!(CompanionError::Unavailable.to_string(), "companion store unavailable (MongoDB)");
}
