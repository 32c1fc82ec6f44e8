use lan_iot_hub::adapter::AdapterError;
use lan_iot_hub::ha::{
    check_response, check_service_response, check_state_response, poll_interval_secs, HaAdapter, HaConnectionStatus, HaError, HaState,
    HaWsAction, HaWsSession, WsIncoming, POLLS_BEFORE_WS_RETRY, HaSyncSchedule, HaSyncStep,
};
use lan_iot_hub::json::{Float64, JsonNumber, JsonValue};
use lan_iot_hub::registry::{DeviceEntity, DeviceRegistry, EntityType};

fn to_serde(j: &JsonValue) -> serde_json::Value {
    match j {
        JsonValue::Null => serde_json::Value::Null,
        JsonValue::Bool(b) => serde_json::Value::Bool(*b),
        JsonValue::Number(JsonNumber::PosInt(n, _)) => serde_json::Value::from(*n),
        JsonValue::Number(JsonNumber::NegInt(n, _)) => serde_json::Value::from(*n),
        JsonValue::Number(JsonNumber::Float(x)) => serde_json::Value::from(f64::from_bits(x.bits)),
        JsonValue::Str(t) => serde_json::Value::String(t.clone()),
        JsonValue::Array(v) => serde_json::Value::Array(v.iter().map(to_serde).collect()),
        JsonValue::Object(e) => {
            let mut m = serde_json::Map::new();
            for (k, v) in e {
                m.insert(k.clone(), to_serde(v));
            }
            serde_json::Value::Object(m)
        }
    }
}

fn from_serde(v: &serde_json::Value) -> JsonValue {
    match v {
        serde_json::Value::Null => JsonValue::Null,
        serde_json::Value::Bool(b) => JsonValue::Bool(*b),
        serde_json::Value::Number(n) => {
            let f = n.as_f64().unwrap();
            let fl = Float64 { bits: f.to_bits(), text: format!("{}", f) };
            if let Some(u) = n.as_u64() {
                JsonValue::Number(JsonNumber::PosInt(u, Some(fl)))
            } else if let Some(i) = n.as_i64() {
                JsonValue::Number(JsonNumber::NegInt(i, Some(fl)))
            } else {
                JsonValue::Number(JsonNumber::Float(fl))
            }
        }
        serde_json::Value::String(s) => JsonValue::Str(s.clone()),
        serde_json::Value::Array(a) => JsonValue::Array(a.iter().map(from_serde).collect()),
        serde_json::Value::Object(m) => JsonValue::Object(m.iter().map(|(k, v)| (k.clone(), from_serde(v))).collect()),
    }
}

fn js(t: &str) -> serde_json::Value {
    serde_json::from_str(t).unwrap()
}

fn jv(t: &str) -> JsonValue {
    from_serde(&js(t))
}

fn params(t: &str) -> Vec<(String, JsonValue)> {
    match jv(t) {
        JsonValue::Object(e) => e,
        _ => panic!("object expected"),
    }
}

fn text(raw: &str) -> WsIncoming {
    WsIncoming::Text { raw: raw.into(), parsed: Ok(jv(raw)) }
}

#[test]
fn adapter_urls_and_config() {
    let a = HaAdapter::new("http://ha.local:8123///", "tok");
    assert_eq!(a.base_url, "http://ha.local:8123");
    assert!(a.is_configured());
    assert_eq!(a.source_id(), "ha");
    assert_eq!(a.auth_header(), "Bearer tok");
    assert_eq!(a.ping_url(), "http://ha.local:8123/api/");
    assert_eq!(a.states_url(), "http://ha.local:8123/api/states");
    assert_eq!(a.state_url("light.a"), "http://ha.local:8123/api/states/light.a");
    assert_eq!(a.service_url("light", "turn_on"), "http://ha.local:8123/api/services/light/turn_on");
    let none = HaAdapter::new("http://ha", "");
    assert!(!none.is_configured());
    assert!(matches!(none.ensure_configured(), Err(HaError::NotConfigured)));
    assert!(a.ensure_configured().is_ok());
}

#[test]
fn ws_url_through_url_crate() {
    assert_eq!(HaAdapter::new("http://ha.local:8123", "t").ws_url().ok().unwrap(), "ws://ha.local:8123/api/websocket");
    assert_eq!(HaAdapter::new("https://ha.example.org/", "t").ws_url().ok().unwrap(), "wss://ha.example.org/api/websocket");
    assert!(matches!(HaAdapter::new("http://ha", "").ws_url(), Err(HaError::NotConfigured)));
    match HaAdapter::new("not a url", "t").ws_url() {
        Err(HaError::InvalidResponse(m)) => assert!(m.starts_with("bad HA_URL: ")),
        _ => panic!("parse error expected"),
    }
}

#[test]
fn actions_map_to_services() {
    let c = HaAdapter::perform_action("light.kitchen", "turn_on", &vec![]).ok().unwrap();
    assert_eq!((c.domain.as_str(), c.service.as_str()), ("light", "turn_on"));
    assert_eq!(to_serde(&JsonValue::Object(c.data)), js(r#"{"entity_id":"light.kitchen"}"#));
    let c = HaAdapter::perform_action("light.kitchen", "set_brightness", &vec![]).ok().unwrap();
    assert_eq!(c.service, "turn_on");
    assert_eq!(to_serde(&JsonValue::Object(c.data)), js(r#"{"entity_id":"light.kitchen","brightness":255}"#));
    let c = HaAdapter::perform_action("climate.ac", "set_temperature", &params(r#"{"temperature":21.5,"hvac_mode":"cool"}"#)).ok().unwrap();
    assert_eq!((c.domain.as_str(), c.service.as_str()), ("climate", "set_temperature"));
    assert_eq!(to_serde(&JsonValue::Object(c.data)), js(r#"{"entity_id":"climate.ac","temperature":21.5,"hvac_mode":"cool"}"#));
    let c = HaAdapter::perform_action("climate.ac", "set_temperature", &vec![]).ok().unwrap();
    assert_eq!(to_serde(&JsonValue::Object(c.data)), js(r#"{"entity_id":"climate.ac","temperature":24.0}"#));
    let c = HaAdapter::perform_action("climate.ac", "set_hvac_mode", &params(r#"{"mode":"heat"}"#)).ok().unwrap();
    assert_eq!(to_serde(&JsonValue::Object(c.data)), js(r#"{"entity_id":"climate.ac","hvac_mode":"heat"}"#));
    let c = HaAdapter::perform_action("nodot", "toggle", &vec![]).ok().unwrap();
    assert_eq!(c.domain, "homeassistant");
    match HaAdapter::perform_action("light.a", "explode", &vec![]) {
        Err(e) => assert_eq!(e.to_string(), "invalid response: unsupported action: explode (try turn_on, turn_off, set_temperature, set_brightness)"),
        Ok(_) => panic!("unsupported"),
    }
}

#[test]
fn states_from_json() {
    let s = HaState::from_json(&jv(r#"{"entity_id":"light.a","state":"on","attributes":{"friendly_name":"Lamp","brightness":10},"last_changed":null,"x":1}"#)).unwrap();
    assert_eq!(s.entity_id, "light.a");
    assert_eq!(s.attributes.len(), 2);
    assert!(s.last_changed.is_none());
    assert!(HaState::from_json(&jv(r#"{"entity_id":"light.a"}"#)).is_none());
    assert!(HaState::from_json(&jv(r#"{"entity_id":"light.a","state":5}"#)).is_none());
    assert!(HaState::from_json(&jv(r#"["switch.p","off"]"#)).is_some());
    assert!(HaState::from_json(&jv(r#"["switch.p"]"#)).is_none());
    let e = HaAdapter::state_to_entity(&s);
    assert_eq!(e.friendly_name, "Lamp");
    assert!(e.available);
    assert!(e.entity_type == EntityType::Light);
    assert_eq!(e.source, "ha");
    let u = HaState::from_json(&jv(r#"{"entity_id":"sensor.t","state":"unavailable"}"#)).unwrap();
    let e = HaAdapter::state_to_entity(&u);
    assert!(!e.available);
    assert_eq!(e.friendly_name, "sensor.t");
}

#[test]
fn sync_replaces_ha_entities() {
    let mut reg = DeviceRegistry::new();
    reg.upsert(DeviceEntity::new("light.old".into(), EntityType::Light, "Old".into(), "on".into(), vec![], true, "ha".into()));
    reg.upsert(DeviceEntity::new("light.faker_xiaomi_bulb".into(), EntityType::Light, "Bulb".into(), "on".into(), vec![], true, "faker".into()));
    let states = vec![HaState::from_json(&jv(r#"{"entity_id":"light.new","state":"off"}"#)).unwrap()];
    assert!(matches!(HaAdapter::sync_registry(&mut reg, Ok(states)), Ok(1)));
    assert!(reg.get("light.old").is_none());
    assert!(reg.get("light.new").is_some());
    assert!(reg.get("light.faker_xiaomi_bulb").is_some());
    assert!(matches!(HaAdapter::sync_registry(&mut reg, Err(HaError::Unreachable("x".into()))), Err(HaError::Unreachable(_))));
    assert_eq!(reg.len(), 2);
}

#[test]
fn health_and_state_results() {
    let h = HaAdapter::new("", "").health(None);
    assert!(!h.configured && !h.ok);
    assert_eq!(h.detail.as_deref(), Some("HA_URL / HA_TOKEN not set"));
    let a = HaAdapter::new("http://ha", "t");
    assert!(a.health(Some(Ok(()))).ok);
    let bad = a.health(Some(Err(HaError::Api { status: 401, body: "no".into() })));
    assert!(!bad.ok);
    assert_eq!(bad.detail.as_deref(), Some("Home Assistant API error (401): no"));
    assert!(matches!(
        HaAdapter::get_state_result("light.x", Err(HaError::Api { status: 404, body: "".into() })),
        Err(AdapterError::NotFound(id)) if id == "light.x"
    ));
    assert!(matches!(HaAdapter::get_state_result("light.x", Err(HaError::NotConfigured)), Err(AdapterError::NotConfigured(s)) if s == "ha"));
    assert!(matches!(HaAdapter::get_state_result("light.x", Err(HaError::InvalidResponse("j".into()))), Err(AdapterError::Invalid(s)) if s == "j"));
}

#[test]
fn response_checks() {
    assert!(matches!(check_response(200, "b".into()), Ok(b) if b == "b"));
    assert!(matches!(check_response(500, "e".into()), Err(HaError::Api { status: 500, .. })));
    assert!(matches!(check_state_response("light.a", 404, "x".into()), Err(HaError::Api { status: 404, body }) if body == "entity not found: light.a"));
    assert!(matches!(check_service_response(200, "  ".into()), Ok(None)));
    assert!(matches!(check_service_response(201, "[]".into()), Ok(Some(_))));
    assert_eq!(HaError::unreachable("GET /api/", "refused").to_string(), "Home Assistant unreachable: GET /api/: refused");
    assert_eq!(HaError::NotConfigured.to_string(), "Home Assistant is not configured (set HA_URL and HA_TOKEN)");
    assert!(matches!(AdapterError::from_ha(HaError::Api { status: 3, body: "b".into() }), AdapterError::Api { status: 3, .. }));
}

#[test]
fn connection_status() {
    assert_eq!(to_serde(&HaConnectionStatus::default().to_json()), js(r#"{"status":"Unknown"}"#));
    assert_eq!(to_serde(&HaConnectionStatus::initial(false).to_json()), js(r#"{"status":"NotConfigured"}"#));
    assert!(HaConnectionStatus::after_sync(&Ok(3)).is_connected());
    let d = HaConnectionStatus::after_sync(&Err(HaError::Unreachable("x".into())));
    assert_eq!(to_serde(&d.to_json()), js(r#"{"status":"Degraded","detail":"Home Assistant unreachable: x"}"#));
    assert!(HaConnectionStatus::after_websocket(&Ok(())).is_none());
    let w = HaConnectionStatus::after_websocket(&Err(HaError::NotConfigured)).unwrap();
    assert!(matches!(w, HaConnectionStatus::Degraded(t) if t == "ws: Home Assistant is not configured (set HA_URL and HA_TOKEN)"));
    assert_eq!(poll_interval_secs(1), 5);
    assert_eq!(poll_interval_secs(30), 30);
    assert_eq!(POLLS_BEFORE_WS_RETRY, 6);
}

#[test]
fn websocket_handshake_and_events() {
    let mut s = HaWsSession::new("tok");
    match s.on_message(text(r#"{"type":"auth_required"}"#)) {
        HaWsAction::Send { payload, context } => {
            assert_eq!(to_serde(&payload), js(r#"{"type":"auth","access_token":"tok"}"#));
            assert_eq!(context, "ws auth send");
        }
        _ => panic!("auth expected"),
    }
    match s.on_message(text(r#"{"type":"auth_ok"}"#)) {
        HaWsAction::Authenticated { subscribe } => {
            assert_eq!(to_serde(&subscribe), js(r#"{"id":1,"type":"subscribe_events","event_type":"state_changed"}"#))
        }
        _ => panic!("authenticated expected"),
    }
    assert_eq!(s.msg_id, 2);
    match s.on_message(text(r#"{"type":"event","event":{"data":{"new_state":{"entity_id":"light.a","state":"on"}}}}"#)) {
        HaWsAction::StateChanged(e) => assert_eq!(e.entity_id, "light.a"),
        _ => panic!("state expected"),
    }
    assert!(matches!(s.on_message(text(r#"{"type":"event","event":{"data":{"new_state":null}}}"#)), HaWsAction::Continue));
    assert!(matches!(s.on_message(text(r#"{"type":"result"}"#)), HaWsAction::Continue));
    assert!(matches!(s.on_message(WsIncoming::Ping(vec![1, 2])), HaWsAction::Pong(p) if p == vec![1, 2]));
    assert!(matches!(s.on_message(WsIncoming::Close), HaWsAction::Stop));
    assert!(matches!(s.on_message(WsIncoming::Other), HaWsAction::Continue));
    assert!(matches!(s.on_message(WsIncoming::ReadError("eof".into())), HaWsAction::Fail(HaError::Unreachable(m)) if m == "ws read: eof"));
    assert!(matches!(
        s.on_message(WsIncoming::Text { raw: "x".into(), parsed: Err("bad json".into()) }),
        HaWsAction::Fail(HaError::InvalidResponse(m)) if m == "bad json"
    ));
    assert!(matches!(s.on_message(text(r#"{"type":"auth_invalid"}"#)), HaWsAction::Fail(HaError::Api { status: 401, .. })));
}

#[test]
fn sync_schedule_polls_six_times_between_websocket_sessions() {
    let mut s = HaSyncSchedule::new(1);
    assert!(matches!(s.next(true), HaSyncStep::Sync));
    for _ in 0..2 {
        assert!(matches!(s.next(true), HaSyncStep::WebSocket));
        for _ in 0..6 {
            assert!(matches!(s.next(true), HaSyncStep::Sleep(5)));
            assert!(matches!(s.next(true), HaSyncStep::Sync));
        }
    }
    let mut u = HaSyncSchedule::new(30);
    assert!(matches!(u.next(false), HaSyncStep::Sync));
    for _ in 0..13 {
        assert!(matches!(u.next(false), HaSyncStep::Sleep(30)));
        assert!(matches!(u.next(false), HaSyncStep::Sync));
    }
}
