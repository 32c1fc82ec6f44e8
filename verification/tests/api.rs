use lan_iot_hub::adapter::AdapterError;
use lan_iot_hub::api::{
    adapter_http_err, adopt_base, adopt_device, adopt_failed, adopt_scan_failed, adopt_unreachable, command_http_err, default_kind, entities_json,
    example_action_payload, needs_refresh, register_http_err, scene_http_err, unregister_http_err, unregistered_json, ActionRequest, ActionResponse, AdoptRequest,
    CommandRequest, CompanionListResponse, DeviceListResponse, ErrorBody, HaHealth, HealthResponse, MongoHealth, RegisterRequest,
    ScanResponse, SceneListResponse, UpsertSceneRequest,
};
use lan_iot_hub::companion::{CompanionDevice, CompanionError};
use lan_iot_hub::ha::HaConnectionStatus;
use lan_iot_hub::json::{JsonNumber, JsonValue};
use lan_iot_hub::lan::LanEndpoint;
use lan_iot_hub::registry::{DeviceEntity, EntityType};
use lan_iot_hub::router::ControlOutcome;
use lan_iot_hub::scene::{SceneAction, SceneError};

fn to_serde(j: &JsonValue) -> serde_json::Value {
    match j {
        JsonValue::Null => serde_json::Value::Null,
        JsonValue::Bool(b) => serde_json::Value::Bool(*b),
        JsonValue::Number(JsonNumber::PosInt(n, _)) => serde_json::Value::from(*n),
        JsonValue::Number(JsonNumber::NegInt(n, _)) => serde_json::Value::from(*n),
        JsonValue::Number(JsonNumber::Float(x)) => serde_json::Value::from(f64::from_bits(x.bits)),
        JsonValue::Str(t) => serde_json::Value::String(t.clone()),
        JsonValue::Array(v) => serde_json::Value::Array(v.iter().map(to_serde).collect()),
        JsonValue::Object(e) => {
            let mut m = serde_json::Map::new();
            for (k, v) in e {
                m.insert(k.clone(), to_serde(v));
            }
            serde_json::Value::Object(m)
        }
    }
}

fn js(t: &str) -> serde_json::Value {
    serde_json::from_str(t).unwrap()
}

fn ent(id: &str, source: &str) -> DeviceEntity {
    DeviceEntity::new(id.into(), EntityType::from_entity_id(id), id.into(), "on".into(), vec![], true, source.into())
}

fn endpoint() -> LanEndpoint {
    LanEndpoint {
        id: "robot.10_0_0_9_9879".into(),
        name: "Robot (robot.10_0_0_9_9879)".into(),
        kind: "robot".into(),
        base_url: "http://10.0.0.9:9879".into(),
        commands: vec!["ping".into(), "stop".into()],
        adopted: false,
    }
}

#[test]
fn adapter_errors_to_http() {
    let e = adapter_http_err(AdapterError::NotFound("light.a".into()));
    assert_eq!((e.status, e.body.error.as_str(), e.body.detail.as_deref()), (404, "device_not_found", Some("entity_id 'light.a' not found")));
    assert_eq!(adapter_http_err(AdapterError::Api { status: 403, body: "x".into() }).status, 401);
    assert_eq!(adapter_http_err(AdapterError::Api { status: 404, body: "x".into() }).status, 404);
    let e = adapter_http_err(AdapterError::Api { status: 500, body: "x".into() });
    assert_eq!((e.status, e.body.detail.as_deref()), (502, Some("500: x")));
    assert_eq!(adapter_http_err(AdapterError::NotConfigured("ha".into())).body.detail.as_deref(), Some("ha not configured"));
    assert_eq!(adapter_http_err(AdapterError::Unreachable("u".into())).status, 503);
    assert_eq!(adapter_http_err(AdapterError::Invalid("i".into())).status, 400);
    assert_eq!(adapter_http_err(AdapterError::NoAdapter("n".into())).body.error, "no_adapter");
    let b = ErrorBody { error: "e".into(), detail: None };
    assert_eq!(to_serde(&b.to_json()), js(r#"{"error":"e"}"#));
}

#[test]
fn device_listing_warnings() {
    assert!(needs_refresh(0, true));
    assert!(!needs_refresh(1, true) && !needs_refresh(0, false));
    let mut stub = ent("light.faker_xiaomi_bulb", "faker");
    stub.is_faker = true;
    let l = DeviceListResponse::listing(vec![stub], false, false, vec!["faker".into()]);
    assert!(!l.ha_available);
    assert!(l.warning.as_deref().unwrap().starts_with("HA not configured — serving in-memory faker brand devices"));
    let j = to_serde(&l.to_json());
    assert_eq!(j["adapters"], js(r#"["faker"]"#));
    let l = DeviceListResponse::listing(vec![], false, false, vec![]);
    assert_eq!(l.warning.as_deref(), Some("HA not configured — set HA_URL and HA_TOKEN"));
    assert!(to_serde(&l.to_json()).get("adapters").is_none());
    let l = DeviceListResponse::listing(vec![], false, true, vec![]);
    assert_eq!(l.warning.as_deref(), Some("Home Assistant unreachable or empty — returning empty device list"));
    let l = DeviceListResponse::listing(vec![ent("light.a", "ha")], false, true, vec![]);
    assert!(l.ha_available && l.warning.is_none());
    let f = DeviceListResponse::sync_failed("boom".into(), vec![]);
    assert_eq!(to_serde(&f.to_json()), js(r#"{"devices":[],"ha_available":false,"warning":"boom"}"#));
    assert_eq!(to_serde(&entities_json(&vec![ent("switch.p", "ha")]))[0]["entity_id"], js("\"switch.p\""));
}

#[test]
fn action_and_health_bodies() {
    let o = ControlOutcome {
        ok: true,
        source: "ha".into(),
        entity_id: "light.a".into(),
        action: "turn_on".into(),
        result: JsonValue::Null,
        device: None,
        degraded_from: None,
    };
    let req = ActionRequest { action: "turn_on".into(), params: vec![] };
    assert_eq!(req.action, "turn_on");
    let cmd = CommandRequest { command: "ping".into() };
    assert_eq!(cmd.command, "ping");
    let a = ActionResponse::from_outcome(o);
    assert_eq!(to_serde(&a.to_json()), js(r#"{"ok":true,"entity_id":"light.a","action":"turn_on","source":"ha","result":null}"#));
    let h = HealthResponse {
        ha: HaHealth { configured: false, connection: HaConnectionStatus::NotConfigured },
        mongodb: MongoHealth { ok: true, database: Some("lan_iot".into()) },
        devices_cached: 5,
        adapters: vec!["faker".into()],
    };
    assert_eq!(
        to_serde(&h.to_json()),
        js(r#"{"status":"ok","service":"hub","ha":{"configured":false,"connection":{"status":"NotConfigured"}},"mongodb":{"ok":true,"database":"lan_iot"},"devices_cached":5,"adapters":["faker"]}"#)
    );
}

#[test]
fn scene_bodies() {
    let req = UpsertSceneRequest {
        id: "movie".into(),
        name: "Movie".into(),
        description: Some("dim".into()),
        steps: vec![SceneAction { entity_id: "light.a".into(), action: "turn_off".into(), params: vec![] }],
    };
    let s = req.into_scene();
    assert_eq!(s.actions.len(), 1);
    assert_eq!(
        to_serde(&SceneListResponse::new(vec![s]).to_json()),
        js(r#"{"scenes":[{"id":"movie","name":"Movie","description":"dim","actions":[{"entity_id":"light.a","action":"turn_off","params":{}}]}],"count":1}"#)
    );
    let e = scene_http_err(SceneError::NotFound("x".into()));
    assert_eq!((e.status, e.body.detail.as_deref()), (404, Some("scene 'x' not found")));
    assert_eq!(scene_http_err(SceneError::Unavailable).status, 503);
    assert_eq!(scene_http_err(SceneError::Invalid("scene id required".into())).status, 400);
}

#[test]
fn companion_bodies() {
    assert_eq!(default_kind(), "pc");
    let d = RegisterRequest { id: "pc1".into(), name: "PC".into(), base_url: "http://a".into(), kind: "pc".into() }.into_device();
    assert_eq!(to_serde(&CompanionListResponse::new(vec![d]).to_json())["count"], js("1"));
    assert_eq!(to_serde(&unregistered_json("pc1")), js(r#"{"ok":true,"id":"pc1"}"#));
    assert_eq!(register_http_err(CompanionError::Invalid("x".into())).status, 400);
    assert_eq!(register_http_err(CompanionError::Unavailable).body.detail.as_deref(), Some("MongoDB companion upsert failed"));
    assert_eq!(register_http_err(CompanionError::NotFound("x".into())).status, 500);
    assert_eq!(unregister_http_err(CompanionError::NotFound("pc9".into())).body.detail.as_deref(), Some("companion 'pc9' not registered"));
    assert_eq!(unregister_http_err(CompanionError::Unavailable).status, 503);
    assert_eq!(unregister_http_err(CompanionError::Invalid("i".into())).status, 400);
    assert_eq!(command_http_err(CompanionError::Unreachable("down".into())).status, 503);
    let e = command_http_err(CompanionError::Api { status: 500, body: "b".into() });
    assert_eq!((e.status, e.body.detail.as_deref()), (502, Some("Companion 500: b")));
    assert_eq!(command_http_err(CompanionError::Unavailable).status, 500);
}

#[test]
fn scan_and_adopt() {
    let j = to_serde(&ScanResponse::new(vec![endpoint()]).to_json());
    assert_eq!(j["count"], js("1"));
    assert_eq!(j["devices"][0]["kind"], js("\"robot\""));
    assert!(matches!(adopt_base("  http://10.0.0.9:9879// "), Ok(b) if b == "http://10.0.0.9:9879"));
    match adopt_base(" / ") {
        Err(e) => assert_eq!((e.status, e.body.detail.as_deref()), (400, Some("base_url required"))),
        Ok(_) => panic!("400 expected"),
    }
    assert_eq!(adopt_unreachable("http://x").body.detail.as_deref(), Some("no LanIoT health at http://x"));
    assert_eq!(adopt_scan_failed("tls".into()).status, 500);
    assert_eq!(adopt_failed(&CompanionError::Unavailable).body.detail.as_deref(), Some("companion store unavailable (MongoDB)"));
    let req = AdoptRequest { base_url: "http://10.0.0.9:9879".into(), id: Some("".into()), name: Some("Vacuum".into()), kind: None };
    let d: CompanionDevice = adopt_device(req, endpoint(), "http://10.0.0.9:9879".into());
    assert_eq!(d.id, "robot.10_0_0_9_9879");
    assert_eq!(d.name, "Vacuum");
    assert_eq!(d.kind, "robot");
}

#[test]
fn example_action_payload_turns_on() {
    assert_eq!(to_serde(&example_action_payload()), js(r#"{"action":"turn_on","params":{}}"#));
}
