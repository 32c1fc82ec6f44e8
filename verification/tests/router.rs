use lan_iot_hub::adapter::{AdapterError, AdapterHealth};
use lan_iot_hub::json::{JsonNumber, JsonValue};
use lan_iot_hub::registry::{DeviceEntity, DeviceRegistry, EntityType};
use lan_iot_hub::router::{degraded_outcome, finish_control, get_state_result, AdapterRouter, ControlNext, ControlOutcome, ResolveStep};

fn to_serde(j: &JsonValue) -> serde_json::Value {
    match j {
        JsonValue::Null => serde_json::Value::Null,
        JsonValue::Bool(b) => serde_json::Value::Bool(*b),
        JsonValue::Number(JsonNumber::PosInt(n, _)) => serde_json::Value::from(*n),
        JsonValue::Number(JsonNumber::NegInt(n, _)) => serde_json::Value::from(*n),
        JsonValue::Number(JsonNumber::Float(x)) => serde_json::Value::from(f64::from_bits(x.bits)),
        JsonValue::Str(t) => serde_json::Value::String(t.clone()),
        JsonValue::Array(v) => serde_json::Value::Array(v.iter().map(to_serde).collect()),
        JsonValue::Object(e) => {
            let mut m = serde_json::Map::new();
            for (k, v) in e {
                m.insert(k.clone(), to_serde(v));
            }
            serde_json::Value::Object(m)
        }
    }
}

fn ent(id: &str, source: &str) -> DeviceEntity {
    DeviceEntity::new(id.into(), EntityType::from_entity_id(id), id.into(), "on".into(), vec![], true, source.into())
}

fn health(source: &str, ok: bool) -> AdapterHealth {
    AdapterHealth { source: source.into(), configured: true, ok, detail: None }
}

#[test]
fn register_keeps_one_entry_per_source() {
    let mut r = AdapterRouter::new();
    r.register("ha", false);
    r.register("faker", true);
    r.register("ha", true);
    assert_eq!(r.sources(), vec!["faker".to_string(), "ha".to_string()]);
    assert!(r.contains("ha") && r.contains("faker") && !r.contains("mqtt"));
    assert!(r.is_configured("ha"));
    r.register("ha", false);
    assert!(!r.is_configured("ha"));
    assert!(r.is_configured("faker"));
}

#[test]
fn health_sorted_by_source() {
    let h = AdapterRouter::health_all(vec![health("ha", false), health("faker", true), health("companion", true)]);
    let names: Vec<&str> = h.iter().map(|x| x.source.as_str()).collect();
    assert_eq!(names, vec!["companion", "faker", "ha"]);
    assert!(!h[2].ok);
}

#[test]
fn resolve_by_record_source() {
    let mut r = AdapterRouter::new();
    r.register("ha", true);
    r.register("faker", true);
    let stub = Some(ent("light.faker_xiaomi_bulb", "faker"));
    assert!(matches!(r.resolve_start(&stub, "light.faker_xiaomi_bulb"), ResolveStep::Resolved(s) if s == "faker"));
    let live = Some(ent("light.kitchen", "ha"));
    assert!(matches!(r.resolve_start(&live, "light.kitchen"), ResolveStep::Resolved(s) if s == "ha"));
    assert!(matches!(r.resolve_start(&None, "light.unknown"), ResolveStep::CheckHaHealth));
}

#[test]
fn resolve_after_health_falls_back_to_faker() {
    let mut r = AdapterRouter::new();
    r.register("ha", false);
    r.register("faker", true);
    let mut e = ent("light.demo_esp32_light", "ha");
    e.is_faker = true;
    let tagged = Some(e);
    assert!(matches!(r.resolve_after_ha_health(&tagged, "light.demo_esp32_light", true), Ok(s) if s == "ha"));
    assert!(matches!(r.resolve_after_ha_health(&tagged, "light.demo_esp32_light", false), Ok(s) if s == "faker"));
    match r.resolve_after_ha_health(&None, "light.x", false) {
        Err(AdapterError::NoAdapter(m)) => assert_eq!(m, "no adapter for entity 'light.x' (known sources: [\"faker\", \"ha\"])"),
        _ => panic!("NoAdapter expected"),
    }
}

#[test]
fn resolve_without_ha_fails_for_unknown_entity() {
    let mut r = AdapterRouter::new();
    r.register("faker", true);
    assert!(matches!(r.resolve_start(&None, "light.x"), ResolveStep::Failed(AdapterError::NoAdapter(_))));
    let stub = Some(ent("switch.faker_xiaomi_plug", "faker"));
    assert!(matches!(r.resolve_start(&stub, "switch.faker_xiaomi_plug"), ResolveStep::Resolved(s) if s == "faker"));
}

#[test]
fn ha_failure_on_stub_degrades() {
    let mut r = AdapterRouter::new();
    r.register("ha", true);
    r.register("faker", true);
    let stub = Some(ent("light.faker_xiaomi_bulb", "faker"));
    let next = r.after_control("ha", Err(AdapterError::Unreachable("timeout".into())), &stub);
    assert!(matches!(next, ControlNext::Degrade(t) if t == "adapter unreachable: timeout"));
    let live = Some(ent("light.kitchen", "ha"));
    assert!(matches!(r.after_control("ha", Err(AdapterError::Unreachable("t".into())), &live), ControlNext::Fail(_)));
    assert!(matches!(r.after_control("faker", Ok(JsonValue::Bool(true)), &stub), ControlNext::FetchState(JsonValue::Bool(true))));
}

#[test]
fn degraded_outcome_reports_both() {
    let mut reg = DeviceRegistry::new();
    reg.upsert(ent("light.faker_xiaomi_bulb", "faker"));
    let o = degraded_outcome(&reg, "light.faker_xiaomi_bulb", "turn_on", Ok(JsonValue::Null), "adapter unreachable: x".into()).ok().unwrap();
    assert!(o.ok);
    assert_eq!(o.source, "faker");
    assert_eq!(o.degraded_from.as_deref(), Some("adapter unreachable: x"));
    let j = to_serde(&o.to_json());
    assert_eq!(j["faker"], serde_json::Value::Bool(true));
    assert_eq!(j["degraded"], serde_json::Value::Bool(true));
    assert_eq!(j["ha_error"], serde_json::Value::String("adapter unreachable: x".into()));
    assert_eq!(j["device"]["entity_id"], serde_json::Value::String("light.faker_xiaomi_bulb".into()));
    let e = degraded_outcome(&reg, "light.faker_xiaomi_bulb", "fly", Err(AdapterError::Invalid("no".into())), "x".into());
    assert!(matches!(e, Err(AdapterError::Invalid(m)) if m == "no"));
}

#[test]
fn finish_control_stores_fetched_state() {
    let mut reg = DeviceRegistry::new();
    reg.upsert(ent("light.a", "ha"));
    let mut fetched = ent("light.a", "ha");
    fetched.state = "off".into();
    let o = finish_control(&mut reg, "ha".into(), "light.a", "turn_off", JsonValue::Null, Ok(fetched));
    assert_eq!(o.device.unwrap().state, "off");
    assert_eq!(reg.get("light.a").unwrap().state, "off");
    let o = finish_control(&mut reg, "ha".into(), "light.a", "turn_on", JsonValue::Null, Err(AdapterError::Unreachable("x".into())));
    assert_eq!(o.device.as_ref().unwrap().state, "off");
    let j = to_serde(&o.to_json());
    assert!(j.get("faker").is_none() && j.get("degraded").is_none());
}

#[test]
fn state_falls_back_to_registry() {
    let mut reg = DeviceRegistry::new();
    reg.upsert(ent("light.a", "ha"));
    assert_eq!(get_state_result(&mut reg, "light.a", Some(Err(AdapterError::Unreachable("x".into())))).ok().unwrap().entity_id, "light.a");
    assert!(matches!(get_state_result(&mut reg, "light.b", None), Err(AdapterError::NotFound(id)) if id == "light.b"));
    assert!(matches!(
        get_state_result(&mut reg, "light.b", Some(Err(AdapterError::NotFound("other".into())))),
        Err(AdapterError::NotFound(id)) if id == "light.b"
    ));
    assert!(matches!(
        get_state_result(&mut reg, "light.b", Some(Err(AdapterError::Api { status: 500, body: "x".into() }))),
        Err(AdapterError::Api { status: 500, .. })
    ));
    let mut fresh = ent("light.b", "ha");
    fresh.state = "off".into();
    assert_eq!(get_state_result(&mut reg, "light.b", Some(Ok(fresh))).ok().unwrap().state, "off");
    assert!(reg.contains("light.b"));
}

#[test]
fn outcome_json_shape() {
    let o = ControlOutcome {
        ok: true,
        source: "ha".into(),
        entity_id: "light.a".into(),
        action: "turn_on".into(),
        result: JsonValue::Null,
        device: None,
        degraded_from: None,
    };
    let j = to_serde(&o.to_json());
    assert_eq!(j, serde_json::from_str::<serde_json::Value>(r#"{"ok":true,"entity_id":"light.a","action":"turn_on","source":"ha","result":null,"device":null}"#).unwrap());
}
