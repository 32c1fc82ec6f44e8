use lan_iot_hub::adapter::AdapterError;
use lan_iot_hub::faker::{catalog_json, faker_catalog, seed_faker_at_boot, should_seed_faker, FakerAdapter};
use lan_iot_hub::json::{Float64, JsonNumber, JsonValue};
use lan_iot_hub::registry::{DeviceEntity, DeviceRegistry, EntityType};

fn u(x: u64) -> JsonValue {
    JsonValue::Number(JsonNumber::PosInt(x, Some(Float64 { bits: (x as f64).to_bits(), text: format!("{}", x as f64) })))
}

fn p(pairs: Vec<(&str, JsonValue)>) -> Vec<(String, JsonValue)> {
    pairs.into_iter().map(|(k, v)| (k.to_string(), v)).collect()
}

fn seeded() -> DeviceRegistry {
    let mut r = DeviceRegistry::new();
    r.seed_faker_catalog();
    r
}

fn attr<'a>(e: &'a DeviceEntity, k: &str) -> Option<&'a JsonValue> {
    e.attributes.iter().find(|(key, _)| key == k).map(|(_, v)| v)
}

#[test]
fn catalog_has_five_stubs() {
    let c = faker_catalog();
    let ids: Vec<&str> = c.iter().map(|e| e.entity_id.as_str()).collect();
    assert_eq!(ids, vec![
        "light.demo_esp32_light",
        "climate.demo_gree_ac",
        "light.faker_xiaomi_bulb",
        "switch.faker_xiaomi_plug",
        "sensor.demo_esp32_temperature",
    ]);
    assert!(c.iter().all(|e| e.is_faker && e.source == "faker" && e.available));
    assert_eq!(c[1].brand.as_deref(), Some("gree"));
    assert_eq!(c[4].brand.as_deref(), Some("esp32"));
}

#[test]
fn seeding_keeps_live_ha_entities() {
    let mut r = DeviceRegistry::new();
    r.upsert(DeviceEntity::new("climate.demo_gree_ac".into(), EntityType::Climate, "Real AC".into(), "off".into(), vec![], true, "ha".into()));
    r.seed_faker_catalog();
    assert_eq!(r.len(), 5);
    assert_eq!(r.get("climate.demo_gree_ac").unwrap().source, "ha");
    assert_eq!(r.get("light.faker_xiaomi_bulb").unwrap().source, "faker");
}

#[test]
fn turn_on_and_off() {
    let mut r = seeded();
    let e = r.apply_faker_action("light.faker_xiaomi_bulb", "turn_on", &p(vec![("brightness", u(200))])).unwrap();
    assert_eq!(e.state, "on");
    assert!(matches!(attr(&e, "brightness"), Some(JsonValue::Number(JsonNumber::PosInt(200, _)))));
    assert_eq!(r.get("light.faker_xiaomi_bulb").unwrap().state, "on");
    let e = r.apply_faker_action("light.faker_xiaomi_bulb", "turn_off", &vec![]).unwrap();
    assert_eq!(e.state, "off");
}

#[test]
fn toggle_flips() {
    let mut r = seeded();
    assert_eq!(r.apply_faker_action("climate.demo_gree_ac", "toggle", &vec![]).unwrap().state, "off");
    assert_eq!(r.apply_faker_action("climate.demo_gree_ac", "toggle", &vec![]).unwrap().state, "on");
    assert_eq!(r.apply_faker_action("climate.demo_gree_ac", "toggle", &vec![]).unwrap().state, "off");
}

#[test]
fn brightness_needs_param() {
    let mut r = seeded();
    let err = r.apply_faker_action("light.demo_esp32_light", "set_brightness", &vec![]).err().unwrap();
    assert_eq!(err, "params.brightness required");
    let e = r.apply_faker_action("light.demo_esp32_light", "set_brightness", &p(vec![("brightness", u(7))])).unwrap();
    assert_eq!(e.state, "on");
}

#[test]
fn temperature_turns_off_unit_to_cool() {
    let mut r = seeded();
    r.apply_faker_action("climate.demo_gree_ac", "turn_off", &vec![]).unwrap();
    let t = JsonValue::Number(JsonNumber::Float(Float64 { bits: 22.5f64.to_bits(), text: "22.5".into() }));
    let e = r.apply_faker_action("climate.demo_gree_ac", "set_temperature", &p(vec![("temperature", t)])).unwrap();
    assert_eq!(e.state, "cool");
    match attr(&e, "temperature") {
        Some(JsonValue::Number(JsonNumber::Float(f))) => assert_eq!(f64::from_bits(f.bits), 22.5),
        _ => panic!("temperature not stored"),
    }
    let err = r.apply_faker_action("climate.demo_gree_ac", "set_temperature", &vec![]).err().unwrap();
    assert_eq!(err, "params.temperature required");
}

#[test]
fn hvac_mode_with_fallback_key() {
    let mut r = seeded();
    let e = r.apply_faker_action("climate.demo_gree_ac", "set_hvac_mode", &p(vec![("mode", JsonValue::Str("heat".into()))])).unwrap();
    assert_eq!(e.state, "heat");
    let err = r
        .apply_faker_action("climate.demo_gree_ac", "set_hvac_mode", &p(vec![("hvac_mode", u(1)), ("mode", JsonValue::Str("dry".into()))]))
        .err()
        .unwrap();
    assert_eq!(err, "params.hvac_mode required");
}

#[test]
fn faker_action_errors() {
    let mut r = seeded();
    assert_eq!(r.apply_faker_action("light.nope", "turn_on", &vec![]).err().unwrap(), "faker entity 'light.nope' not in registry");
    assert_eq!(r.apply_faker_action("light.faker_xiaomi_bulb", "explode", &vec![]).err().unwrap(), "unsupported faker action: explode");
    r.upsert(DeviceEntity::new("light.real".into(), EntityType::Light, "Real".into(), "on".into(), vec![], true, "ha".into()));
    assert_eq!(
        r.apply_faker_action("light.real", "turn_on", &vec![]).err().unwrap(),
        "entity 'light.real' is not a faker stub (source=ha)"
    );
}

#[test]
fn seeding_choice() {
    assert!(should_seed_faker(Some(" Yes "), true));
    assert!(should_seed_faker(Some("0"), false));
    assert!(!should_seed_faker(Some("0"), true));
    assert!(should_seed_faker(None, false));
    assert!(!should_seed_faker(None, true));
    assert!(!seed_faker_at_boot(Some("OFF"), false));
    assert!(seed_faker_at_boot(Some("on"), true));
    assert!(seed_faker_at_boot(Some("maybe"), false));
    assert!(!seed_faker_at_boot(Some("maybe"), true));
    assert!(seed_faker_at_boot(None, false));
}

#[test]
fn catalog_snapshot() {
    match catalog_json() {
        JsonValue::Array(items) => {
            assert_eq!(items.len(), 5);
            match &items[0] {
                JsonValue::Object(e) => {
                    assert_eq!(e[0].0, "entity_id");
                    assert!(matches!(&e[0].1, JsonValue::Str(s) if s == "light.demo_esp32_light"));
                    assert!(matches!(&e[1].1, JsonValue::Str(s) if s == "esp32"));
                    assert!(matches!(&e[2].1, JsonValue::Bool(true)));
                }
                _ => panic!("object expected"),
            }
        }
        _ => panic!("array expected"),
    }
}

#[test]
fn faker_backend() {
    let mut r = seeded();
    r.upsert(DeviceEntity::new("light.real".into(), EntityType::Light, "Real".into(), "on".into(), vec![], true, "ha".into()));
    let f = FakerAdapter::new();
    assert_eq!(f.source_id(), "faker");
    assert_eq!(f.sync(&r).ok().unwrap().len(), 5);
    let h = f.health(&r);
    assert!(h.configured && h.ok);
    assert_eq!(h.detail.as_deref(), Some("5 faker entities in registry"));
    assert!(matches!(f.get_state(&r, "light.none"), Err(AdapterError::NotFound(id)) if id == "light.none"));
    assert!(matches!(f.get_state(&r, "light.real"), Err(AdapterError::Invalid(_))));
    assert_eq!(f.get_state(&r, "light.faker_xiaomi_bulb").ok().unwrap().state, "off");
    assert!(f.control(&mut r, "light.faker_xiaomi_bulb", "turn_on", &vec![]).is_ok());
    assert!(matches!(f.control(&mut r, "light.faker_xiaomi_bulb", "fly", &vec![]), Err(AdapterError::Invalid(m)) if m == "unsupported faker action: fly"));
}

#[test]
fn integer_temperature_is_accepted() {
    let mut r = seeded();
    let e = r.apply_faker_action("climate.demo_gree_ac", "set_temperature", &p(vec![("temperature", JsonValue::uint(22))])).unwrap();
    match attr(&e, "temperature") {
        Some(JsonValue::Number(JsonNumber::Float(f))) => {
            assert_eq!(f64::from_bits(f.bits), 22.0);
            assert_eq!(f.text, "22");
        }
        _ => panic!("temperature not stored"),
    }
}
