use lan_iot_hub::json::JsonValue;
use lan_iot_hub::registry::{DeviceEntity, DeviceRegistry, EntityType};

fn ent(id: &str, source: &str) -> DeviceEntity {
    DeviceEntity::new(id.into(), EntityType::from_entity_id(id), id.into(), "on".into(), vec![], true, source.into())
}

fn ids(v: &[DeviceEntity]) -> Vec<String> {
    v.iter().map(|e| e.entity_id.clone()).collect()
}

#[test]
fn entity_types_from_ids() {
    assert!(EntityType::from_entity_id("light.x") == EntityType::Light);
    assert!(EntityType::from_entity_id("climate.x") == EntityType::Climate);
    assert!(EntityType::from_entity_id("switch.x") == EntityType::Switch);
    assert!(EntityType::from_entity_id("sensor.x") == EntityType::Sensor);
    assert!(EntityType::from_entity_id("binary_sensor.x") == EntityType::BinarySensor);
    assert!(EntityType::from_entity_id("cover.x") == EntityType::Cover);
    assert!(EntityType::from_entity_id("fan.x") == EntityType::Fan);
    assert!(EntityType::from_entity_id("media_player.x") == EntityType::Other);
    assert!(EntityType::from_entity_id("nodot") == EntityType::Other);
}

#[test]
fn new_entity_fills_metadata() {
    let e = DeviceEntity::new(
        "light.faker_xiaomi_bulb".into(),
        EntityType::Light,
        "Bulb".into(),
        "off".into(),
        vec![("brightness".into(), JsonValue::Number(lan_iot_hub::json::JsonNumber::PosInt(5, None)))],
        true,
        "faker".into(),
    );
    assert_eq!(e.brand.as_deref(), Some("xiaomi"));
    assert!(e.is_faker);
    assert!(!e.capabilities.is_empty());
}

#[test]
fn upsert_then_get_returns_entity() {
    let mut r = DeviceRegistry::new();
    assert_eq!(r.len(), 0);
    r.upsert(ent("light.b", "ha"));
    r.upsert(ent("light.a", "ha"));
    r.upsert(ent("light.b", "faker"));
    assert_eq!(r.len(), 2);
    assert_eq!(r.get("light.b").unwrap().source, "faker");
    assert!(r.contains("light.a"));
    assert!(r.get("light.c").is_none());
    assert_eq!(ids(&r.list()), vec!["light.a".to_string(), "light.b".to_string()]);
}

#[test]
fn list_devices_hides_other_domains() {
    let mut r = DeviceRegistry::new();
    r.upsert(ent("light.a", "ha"));
    r.upsert(ent("automation.x", "ha"));
    assert_eq!(ids(&r.list_devices()), vec!["light.a".to_string()]);
    assert_eq!(r.list().len(), 2);
}

#[test]
fn replace_ha_keeps_other_sources() {
    let mut r = DeviceRegistry::new();
    r.upsert(ent("light.old", "ha"));
    r.upsert(ent("light.stub", "faker"));
    r.upsert(ent("companion.pc", "companion"));
    r.replace_ha_entities(vec![ent("light.new", "ha"), ent("light.stub", "ha")]);
    assert_eq!(ids(&r.list()), vec!["companion.pc".to_string(), "light.new".into(), "light.stub".into()]);
    assert_eq!(r.get("light.stub").unwrap().source, "ha");
    assert!(r.get("light.old").is_none());
}
