use lan_iot_hub::brand::{infer_brand_meta, BrandHint};

#[test]
fn faker_xiaomi_id() {
    let (b, f) = infer_brand_meta("light.faker_xiaomi_bulb", "Faker Xiaomi Bulb");
    assert_eq!(b.as_deref(), Some("xiaomi"));
    assert!(f);
}

#[test]
fn demo_gree_is_faker() {
    let (b, f) = infer_brand_meta("climate.demo_gree_ac", "Demo Gree AC [faker]");
    assert_eq!(b.as_deref(), Some("gree"));
    assert!(f);
}

#[test]
fn real_looking_entity_not_faker() {
    let (b, f) = infer_brand_meta("light.living_room", "Living Room");
    assert!(b.is_none());
    assert!(!f);
}

#[test]
fn brand_tokens_in_name_and_case() {
    let (b, f) = infer_brand_meta("switch.plug_1", "MIOT Smart Plug");
    assert_eq!(b.as_deref(), Some("xiaomi"));
    assert!(!f);
    let (b, _) = infer_brand_meta("sensor.esp32_temp", "Desk");
    assert_eq!(b.as_deref(), Some("esp32"));
    let (b, _) = infer_brand_meta("companion.office", "Office");
    assert_eq!(b.as_deref(), Some("companion"));
    let (b, f) = infer_brand_meta("light.x", "Lamp (FAKER)");
    assert!(b.is_none());
    assert!(f);
}

#[test]
fn xiaomi_wins_over_gree() {
    let (b, _) = infer_brand_meta("climate.gree_xiaomi", "AC");
    assert_eq!(b.as_deref(), Some("xiaomi"));
}

#[test]
fn brand_labels() {
    assert_eq!(BrandHint::Xiaomi.as_str(), "xiaomi");
    assert_eq!(BrandHint::Gree.as_str(), "gree");
    assert_eq!(BrandHint::Esp32.as_str(), "esp32");
    assert_eq!(BrandHint::Companion.as_str(), "companion");
    assert_eq!(BrandHint::Unknown.as_str(), "unknown");
}

#[test]
fn brand_and_faker_flag_ignore_letter_case() {
    let ids = ["light.Faker_Xiaomi_Lamp", "CLIMATE.DEMO_GREE_AC", "companion.My_PC", "sensor.Esp32_Desk"];
    let names = ["Lamp (FAKER)", "Gree AC", "PC", "Desk"];
    for (id, name) in ids.iter().zip(names.iter()) {
        let base = infer_brand_meta(id, name);
        assert_eq!(infer_brand_meta(&id.to_ascii_lowercase(), &name.to_ascii_lowercase()), base);
        assert_eq!(infer_brand_meta(&id.to_ascii_uppercase(), &name.to_ascii_uppercase()), base);
    }
    assert_eq!(infer_brand_meta("COMPANION.MY_PC", "PC"), (Some("companion".to_string()), false));
}
