use lan_iot_hub::capability::{derive_capabilities, Capability, CapabilityKind, ParamSpec};
use lan_iot_hub::encode::params_to_json_schema;
use lan_iot_hub::json::{Float64, JsonNumber, JsonValue};
use lan_iot_hub::registry::EntityType;

fn s(x: &str) -> JsonValue {
    JsonValue::Str(x.to_string())
}

fn f(x: f64) -> JsonValue {
    JsonValue::Number(JsonNumber::Float(Float64 { bits: x.to_bits(), text: format!("{}", x) }))
}

fn u(x: u64) -> JsonValue {
    JsonValue::Number(JsonNumber::PosInt(x, Some(Float64 { bits: (x as f64).to_bits(), text: format!("{}", x as f64) })))
}

fn to_serde(j: &JsonValue) -> serde_json::Value {
    match j {
        JsonValue::Null => serde_json::Value::Null,
        JsonValue::Bool(b) => serde_json::Value::Bool(*b),
        JsonValue::Number(JsonNumber::PosInt(n, _)) => serde_json::Value::from(*n),
        JsonValue::Number(JsonNumber::NegInt(n, _)) => serde_json::Value::from(*n),
        JsonValue::Number(JsonNumber::Float(x)) => serde_json::Value::from(f64::from_bits(x.bits)),
        JsonValue::Str(t) => serde_json::Value::String(t.clone()),
        JsonValue::Array(v) => serde_json::Value::Array(v.iter().map(to_serde).collect()),
        JsonValue::Object(e) => {
            let mut m = serde_json::Map::new();
            for (k, v) in e {
                m.insert(k.clone(), to_serde(v));
            }
            serde_json::Value::Object(m)
        }
    }
}

fn js(t: &str) -> serde_json::Value {
    serde_json::from_str(t).unwrap()
}

fn min_of(p: &ParamSpec) -> Option<f64> {
    p.minimum.as_ref().map(|x| f64::from_bits(x.bits))
}

fn max_of(p: &ParamSpec) -> Option<f64> {
    p.maximum.as_ref().map(|x| f64::from_bits(x.bits))
}

#[test]
fn climate_derives_thermostat_range() {
    let attrs = vec![
        ("min_temp".to_string(), f(16.0)),
        ("max_temp".to_string(), f(30.0)),
        ("hvac_modes".to_string(), JsonValue::Array(vec![s("off"), s("cool"), s("heat")])),
    ];
    let caps = derive_capabilities(EntityType::Climate, &attrs);
    assert!(caps.iter().any(|c| c.kind == CapabilityKind::Thermostat));
    assert!(caps.iter().any(|c| c.kind == CapabilityKind::HvacMode));
    let thermo = caps.iter().find(|c| c.kind == CapabilityKind::Thermostat).unwrap();
    let p = &thermo.actions[0].params[0];
    assert_eq!(min_of(p), Some(16.0));
    assert_eq!(max_of(p), Some(30.0));
}

#[test]
fn light_with_brightness_attr() {
    let attrs = vec![("brightness".to_string(), u(128))];
    let caps = derive_capabilities(EntityType::Light, &attrs);
    assert!(caps.iter().any(|c| c.kind == CapabilityKind::Brightness));
    assert!(Capability::action_names(&caps).contains(&"set_brightness".into()));
}

#[test]
fn climate_defaults_without_range() {
    let caps = derive_capabilities(EntityType::Climate, &vec![]);
    let thermo = caps.iter().find(|c| c.kind == CapabilityKind::Thermostat).unwrap();
    let p = &thermo.actions[0].params[0];
    assert_eq!(min_of(p), Some(16.0));
    assert_eq!(max_of(p), Some(30.0));
}

#[test]
fn sensor_only_reads() {
    let caps = derive_capabilities(EntityType::Sensor, &vec![]);
    assert_eq!(caps.len(), 1);
    assert!(caps[0].kind == CapabilityKind::SensorRead);
    assert!(caps[0].actions.is_empty());
    assert!(Capability::action_names(&caps).is_empty());
}

#[test]
fn switch_and_other_are_on_off() {
    let caps = derive_capabilities(EntityType::Switch, &vec![]);
    assert!(caps[0].kind == CapabilityKind::OnOff);
    let names = Capability::action_names(&caps);
    assert_eq!(names, vec!["toggle".to_string(), "turn_off".to_string(), "turn_on".to_string()]);
    let other = derive_capabilities(EntityType::Other, &vec![]);
    assert!(other[0].kind == CapabilityKind::OnOff);
}

#[test]
fn cover_actions() {
    let caps = derive_capabilities(EntityType::Cover, &vec![]);
    assert!(caps[0].kind == CapabilityKind::OpenClose);
    let names = Capability::action_names(&caps);
    assert_eq!(names, vec!["close_cover".to_string(), "open_cover".to_string(), "stop_cover".to_string()]);
}

#[test]
fn action_names_sorted_without_repeats() {
    let attrs = vec![("brightness".to_string(), u(10)), ("color_temp".to_string(), u(300))];
    let caps = derive_capabilities(EntityType::Light, &attrs);
    let names = Capability::action_names(&caps);
    let mut sorted = names.clone();
    sorted.sort();
    sorted.dedup();
    assert_eq!(names, sorted);
    assert!(names.contains(&"turn_on".to_string()));
}

#[test]
fn summarize_lists_kinds_and_actions() {
    let caps = derive_capabilities(EntityType::Switch, &vec![]);
    let v = to_serde(&Capability::summarize(&caps));
    assert_eq!(v["kinds"], js(r#"["on_off"]"#));
    assert_eq!(v["actions"], js(r#"["toggle", "turn_off", "turn_on"]"#));
    assert_eq!(v["capabilities"][0]["kind"], js(r#""on_off""#));
}

#[test]
fn params_schema_collects_required() {
    let params = vec![
        ParamSpec {
            name: "temperature".into(),
            param_type: "number".into(),
            required: true,
            minimum: Some(Float64 { bits: 16f64.to_bits(), text: "16".into() }),
            maximum: None,
            enum_values: None,
            description: Some("Target".into()),
        },
        ParamSpec {
            name: "mode".into(),
            param_type: "string".into(),
            required: false,
            minimum: None,
            maximum: None,
            enum_values: Some(vec!["cool".into(), "heat".into()]),
            description: None,
        },
    ];
    let v = to_serde(&params_to_json_schema(&params));
    assert_eq!(v["type"], js(r#""object""#));
    assert_eq!(v["required"], js(r#"["temperature"]"#));
    assert_eq!(v["properties"]["temperature"]["minimum"], js(r#"16.0"#));
    assert_eq!(v["properties"]["mode"]["enum"], js(r#"["cool", "heat"]"#));
    assert!(v["properties"]["mode"].get("description").is_none());
}

#[test]
fn integer_bounds_set_the_thermostat_range() {
    let attrs = vec![
        ("min_temperature".to_string(), JsonValue::uint(18)),
        ("max_temp".to_string(), JsonValue::integer(28)),
    ];
    let caps = derive_capabilities(EntityType::Climate, &attrs);
    let thermo = caps.iter().find(|c| c.kind == CapabilityKind::Thermostat).unwrap();
    let p = &thermo.actions[0].params[0];
    assert_eq!(min_of(p), Some(18.0));
    assert_eq!(max_of(p), Some(28.0));
    assert_eq!(p.description.as_deref(), Some("Target °C (18–28)"));
}

#[test]
fn adding_attributes_keeps_every_capability() {
    fn kinds(t: EntityType, a: &Vec<(String, JsonValue)>) -> Vec<CapabilityKind> {
        derive_capabilities(t, a).iter().map(|c| c.kind).collect()
    }
    let a1 = vec![("brightness".to_string(), u(10))];
    let mut a2 = vec![("brightness".to_string(), u(10))];
    a2.push(("supported_color_modes".to_string(), JsonValue::Array(vec![s("hs")])));
    a2.push(("color_temp".to_string(), u(300)));
    let k1 = kinds(EntityType::Light, &a1);
    let k2 = kinds(EntityType::Light, &a2);
    assert_eq!(k1, vec![CapabilityKind::OnOff, CapabilityKind::Brightness]);
    for k in &k1 {
        assert!(k2.contains(k));
    }
    assert_eq!(k2.len(), 4);
    let c1 = vec![("min_temp".to_string(), u(18))];
    let mut c2 = vec![("min_temp".to_string(), u(18))];
    c2.push(("hvac_modes".to_string(), s("off, heat")));
    let k1 = kinds(EntityType::Climate, &c1);
    let k2 = kinds(EntityType::Climate, &c2);
    for k in &k1 {
        assert!(k2.contains(k));
    }
    assert!(k2.contains(&CapabilityKind::HvacMode));
}
