use lan_iot_hub::adapter::AdapterError;
use lan_iot_hub::json::{JsonNumber, JsonValue};
use lan_iot_hub::router::ControlOutcome;
use lan_iot_hub::scene::{
    demo_scenes, entity_present_after, is_missing_error, pick_seed, reseed_requested, seed_candidates, skipped_step,
    step_from_control, store_load_plan, RunNext, RunResult, Scene, SceneAction, SceneEngine, SceneError, SceneRun, StepResult,
    StoreLoadPlan,
};
use lan_iot_hub::registry::{DeviceEntity, DeviceRegistry, EntityType};

fn to_serde(j: &JsonValue) -> serde_json::Value {
    match j {
        JsonValue::Null => serde_json::Value::Null,
        JsonValue::Bool(b) => serde_json::Value::Bool(*b),
        JsonValue::Number(JsonNumber::PosInt(n, _)) => serde_json::Value::from(*n),
        JsonValue::Number(JsonNumber::NegInt(n, _)) => serde_json::Value::from(*n),
        JsonValue::Number(JsonNumber::Float(x)) => serde_json::Value::from(f64::from_bits(x.bits)),
        JsonValue::Str(t) => serde_json::Value::String(t.clone()),
        JsonValue::Array(v) => serde_json::Value::Array(v.iter().map(to_serde).collect()),
        JsonValue::Object(e) => {
            let mut m = serde_json::Map::new();
            for (k, v) in e {
                m.insert(k.clone(), to_serde(v));
            }
            serde_json::Value::Object(m)
        }
    }
}

fn js(t: &str) -> serde_json::Value {
    serde_json::from_str(t).unwrap()
}

fn scene(id: &str, entity: &str) -> Scene {
    Scene {
        id: id.into(),
        name: format!("Scene {}", id),
        description: None,
        actions: vec![SceneAction { entity_id: entity.into(), action: "turn_off".into(), params: vec![] }],
    }
}

fn outcome() -> ControlOutcome {
    ControlOutcome {
        ok: true,
        source: "faker".into(),
        entity_id: "light.a".into(),
        action: "turn_off".into(),
        result: JsonValue::Null,
        device: None,
        degraded_from: None,
    }
}

#[test]
fn demo_scenes_cover_both_families() {
    let d = demo_scenes();
    assert_eq!(d.len(), 2);
    assert_eq!(d[0].id, "sleep_mode");
    assert_eq!(d[1].id, "away_mode");
    assert_eq!(d[0].actions.len(), 8);
    assert_eq!(d[0].actions[6].entity_id, "climate.faker_gree_ac");
    assert_eq!(d[0].actions[6].action, "set_hvac_mode");
    assert_eq!(d[1].actions[7].entity_id, "climate.demo_gree_ac");
    assert_eq!(d[1].actions[7].action, "set_temperature");
    match &d[1].actions[7].params[0].1 {
        JsonValue::Number(JsonNumber::Float(f)) => assert_eq!(f64::from_bits(f.bits), 26.0),
        _ => panic!("temperature expected"),
    }
    assert!(d[0].actions[..6].iter().all(|a| a.action == "turn_off"));
}

#[test]
fn seed_files_and_flags() {
    assert_eq!(seed_candidates(None), vec!["../../config/scenes.toml", "config/scenes.toml", "/etc/lan-iot/scenes.toml"]);
    assert_eq!(seed_candidates(Some("")).len(), 3);
    assert_eq!(seed_candidates(Some("/x.toml"))[0], "/x.toml");
    assert_eq!(pick_seed(vec![]).len(), 2);
    let chosen = pick_seed(vec![vec![], vec![scene("a", "light.a")], vec![scene("b", "light.b")]]);
    assert_eq!(chosen.len(), 1);
    assert_eq!(chosen[0].id, "a");
    assert!(reseed_requested(Some("true")));
    assert!(!reseed_requested(Some("0")));
    assert!(!reseed_requested(None));
    assert!(matches!(store_load_plan(0, true), StoreLoadPlan::SeedOnly));
    assert!(matches!(store_load_plan(3, true), StoreLoadPlan::SeedThenLoad));
    assert!(matches!(store_load_plan(3, false), StoreLoadPlan::Load));
}

#[test]
fn engine_upsert_and_lookup() {
    let mut e = SceneEngine::new();
    assert!(e.list().is_empty());
    assert!(e.upsert(scene("zeta", "light.z"), true).is_ok());
    assert!(e.upsert(scene("alpha", "light.a"), true).is_ok());
    assert!(e.upsert(scene("zeta", "light.y"), true).is_ok());
    assert_eq!(e.list_ids(), vec!["alpha".to_string(), "zeta".to_string()]);
    assert_eq!(e.get("zeta").unwrap().actions[0].entity_id, "light.y");
    assert!(e.get("nope").is_none());
    assert!(matches!(e.upsert(scene("  ", "light.a"), true), Err(SceneError::Invalid(m)) if m == "scene id required"));
    assert!(matches!(SceneEngine::validate(&scene("", "x")), Err(SceneError::Invalid(_))));
    assert!(SceneEngine::validate(&scene("ok", "x")).is_ok());
}

#[test]
fn persisted_engine_refuses_unstored_write() {
    let mut e = SceneEngine::from_scenes(vec![scene("a", "light.a")], true);
    assert!(e.mongo_backed());
    assert!(matches!(e.upsert(scene("b", "light.b"), false), Err(SceneError::Unavailable)));
    assert!(e.get("b").is_none());
    assert!(e.upsert(scene("b", "light.b"), true).is_ok());
    assert!(e.get("b").is_some());
}

#[test]
fn default_engine_runs_demo() {
    let e = SceneEngine::default();
    assert!(!e.mongo_backed());
    assert_eq!(e.list_ids(), vec!["away_mode".to_string(), "sleep_mode".to_string()]);
    assert_eq!(e.run_start("sleep_mode").ok().unwrap().actions.len(), 8);
    let err = e.run_start("party").err().unwrap();
    assert_eq!(err.to_string(), "scene not found: party");
    assert_eq!(SceneError::Invalid("x".into()).to_string(), "invalid scene: x");
    assert_eq!(SceneError::Unavailable.to_string(), "scene store unavailable (MongoDB)");
}

#[test]
fn missing_entities_are_skipped_not_failed() {
    let s = step_from_control(0, "light.gone", "turn_off", Err(AdapterError::NotFound("light.gone".into())));
    assert!(s.ok && s.skipped);
    assert_eq!(s.error.as_deref(), Some("entity 'light.gone' not found — skipped"));
    let s = step_from_control(1, "light.gone", "turn_off", Err(AdapterError::Api { status: 404, body: "nf".into() }));
    assert!(s.ok && s.skipped);
    let s = step_from_control(2, "light.x", "turn_off", Err(AdapterError::Unreachable("down".into())));
    assert!(!s.ok && !s.skipped);
    assert_eq!(s.error.as_deref(), Some("adapter unreachable: down"));
    assert!(is_missing_error(&AdapterError::NotFound("x".into())));
    assert!(!is_missing_error(&AdapterError::Api { status: 500, body: "".into() }));
    assert!(!entity_present_after(&Err(AdapterError::NotFound("x".into()))));
    assert!(entity_present_after(&Err(AdapterError::Unreachable("x".into()))));
}

#[test]
fn degraded_step_notes_ha_error() {
    let mut o = outcome();
    o.degraded_from = Some("adapter unreachable: ha".into());
    let s = step_from_control(0, "light.a", "turn_off", Ok(o));
    assert!(s.ok && !s.skipped);
    assert_eq!(s.error.as_deref(), Some("degraded: adapter unreachable: ha"));
    let s = step_from_control(0, "light.a", "turn_off", Ok(outcome()));
    assert!(s.error.is_none());
}

#[test]
fn run_aggregates_steps() {
    let steps: Vec<StepResult> = vec![
        step_from_control(0, "light.a", "turn_off", Ok(outcome())),
        skipped_step(1, "light.gone", "turn_off"),
        step_from_control(2, "light.x", "turn_off", Err(AdapterError::Invalid("bad".into()))),
        skipped_step(3, "light.gone2", "turn_off"),
    ];
    let r = RunResult::from_steps("sleep_mode".into(), steps);
    assert!(!r.ok);
    assert_eq!(r.failed, vec![2]);
    assert_eq!(r.skipped_count, 2);
    let j = to_serde(&r.to_json());
    assert_eq!(j["scene_id"], js("\"sleep_mode\""));
    assert_eq!(j["failed"], js("[2]"));
    assert_eq!(j["skipped_count"], js("2"));
    assert_eq!(j["steps"][1], js(r#"{"index":1,"entity_id":"light.gone","action":"turn_off","ok":true,"skipped":true,"error":"entity 'light.gone' not found — skipped","result":{"skipped":true}}"#));
    assert_eq!(j["steps"][2]["error"], js("\"invalid request: bad\""));
}

#[test]
fn run_with_only_skips_is_ok() {
    let r = RunResult::from_steps("s".into(), vec![skipped_step(0, "a", "turn_off"), skipped_step(1, "b", "turn_off")]);
    assert!(r.ok);
    assert!(r.failed.is_empty());
    assert_eq!(r.skipped_count, 2);
    let empty = RunResult::from_steps("s".into(), vec![]);
    assert!(empty.ok);
    assert_eq!(to_serde(&empty.to_json()), js(r#"{"scene_id":"s","ok":true,"steps":[],"failed":[],"skipped_count":0}"#));
}

#[test]
fn scene_json_shape() {
    let j = to_serde(&scene("a", "light.a").to_json());
    assert_eq!(j, js(r#"{"id":"a","name":"Scene a","actions":[{"entity_id":"light.a","action":"turn_off","params":{}}]}"#));
}

fn act(entity: &str) -> SceneAction {
    SceneAction { entity_id: entity.into(), action: "turn_off".into(), params: vec![] }
}

#[test]
fn scene_run_steps_follow_actions() {
    let scene = Scene { id: "s".into(), name: "S".into(), description: None, actions: vec![act("light.a"), act("light.gone"), act("light.b"), act("light.c")] };
    let engine = SceneEngine::from_scenes(vec![scene], false);
    assert!(matches!(SceneRun::start(&engine, "nope"), Err(SceneError::NotFound(id)) if id == "nope"));
    let mut reg = DeviceRegistry::new();
    reg.upsert(DeviceEntity::new("light.a".into(), EntityType::Light, "A".into(), "on".into(), vec![], true, "ha".into()));
    let mut run = SceneRun::start(&engine, "s").ok().unwrap();
    // light.a is in the registry: control it; it fails.
    match run.next(&reg) {
        RunNext::Control { entity_id, action, params } => assert_eq!((entity_id.as_str(), action.as_str(), params.len()), ("light.a", "turn_off", 0)),
        _ => panic!("control expected"),
    }
    run.on_control(Err(AdapterError::Unreachable("down".into())));
    // light.gone is not: check presence; it is missing.
    assert!(matches!(run.next(&reg), RunNext::CheckPresence(id) if id == "light.gone"));
    run.on_presence(&Err(AdapterError::NotFound("light.gone".into())));
    // light.b: presence inconclusive, so it is controlled.
    assert!(matches!(run.next(&reg), RunNext::CheckPresence(_)));
    run.on_presence(&Err(AdapterError::Unreachable("x".into())));
    assert!(matches!(run.next(&reg), RunNext::Control { .. }));
    run.on_control(Ok(outcome()));
    // light.c: control reports it missing.
    assert!(matches!(run.next(&reg), RunNext::CheckPresence(_)));
    run.on_presence(&Ok(DeviceEntity::new("light.c".into(), EntityType::Light, "C".into(), "on".into(), vec![], true, "ha".into())));
    assert!(matches!(run.next(&reg), RunNext::Control { .. }));
    run.on_control(Err(AdapterError::Api { status: 404, body: "".into() }));
    assert!(run.is_done());
    assert!(matches!(run.next(&reg), RunNext::Finished));
    let r = run.finish();
    assert_eq!(r.steps.len(), 4);
    assert!(r.steps.iter().enumerate().all(|(i, s)| s.index == i));
    assert_eq!(r.steps.iter().map(|s| s.skipped).collect::<Vec<_>>(), vec![false, true, false, true]);
    assert_eq!(r.failed, vec![0]);
    assert_eq!(r.skipped_count, 2);
    assert!(!r.ok);
}
