use lan_iot_hub::adapter::AdapterError;
use lan_iot_hub::agent::AgentError;
use lan_iot_hub::auth::PairError;
use lan_iot_hub::json::{JsonNumber, JsonValue};
use lan_iot_hub::registry::{DeviceEntity, DeviceRegistry, EntityType};
use lan_iot_hub::router::ControlOutcome;
use lan_iot_hub::scene::SceneEngine;
use lan_iot_hub::ws::{
    after_ws_validation, agent_reply, agent_request, bad_frame, device_command_reply, hello_frame, lag_frame, plan_frame, socket_step,
    ws_access, ws_denied, ws_token, ClientFrame, FramePlan, SocketAction, SocketInput, WsAccess,
};

fn to_serde(j: &JsonValue) -> serde_json::Value {
    match j {
        JsonValue::Null => serde_json::Value::Null,
        JsonValue::Bool(b) => serde_json::Value::Bool(*b),
        JsonValue::Number(JsonNumber::PosInt(n, _)) => serde_json::Value::from(*n),
        JsonValue::Number(JsonNumber::NegInt(n, _)) => serde_json::Value::from(*n),
        JsonValue::Number(JsonNumber::Float(x)) => serde_json::Value::from(f64::from_bits(x.bits)),
        JsonValue::Str(t) => serde_json::Value::String(t.clone()),
        JsonValue::Array(v) => serde_json::Value::Array(v.iter().map(to_serde).collect()),
        JsonValue::Object(e) => {
            let mut m = serde_json::Map::new();
            for (k, v) in e {
                m.insert(k.clone(), to_serde(v));
            }
            serde_json::Value::Object(m)
        }
    }
}

fn js(t: &str) -> serde_json::Value {
    serde_json::from_str(t).unwrap()
}

fn frame(typ: &str) -> ClientFrame {
    ClientFrame {
        typ: typ.into(),
        entity_id: None,
        action: None,
        params: vec![],
        content: None,
        message: None,
        context: None,
        confirm: false,
        pending_action: None,
    }
}

fn single_reply(p: FramePlan) -> serde_json::Value {
    match p {
        FramePlan::Reply(v) => {
            assert_eq!(v.len(), 1);
            to_serde(&v[0])
        }
        _ => panic!("reply expected"),
    }
}

#[test]
fn upgrade_decisions() {
    assert!(matches!(ws_access(false, false, false), WsAccess::Open));
    assert!(matches!(ws_access(true, true, true), WsAccess::Validate));
    assert!(matches!(ws_access(true, false, true), WsAccess::Deny));
    assert!(matches!(ws_access(true, true, false), WsAccess::Deny));
    assert!(after_ws_validation(Ok(true)));
    assert!(!after_ws_validation(Ok(false)));
    assert!(!after_ws_validation(Err(PairError::Unavailable)));
    assert_eq!(ws_denied(), (401, "Authorization required: connect with ?token=<lit_…>".to_string()));
    assert_eq!(ws_token(Some(" lit_x ")).as_deref(), Some("lit_x"));
    assert!(ws_token(Some("")).is_none());
    assert!(ws_token(None).is_none());
}

#[test]
fn hello_and_lag() {
    assert_eq!(
        to_serde(&hello_frame(true, "http://agent:8000", false)),
        js(r#"{"type":"hello","service":"hub","ha_configured":true,"agent_url":"http://agent:8000","auth_required":false}"#)
    );
    assert_eq!(to_serde(&lag_frame(12)), js(r#"{"type":"error","code":"event_lagged","message":"dropped 12 events"}"#));
    assert_eq!(to_serde(&bad_frame("eof")), js(r#"{"type":"error","code":"bad_frame","message":"invalid JSON frame: eof"}"#));
}

#[test]
fn socket_loop_steps() {
    assert!(matches!(socket_step(SocketInput::Event(JsonValue::Null)), SocketAction::Send(JsonValue::Null)));
    assert!(matches!(socket_step(SocketInput::Lagged(3)), SocketAction::Send(_)));
    assert!(matches!(socket_step(SocketInput::EventsClosed), SocketAction::Stop));
    assert!(matches!(socket_step(SocketInput::ClientText("x".into())), SocketAction::HandleText(t) if t == "x"));
    assert!(matches!(socket_step(SocketInput::ClientPing(vec![9])), SocketAction::Pong(p) if p == vec![9]));
    assert!(matches!(socket_step(SocketInput::ClientGone), SocketAction::Stop));
    assert!(matches!(socket_step(SocketInput::ClientOther), SocketAction::Continue));
}

#[test]
fn frame_plans() {
    assert_eq!(single_reply(plan_frame(&frame("ping"))), js(r#"{"type":"pong"}"#));
    assert_eq!(single_reply(plan_frame(&frame("nope")))["message"], js("\"unsupported frame type: nope\""));
    let mut f = frame("device:command");
    assert_eq!(single_reply(plan_frame(&f))["code"], js("\"missing_entity_id\""));
    f.entity_id = Some("light.a".into());
    f.action = Some("".into());
    assert_eq!(single_reply(plan_frame(&f))["code"], js("\"missing_action\""));
    f.action = Some("turn_on".into());
    assert!(matches!(plan_frame(&f), FramePlan::DeviceCommand { entity_id, action } if entity_id == "light.a" && action == "turn_on"));
    let mut a = frame("agent:message");
    assert_eq!(single_reply(plan_frame(&a))["code"], js("\"empty_message\""));
    a.message = Some("  lights off ".into());
    assert!(matches!(plan_frame(&a), FramePlan::AgentMessage { content } if content == "lights off"));
}

#[test]
fn device_command_frames() {
    let o = ControlOutcome {
        ok: true,
        source: "faker".into(),
        entity_id: "light.a".into(),
        action: "turn_on".into(),
        result: JsonValue::Bool(true),
        device: None,
        degraded_from: Some("adapter unreachable: x".into()),
    };
    assert_eq!(
        to_serde(&device_command_reply("light.a", "turn_on", Ok(o))),
        js(r#"{"type":"device:command_result","ok":true,"entity_id":"light.a","action":"turn_on","source":"faker","result":true,"faker":true,"ha_error":"adapter unreachable: x","degraded":true}"#)
    );
    let e = device_command_reply("light.a", "turn_on", Err(AdapterError::NotConfigured("ha".into())));
    assert_eq!(to_serde(&e)["message"], js("\"ha not configured — set HA_URL/HA_TOKEN or use faker entity_ids\""));
    let e = device_command_reply("light.a", "turn_on", Err(AdapterError::NotFound("light.a".into())));
    assert_eq!(to_serde(&e), js(r#"{"type":"error","code":"device_not_found","message":"entity 'light.a' not found"}"#));
    let e = device_command_reply("light.a", "turn_on", Err(AdapterError::Api { status: 500, body: "b".into() }));
    assert_eq!(to_serde(&e)["message"], js("\"adapter API error (500): b\""));
    assert_eq!(to_serde(&device_command_reply("x", "y", Err(AdapterError::Invalid("bad".into()))))["code"], js("\"invalid_action\""));
    assert_eq!(to_serde(&device_command_reply("x", "y", Err(AdapterError::Unreachable("u".into()))))["code"], js("\"adapter_unreachable\""));
}

#[test]
fn agent_context_and_replies() {
    let mut reg = DeviceRegistry::new();
    reg.upsert(DeviceEntity::new("light.a".into(), EntityType::Light, "A".into(), "on".into(), vec![], true, "ha".into()));
    reg.upsert(DeviceEntity::new("automation.x".into(), EntityType::Other, "X".into(), "on".into(), vec![], true, "ha".into()));
    let scenes = SceneEngine::default();
    let mut f = frame("agent:message");
    f.context = Some(JsonValue::Object(vec![
        ("room".into(), JsonValue::Str("kitchen".into())),
        ("conversation_history".into(), JsonValue::Array(vec![])),
    ]));
    f.confirm = true;
    f.pending_action = Some("lock".into());
    let (ctx, opts) = agent_request(&f, &reg, &scenes);
    let c = to_serde(&ctx);
    assert_eq!(c["devices"].as_array().unwrap().len(), 1);
    assert_eq!(c["scenes"], js(r#"["away_mode","sleep_mode"]"#));
    assert_eq!(c["extra"]["room"], js("\"kitchen\""));
    assert_eq!(c["conversation_history"], js("[]"));
    assert!(opts.confirm);
    assert_eq!(opts.pending_action.as_deref(), Some("lock"));
    assert!(opts.conversation_history.is_some());
    f.context = Some(JsonValue::Object(vec![("devices".into(), JsonValue::Array(vec![]))]));
    let (ctx, _) = agent_request(&f, &reg, &scenes);
    assert_eq!(to_serde(&ctx), js(r#"{"devices":[]}"#));

    let reply = agent_reply(Ok(JsonValue::Object(vec![("reply".into(), JsonValue::Str("done".into()))])));
    assert_eq!(
        to_serde(&reply),
        js(r#"{"type":"agent:stream","reply":"done","status":"ok","errors":[],"used_llm":false,"used_tools":false,"meta":{},"requires_confirmation":false,"pending_action":null}"#)
    );
    assert_eq!(to_serde(&agent_reply(Err(AgentError::NotConfigured)))["message"], js("\"AGENT_URL is empty\""));
    assert_eq!(
        to_serde(&agent_reply(Err(AgentError::Api { status: 502, body: "gw".into() }))),
        js(r#"{"type":"error","code":"agent_error","message":"Agent HTTP 502","detail":"gw"}"#)
    );
    assert_eq!(to_serde(&agent_reply(Err(AgentError::Unreachable("down".into()))))["code"], js("\"agent_unreachable\""));
}
