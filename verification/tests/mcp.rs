use lan_iot_hub::adapter::AdapterError;
use lan_iot_hub::companion::{CommandResult, CompanionError};
use lan_iot_hub::json::{Float64, JsonNumber, JsonValue};
use lan_iot_hub::mcp::{
    adapter_to_rpc, call_http_response, check_version, climate_args, climate_merge, companion_args, companion_outcome, control_args,
    default_jsonrpc, describe_result, devices_list_filter, devices_list_result, devices_list_sync_failed, dispatch_rpc, entity_id_arg,
    lights_args, mcp_info, parse_entity_type, parse_tool, rpc_err, rpc_response, scene_error_rpc, scene_id_arg, shorthand_result,
    single_param, tool_catalog, tool_def, tools_body, tools_call_result, value_to_params, McpServer, RpcPlan, Tool,
};
use lan_iot_hub::registry::{DeviceEntity, EntityType};
use lan_iot_hub::scene::SceneError;

fn to_serde(j: &JsonValue) -> serde_json::Value {
    match j {
        JsonValue::Null => serde_json::Value::Null,
        JsonValue::Bool(b) => serde_json::Value::Bool(*b),
        JsonValue::Number(JsonNumber::PosInt(n, _)) => serde_json::Value::from(*n),
        JsonValue::Number(JsonNumber::NegInt(n, _)) => serde_json::Value::from(*n),
        JsonValue::Number(JsonNumber::Float(x)) => serde_json::Value::from(f64::from_bits(x.bits)),
        JsonValue::Str(t) => serde_json::Value::String(t.clone()),
        JsonValue::Array(v) => serde_json::Value::Array(v.iter().map(to_serde).collect()),
        JsonValue::Object(e) => {
            let mut m = serde_json::Map::new();
            for (k, v) in e {
                m.insert(k.clone(), to_serde(v));
            }
            serde_json::Value::Object(m)
        }
    }
}

fn from_serde(v: &serde_json::Value) -> JsonValue {
    match v {
        serde_json::Value::Null => JsonValue::Null,
        serde_json::Value::Bool(b) => JsonValue::Bool(*b),
        serde_json::Value::Number(n) => {
            let f = n.as_f64().unwrap();
            let fl = Float64 { bits: f.to_bits(), text: format!("{}", f) };
            if let Some(u) = n.as_u64() {
                JsonValue::Number(JsonNumber::PosInt(u, Some(fl)))
            } else if let Some(i) = n.as_i64() {
                JsonValue::Number(JsonNumber::NegInt(i, Some(fl)))
            } else {
                JsonValue::Number(JsonNumber::Float(fl))
            }
        }
        serde_json::Value::String(s) => JsonValue::Str(s.clone()),
        serde_json::Value::Array(a) => JsonValue::Array(a.iter().map(from_serde).collect()),
        serde_json::Value::Object(m) => JsonValue::Object(m.iter().map(|(k, v)| (k.clone(), from_serde(v))).collect()),
    }
}

fn js(t: &str) -> serde_json::Value {
    serde_json::from_str(t).unwrap()
}

fn jv(t: &str) -> JsonValue {
    from_serde(&js(t))
}

fn dev(id: &str, name: &str) -> DeviceEntity {
    DeviceEntity::new(id.into(), EntityType::from_entity_id(id), name.into(), "on".into(), vec![], true, "ha".into())
}

#[test]
fn catalog_lists_eight_tools() {
    let c = tool_catalog();
    assert_eq!(c.len(), 8);
    let names: Vec<String> = c.iter().map(|t| to_serde(t)["name"].as_str().unwrap().to_string()).collect();
    for n in ["devices.list", "devices.get_state", "devices.describe", "devices.control", "climate.set", "lights.control", "scenes.run", "companion.command"] {
        assert!(names.contains(&n.to_string()), "{}", n);
    }
    assert_eq!(to_serde(&tools_body())["tools"].as_array().unwrap().len(), 8);
    assert_eq!(to_serde(&tool_def("x.y", "d", JsonValue::Null)), js(r#"{"name":"x.y","description":"d","inputSchema":null}"#));
    let info = to_serde(&mcp_info());
    assert_eq!(info["service"], js("\"lan-iot-hub-mcp\""));
    assert_eq!(info["methods"], js(r#"["initialize","tools/list","tools/call","ping"]"#));
    let _ = McpServer::new();
}

#[test]
fn dispatch_methods() {
    match dispatch_rpc("ping", JsonValue::Null) {
        RpcPlan::Reply(Ok(v)) => assert_eq!(to_serde(&v), js(r#"{"ok":true}"#)),
        _ => panic!("ping"),
    }
    match dispatch_rpc("initialize", JsonValue::Null) {
        RpcPlan::Reply(Ok(v)) => assert_eq!(to_serde(&v)["protocolVersion"], js("\"2024-11-05\"")),
        _ => panic!("initialize"),
    }
    match dispatch_rpc("tools/call", jv(r#"{"name":"devices.list","arguments":{"type":"light"}}"#)) {
        RpcPlan::CallTool { name, arguments, via_tools_call } => {
            assert_eq!(name, "devices.list");
            assert_eq!(to_serde(&arguments), js(r#"{"type":"light"}"#));
            assert!(via_tools_call);
        }
        _ => panic!("call"),
    }
    match dispatch_rpc("tools/call", jv(r#"{"arguments":{}}"#)) {
        RpcPlan::Reply(Err(e)) => assert_eq!((e.code, e.message.as_str()), (-32602, "params.name required")),
        _ => panic!("missing name"),
    }
    match dispatch_rpc("scenes.run", jv(r#"{"scene_id":"sleep_mode"}"#)) {
        RpcPlan::CallTool { name, arguments, via_tools_call } => {
            assert_eq!(name, "scenes.run");
            assert_eq!(to_serde(&arguments), js(r#"{"scene_id":"sleep_mode"}"#));
            assert!(!via_tools_call);
        }
        _ => panic!("shorthand"),
    }
    match dispatch_rpc("bogus", JsonValue::Null) {
        RpcPlan::Reply(Err(e)) => assert_eq!((e.code, e.message.as_str()), (-32601, "method not found: bogus")),
        _ => panic!("unknown"),
    }
    assert!(check_version("").is_none() && check_version("2.0").is_none());
    assert_eq!(check_version("1.0").unwrap().message, "unsupported jsonrpc version: 1.0");
    assert_eq!(default_jsonrpc(), "2.0");
}

#[test]
fn results_and_responses() {
    let r = tools_call_result("devices.list", JsonValue::Bool(true), "true");
    assert_eq!(to_serde(&r), js(r#"{"ok":true,"tool":"devices.list","data":true,"content":[{"type":"text","text":"true"}]}"#));
    assert_eq!(to_serde(&shorthand_result("t.x", JsonValue::Null)), js(r#"{"ok":true,"tool":"t.x","data":null}"#));
    let resp = rpc_response(Some(jv("7")), Err(rpc_err(-32601, "nope")));
    assert_eq!(to_serde(&resp.to_json()), js(r#"{"jsonrpc":"2.0","id":7,"error":{"code":-32601,"message":"nope"}}"#));
    let resp = rpc_response(None, Ok(JsonValue::Bool(false)));
    assert_eq!(to_serde(&resp.to_json()), js(r#"{"jsonrpc":"2.0","result":false}"#));
    let (status, body) = call_http_response("x.y", Err(adapter_to_rpc(AdapterError::Api { status: 500, body: "b".into() })));
    assert_eq!(status, 400);
    assert_eq!(to_serde(&body), js(r#"{"ok":false,"tool":"x.y","error":"adapter API 500","data":{"body":"b","status":500}}"#));
    let (status, body) = call_http_response("x.y", Ok(JsonValue::Null));
    assert_eq!((status, to_serde(&body)), (200, js(r#"{"ok":true,"tool":"x.y","data":null}"#)));
}

#[test]
fn adapter_errors_map_to_codes() {
    assert_eq!(adapter_to_rpc(AdapterError::NotConfigured("ha".into())).message, "ha adapter not configured");
    assert_eq!(adapter_to_rpc(AdapterError::NotConfigured("ha".into())).code, -32002);
    assert_eq!(adapter_to_rpc(AdapterError::Unreachable("x".into())).code, -32003);
    assert_eq!(adapter_to_rpc(AdapterError::NotFound("light.a".into())).message, "device not found: light.a");
    assert_eq!(adapter_to_rpc(AdapterError::Invalid("bad".into())).code, -32602);
    assert_eq!(adapter_to_rpc(AdapterError::NoAdapter("m".into())).code, -32002);
    assert_eq!(scene_error_rpc(SceneError::NotFound("s".into())).code, -32004);
    assert_eq!(scene_error_rpc(SceneError::Unavailable).code, -32003);
    assert_eq!(scene_error_rpc(SceneError::Invalid("i".into())).message, "invalid scene: i");
}

#[test]
fn tool_arguments() {
    assert!(matches!(parse_tool("climate.set"), Ok(Tool::ClimateSet)));
    assert_eq!(parse_tool("x.y").err().unwrap().message, "unknown tool: x.y");
    assert_eq!(entity_id_arg(&jv("{}")).err().unwrap().message, "entity_id required");
    let c = control_args(&jv(r#"{"entity_id":"light.a","action":"turn_on","params":{"brightness":9}}"#)).ok().unwrap();
    assert_eq!((c.entity_id.as_str(), c.action.as_str(), c.params.len()), ("light.a", "turn_on", 1));
    assert_eq!(control_args(&jv(r#"{"entity_id":"light.a"}"#)).err().unwrap().message, "action required");
    let c = control_args(&jv(r#"{"entity_id":"light.a","action":"x","params":5}"#)).ok().unwrap();
    assert!(c.params.is_empty());
    let (id, t, m) = climate_args(&jv(r#"{"entity_id":"climate.ac","temperature":22,"mode":"cool"}"#)).ok().unwrap();
    assert_eq!((id.as_str(), to_serde(&t), to_serde(&m.unwrap())), ("climate.ac", js("22"), js("\"cool\"")));
    assert_eq!(climate_args(&jv(r#"{"entity_id":"climate.ac"}"#)).err().unwrap().message, "temperature required");
    let l = lights_args(&jv(r#"{"entity_id":"light.a","on":true,"brightness":50}"#)).ok().unwrap();
    assert_eq!(l.action, "set_brightness");
    let l = lights_args(&jv(r#"{"entity_id":"light.a","on":false,"brightness":50}"#)).ok().unwrap();
    assert_eq!((l.action.as_str(), l.params.len()), ("turn_off", 1));
    let l = lights_args(&jv(r#"{"entity_id":"light.a","on":true}"#)).ok().unwrap();
    assert_eq!((l.action.as_str(), l.params.len()), ("turn_on", 0));
    assert_eq!(lights_args(&jv(r#"{"entity_id":"light.a","on":"yes"}"#)).err().unwrap().message, "on (boolean) required");
    assert_eq!(scene_id_arg(&jv(r#"{"id":"away_mode"}"#)).ok().unwrap(), "away_mode");
    assert_eq!(scene_id_arg(&jv("{}")).err().unwrap().message, "scene_id required");
    assert_eq!(companion_args(&jv(r#"{"id":"pc","command":"lock"}"#)).ok().unwrap(), ("pc".to_string(), "lock".to_string()));
    assert_eq!(companion_args(&jv(r#"{"device_id":"pc"}"#)).err().unwrap().message, "command required");
    assert_eq!(companion_args(&jv(r#"{"command":"lock"}"#)).err().unwrap().message, "device_id required");
    assert_eq!(to_serde(&JsonValue::Object(single_param("brightness", jv("3")))), js(r#"{"brightness":3}"#));
    assert_eq!(value_to_params(jv("[1]")).len(), 0);
    let merged = climate_merge(jv(r#"{"ok":true}"#), jv(r#"{"mode":1}"#));
    assert_eq!(to_serde(&merged), js(r#"{"ok":true,"hvac_mode_result":{"mode":1}}"#));
    assert_eq!(to_serde(&climate_merge(jv("3"), jv("4"))), js("3"));
}

#[test]
fn companion_results_are_visible_failures() {
    let ok = CommandResult { ok: true, device_id: "pc".into(), command: "ping".into(), response: None, error: None };
    assert_eq!(to_serde(&companion_outcome("pc", "ping", Ok(ok)).ok().unwrap()), js(r#"{"ok":true,"device_id":"pc","command":"ping"}"#));
    let off = companion_outcome("pc", "lock", Err(CompanionError::Unreachable("refused".into()))).ok().unwrap();
    assert_eq!(
        to_serde(&off),
        js(r#"{"ok":false,"device_id":"pc","command":"lock","companion_available":false,"error":"companion unreachable: refused"}"#)
    );
    let api = companion_outcome("pc", "lock", Err(CompanionError::Api { status: 403, body: "no".into() })).ok().unwrap();
    assert_eq!(to_serde(&api)["error"], js("\"companion API 403: no\""));
    assert_eq!(to_serde(&api)["companion_available"], js("true"));
    assert_eq!(companion_outcome("pc", "lock", Err(CompanionError::NotFound("pc".into()))).err().unwrap().code, -32004);
    assert_eq!(companion_outcome("pc", "lock", Err(CompanionError::Unavailable)).err().unwrap().code, -32003);
    assert_eq!(companion_outcome("pc", "lock", Err(CompanionError::Invalid("x".into()))).err().unwrap().code, -32602);
}

#[test]
fn devices_list_filters() {
    let all = || vec![dev("light.kitchen", "Kitchen Lamp"), dev("switch.plug", "Bedroom Plug"), dev("sensor.t", "KÜCHE Temp")];
    let lights = devices_list_filter(all(), &jv(r#"{"type":"Lights"}"#));
    assert_eq!(lights.len(), 1);
    assert_eq!(lights[0].entity_id, "light.kitchen");
    let by_domain = devices_list_filter(all(), &jv(r#"{"type":"SWITCH"}"#));
    assert_eq!(by_domain.len(), 1);
    let unknown = devices_list_filter(all(), &jv(r#"{"type":"media_player"}"#));
    assert!(unknown.is_empty());
    let room = devices_list_filter(all(), &jv(r#"{"room":"kitchen"}"#));
    assert_eq!(room.len(), 1);
    let unicode = devices_list_filter(all(), &jv(r#"{"room":"küche"}"#));
    assert_eq!(unicode.len(), 1);
    assert_eq!(devices_list_filter(all(), &jv("{}")).len(), 3);
    assert!(parse_entity_type("binary_sensor").is_some() && parse_entity_type("tv").is_none());
    let r = to_serde(&devices_list_result(&all(), false, true));
    assert_eq!((r["count"].clone(), r["ha_available"].clone()), (js("3"), js("true")));
    let r = to_serde(&devices_list_result(&vec![], false, true));
    assert_eq!(r["ha_available"], js("false"));
    assert_eq!(to_serde(&devices_list_sync_failed("down")), js(r#"{"devices":[],"ha_available":false,"warning":"down"}"#));
}

#[test]
fn describe_device() {
    let d = DeviceEntity::new("light.faker_xiaomi_bulb".into(), EntityType::Light, "Bulb".into(), "off".into(), vec![], true, "faker".into());
    let j = to_serde(&describe_result(&d, &vec!["faker".into(), "ha".into()]));
    assert_eq!(j["entity_type"], js("\"light\""));
    assert_eq!(j["brand"], js("\"xiaomi\""));
    assert_eq!(j["is_faker"], js("true"));
    assert_eq!(j["adapters"], js(r#"["faker","ha"]"#));
    assert_eq!(j["summary"]["kinds"][0], js("\"on_off\""));
    assert_eq!(j["summary"]["capabilities"], j["capabilities"]);
}
