use lan_iot_hub::agent::{backoff, AgentClient, AgentError, AgentReply, ChatNext, ChatOptions, ChatRun};
use lan_iot_hub::json::{JsonNumber, JsonValue};

fn to_serde(j: &JsonValue) -> serde_json::Value {
    match j {
        JsonValue::Null => serde_json::Value::Null,
        JsonValue::Bool(b) => serde_json::Value::Bool(*b),
        JsonValue::Number(JsonNumber::PosInt(n, _)) => serde_json::Value::from(*n),
        JsonValue::Number(JsonNumber::NegInt(n, _)) => serde_json::Value::from(*n),
        JsonValue::Number(JsonNumber::Float(x)) => serde_json::Value::from(f64::from_bits(x.bits)),
        JsonValue::Str(t) => serde_json::Value::String(t.clone()),
        JsonValue::Array(v) => serde_json::Value::Array(v.iter().map(to_serde).collect()),
        JsonValue::Object(e) => {
            let mut m = serde_json::Map::new();
            for (k, v) in e {
                m.insert(k.clone(), to_serde(v));
            }
            serde_json::Value::Object(m)
        }
    }
}

fn js(t: &str) -> serde_json::Value {
    serde_json::from_str(t).unwrap()
}

fn sent(status: u16, text: &str) -> AgentReply {
    AgentReply::Sent { status, text: text.into(), parsed: None }
}

#[test]
fn chat_request_body() {
    let c = AgentClient::new("http://agent:8000/");
    assert_eq!(c.base_url, "http://agent:8000");
    assert_eq!(c.max_retries, 3);
    assert!(c.is_configured());
    let (url, body) = c.chat_request("hi", None, ChatOptions::default()).ok().unwrap();
    assert_eq!(url, "http://agent:8000/v1/chat");
    assert_eq!(to_serde(&body), js(r#"{"message":"hi","context":{"devices":[],"scenes":[]}}"#));
    let opts = ChatOptions {
        confirm: true,
        pending_action: Some("lock".into()),
        conversation_history: Some(JsonValue::Array(vec![JsonValue::Str("x".into())])),
    };
    let (_, body) = c.chat_request("yes", None, opts).ok().unwrap();
    assert_eq!(
        to_serde(&body),
        js(r#"{"message":"yes","context":{"devices":[],"scenes":[],"conversation_history":["x"]},"confirm":true,"pending_action":"lock"}"#)
    );
    let none = AgentClient::new("");
    assert!(!none.is_configured());
    assert!(matches!(none.chat_request("hi", None, ChatOptions::default()), Err(AgentError::NotConfigured)));
}

#[test]
fn backoff_doubles() {
    assert_eq!(backoff(1), 200);
    assert_eq!(backoff(2), 400);
    assert_eq!(backoff(3), 800);
    assert_eq!(backoff(0), 200);
}

#[test]
fn retries_then_gives_up() {
    let mut run = ChatRun::new(3);
    assert!(matches!(run.first(), ChatNext::Send));
    assert!(matches!(run.on_reply(sent(503, "busy")), ChatNext::Wait(200)));
    assert!(matches!(run.on_reply(AgentReply::Failed("refused".into())), ChatNext::Wait(400)));
    assert_eq!(run.attempt, 3);
    match run.on_reply(AgentReply::Failed("refused".into())) {
        ChatNext::Done(Err(e)) => assert_eq!(e.to_string(), "Agent unreachable: refused"),
        _ => panic!("done expected"),
    }
    let mut run = ChatRun::new(1);
    match run.on_reply(sent(502, "bad gw")) {
        ChatNext::Done(Err(e)) => assert_eq!(e.to_string(), "Agent API error (502): bad gw"),
        _ => panic!("done expected"),
    }
    let zero = ChatRun::new(0);
    assert!(matches!(zero.first(), ChatNext::Done(Err(AgentError::Unreachable(m))) if m == "unknown"));
}

#[test]
fn successful_replies() {
    let mut run = ChatRun::new(3);
    assert!(matches!(run.on_reply(sent(404, "nf")), ChatNext::Done(Err(AgentError::Api { status: 404, .. }))));
    let mut run = ChatRun::new(3);
    match run.on_reply(sent(200, " ")) {
        ChatNext::Done(Ok(v)) => assert_eq!(to_serde(&v), js(r#"{"reply":"","status":"ok"}"#)),
        _ => panic!("ok expected"),
    }
    let mut run = ChatRun::new(3);
    match run.on_reply(sent(200, "plain")) {
        ChatNext::Done(Ok(v)) => assert_eq!(to_serde(&v), js(r#"{"reply":"plain","status":"ok","raw":true}"#)),
        _ => panic!("ok expected"),
    }
    let mut run = ChatRun::new(3);
    let parsed = JsonValue::Object(vec![("reply".into(), JsonValue::Str("done".into()))]);
    match run.on_reply(AgentReply::Sent { status: 200, text: "{\"reply\":\"done\"}".into(), parsed: Some(parsed) }) {
        ChatNext::Done(Ok(v)) => assert_eq!(to_serde(&v), js(r#"{"reply":"done"}"#)),
        _ => panic!("ok expected"),
    }
    assert_eq!(AgentError::NotConfigured.to_string(), "Agent URL is empty");
}
