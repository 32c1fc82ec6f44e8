//! Hub client WebSocket protocol — the UI / Agent-facing realtime channel.
//!
//! Client → Hub frames: `device:command`, `agent:message`, `ping`.
//! Hub → client frames: `device:state_changed`, `agent:stream`,
//! `device:command_result`, `error`, `pong`, `hello`.
//!
//! This module decides what each incoming frame leads to and builds every
//! outgoing frame; the socket I/O, the Agent call and device control are done
//! by the caller.

use vstd::prelude::*;
use crate::adapter::{AdapterError, AdapterErrorView, adapter_error_text};
use crate::agent::{AgentError, AgentErrorView, ChatOptions};
use crate::auth::PairError;
use crate::encode::entity_json;
use crate::events::{self, error_frame};
use crate::json::{self, JsonValue, JsonView, NumberView, entries_view, lookup};
use crate::registry::{DeviceRegistry, EntityView, entities_view, is_device_type};
use crate::router::{ControlOutcome, OutcomeView, with_degraded, with_faker_flag};
use crate::scene::{SceneEngine, SceneView};
use crate::text;

verus! {

broadcast use vstd::string::group_string_axioms;

// ---------------------------------------------------------------------------
// Connection
// ---------------------------------------------------------------------------

/// Answer to a refused upgrade (401).
pub open spec fn ws_denied_text() -> Seq<char> {
    "Authorization required: connect with ?token=<lit_…>"@
}

pub fn ws_denied() -> (r: (u16, String))
    ensures
        r.0 == 401,
        r.1@ == ws_denied_text(),
{
    (401, text::owned("Authorization required: connect with ?token=<lit_…>"))
}

/// The `?token=` query value, trimmed; `None` when absent or blank.
pub fn ws_token(query_token: Option<&str>) -> (r: Option<String>)
    ensures
        match query_token {
            Some(t) => if text::trimmed(t@).len() > 0 {
                r matches Some(x) && x@ == text::trimmed(t@)
            } else {
                r is None
            },
            None => r is None,
        },
{
    match query_token {
        Some(t) => crate::auth::revoke_target(t),
        None => None,
    }
}

/// Upgrade decision before any token lookup.
pub enum WsAccess {
    /// Upgrade.
    Open,
    /// Validate the token, then `after_ws_validation`.
    Validate,
    /// Refuse with [`ws_denied`].
    Deny,
}

/// Open when auth is not required; else a token and an available store are
/// needed before validating it.
pub fn ws_access(auth_required: bool, has_token: bool, auth_available: bool) -> (r: WsAccess)
    ensures
        !auth_required ==> r is Open,
        auth_required && has_token && auth_available ==> r is Validate,
        auth_required && !(has_token && auth_available) ==> r is Deny,
{
    if !auth_required {
        WsAccess::Open
    } else if has_token && auth_available {
        WsAccess::Validate
    } else {
        WsAccess::Deny
    }
}

/// Only a token the store recognizes opens the socket; a store failure refuses.
pub fn after_ws_validation(valid: Result<bool, PairError>) -> (r: bool)
    ensures
        r == (valid matches Ok(b) && b),
{
    match valid {
        Ok(b) => b,
        Err(_) => false,
    }
}

/// `{"type": "hello", "service": "hub", "ha_configured", "agent_url", "auth_required"}`.
pub fn hello_frame(ha_configured: bool, agent_url: &str, auth_required: bool) -> (r: JsonValue)
    ensures
        r@ == JsonView::Object(seq![
            ("type"@, JsonView::Str("hello"@)),
            ("service"@, JsonView::Str("hub"@)),
            ("ha_configured"@, JsonView::Bool(ha_configured)),
            ("agent_url"@, JsonView::Str(agent_url@)),
            ("auth_required"@, JsonView::Bool(auth_required)),
        ]),
{
    let mut e: Vec<(String, JsonValue)> = Vec::new();
    json::push_entry(&mut e, "type", JsonValue::str("hello"));
    json::push_entry(&mut e, "service", JsonValue::str("hub"));
    json::push_entry(&mut e, "ha_configured", JsonValue::Bool(ha_configured));
    json::push_entry(&mut e, "agent_url", JsonValue::str(agent_url));
    json::push_entry(&mut e, "auth_required", JsonValue::Bool(auth_required));
    proof {
        assert(entries_view(e@) =~= seq![
            ("type"@, JsonView::Str("hello"@)),
            ("service"@, JsonView::Str("hub"@)),
            ("ha_configured"@, JsonView::Bool(ha_configured)),
            ("agent_url"@, JsonView::Str(agent_url@)),
            ("auth_required"@, JsonView::Bool(auth_required)),
        ]);
    }
    JsonValue::object(e)
}

fn error_str(code: &str, message: &str) -> (r: JsonValue)
    ensures
        r@ == error_frame(code@, JsonView::Str(message@)),
{
    events::error(code, JsonValue::str(message))
}

/// An error frame telling a subscriber it missed `n` events.
pub fn lag_frame(n: u64) -> (r: JsonValue)
    ensures
        r@ == error_frame("event_lagged"@, JsonView::Str("dropped "@ + text::dec(n as nat) + " events"@)),
{
    let d = text::u64_to_string(n);
    let m = text::concat3("dropped ", d.as_str(), " events");
    events::error("event_lagged", JsonValue::str(m.as_str()))
}

/// Something that happened on the socket or the event feed.
pub enum SocketInput {
    /// An event to forward.
    Event(JsonValue),
    /// The subscriber fell this many events behind.
    Lagged(u64),
    /// The event feed closed.
    EventsClosed,
    /// A text frame from the client.
    ClientText(String),
    /// A ping from the client.
    ClientPing(Vec<u8>),
    /// The client closed, the stream ended, or reading failed.
    ClientGone,
    /// Any other client frame.
    ClientOther,
}

/// What the socket loop does next. A failed send ends the loop.
pub enum SocketAction {
    /// Send this frame.
    Send(JsonValue),
    /// Handle the client's text (see [`plan_frame`]) and send each reply.
    HandleText(String),
    /// Answer the ping.
    Pong(Vec<u8>),
    /// End the session.
    Stop,
    /// Nothing to do.
    Continue,
}

/// The socket loop's reaction to one input.
pub fn socket_step(input: SocketInput) -> (r: SocketAction)
    ensures
        match input {
            SocketInput::Event(v) => r matches SocketAction::Send(x) && x@ == v@,
            SocketInput::Lagged(n) => r matches SocketAction::Send(x)
                && x@ == error_frame("event_lagged"@, JsonView::Str("dropped "@ + text::dec(n as nat) + " events"@)),
            SocketInput::EventsClosed => r is Stop,
            SocketInput::ClientText(t) => r matches SocketAction::HandleText(x) && x@ == t@,
            SocketInput::ClientPing(p) => r matches SocketAction::Pong(x) && x@ == p@,
            SocketInput::ClientGone => r is Stop,
            SocketInput::ClientOther => r is Continue,
        },
{
    match input {
        SocketInput::Event(v) => SocketAction::Send(v),
        SocketInput::Lagged(n) => SocketAction::Send(lag_frame(n)),
        SocketInput::EventsClosed => SocketAction::Stop,
        SocketInput::ClientText(t) => SocketAction::HandleText(t),
        SocketInput::ClientPing(p) => SocketAction::Pong(p),
        SocketInput::ClientGone => SocketAction::Stop,
        SocketInput::ClientOther => SocketAction::Continue,
    }
}

// ---------------------------------------------------------------------------
// Client frames
// ---------------------------------------------------------------------------

/// A frame from a client (fields absent from the JSON are `None` / empty / false).
pub struct ClientFrame {
    pub typ: String,
    pub entity_id: Option<String>,
    pub action: Option<String>,
    pub params: Vec<(String, JsonValue)>,
    pub content: Option<String>,
    pub message: Option<String>,
    pub context: Option<JsonValue>,
    /// Danger-confirm: re-sent after a `requires_confirmation` reply.
    pub confirm: bool,
    pub pending_action: Option<String>,
}

/// The reply to text that is not a valid frame.
pub fn bad_frame(parse_error: &str) -> (r: JsonValue)
    ensures
        r@ == error_frame("bad_frame"@, JsonView::Str("invalid JSON frame: "@ + parse_error@)),
{
    let m = text::concat("invalid JSON frame: ", parse_error);
    events::error("bad_frame", JsonValue::str(m.as_str()))
}

/// What a frame leads to.
pub enum FramePlan {
    /// Send these replies.
    Reply(Vec<JsonValue>),
    /// Route this control, then reply with [`device_command_reply`].
    DeviceCommand { entity_id: String, action: String },
    /// Ask the Agent about this (trimmed) text, then reply with [`agent_reply`].
    AgentMessage { content: String },
}

pub open spec fn nonempty(o: Option<String>) -> Option<Seq<char>> {
    match o {
        Some(s) => if s@.len() > 0 { Some(s@) } else { None },
        None => None,
    }
}

/// The text of an `agent:message`: `content`, else `message`, else empty; trimmed.
pub open spec fn agent_text(f: ClientFrame) -> Seq<char> {
    text::trimmed(match f.content {
        Some(c) => c@,
        None => match f.message {
            Some(m) => m@,
            None => Seq::empty(),
        },
    })
}

fn single(v: JsonValue) -> (r: Vec<JsonValue>)
    ensures
        r@.len() == 1,
        r@[0]@ == v@,
{
    vec![v]
}

/// Plans the handling of a client frame.
pub fn plan_frame(f: &ClientFrame) -> (r: FramePlan)
    ensures
        f.typ@ == "ping"@ ==> (r matches FramePlan::Reply(v) && v@.len() == 1
            && v@[0]@ == JsonView::Object(seq![("type"@, JsonView::Str("pong"@))])),
        f.typ@ == "device:command"@ ==> match (nonempty(f.entity_id), nonempty(f.action)) {
            (None, _) => r matches FramePlan::Reply(v) && v@.len() == 1
                && v@[0]@ == error_frame("missing_entity_id"@, JsonView::Str("device:command requires entity_id"@)),
            (Some(_), None) => r matches FramePlan::Reply(v) && v@.len() == 1
                && v@[0]@ == error_frame("missing_action"@, JsonView::Str("device:command requires action"@)),
            (Some(id), Some(a)) => r matches FramePlan::DeviceCommand { entity_id, action } && entity_id@ == id && action@ == a,
        },
        f.typ@ == "agent:message"@ ==> if agent_text(*f).len() == 0 {
            r matches FramePlan::Reply(v) && v@.len() == 1
                && v@[0]@ == error_frame("empty_message"@, JsonView::Str("agent:message requires content (or message)"@))
        } else {
            r matches FramePlan::AgentMessage { content } && content@ == agent_text(*f)
        },
        !(f.typ@ == "ping"@ || f.typ@ == "device:command"@ || f.typ@ == "agent:message"@) ==> (r matches FramePlan::Reply(v)
            && v@.len() == 1
            && v@[0]@ == error_frame("unknown_type"@, JsonView::Str("unsupported frame type: "@ + f.typ@))),
{
    proof {
        reveal_strlit("ping");
        reveal_strlit("device:command");
        reveal_strlit("agent:message");
    }
    let t = f.typ.as_str();
    if text::eq(t, "ping") {
        let mut e: Vec<(String, JsonValue)> = Vec::new();
        json::push_entry(&mut e, "type", JsonValue::str("pong"));
        proof {
            assert(entries_view(e@) =~= seq![("type"@, JsonView::Str("pong"@))]);
        }
        FramePlan::Reply(single(JsonValue::object(e)))
    } else if text::eq(t, "device:command") {
        let entity_id = match &f.entity_id {
            Some(id) => if text::is_empty(id.as_str()) { None } else { Some(id.clone()) },
            None => None,
        };
        let entity_id = match entity_id {
            Some(id) => id,
            None => {
                return FramePlan::Reply(single(error_str("missing_entity_id", "device:command requires entity_id")));
            },
        };
        let action = match &f.action {
            Some(a) => if text::is_empty(a.as_str()) { None } else { Some(a.clone()) },
            None => None,
        };
        match action {
            Some(action) => FramePlan::DeviceCommand { entity_id, action },
            None => FramePlan::Reply(single(error_str("missing_action", "device:command requires action"))),
        }
    } else if text::eq(t, "agent:message") {
        let raw: String = match &f.content {
            Some(c) => c.clone(),
            None => match &f.message {
                Some(m) => m.clone(),
                None => String::new(),
            },
        };
        let content = text::trim(raw.as_str());
        if text::is_empty(content.as_str()) {
            FramePlan::Reply(single(error_str("empty_message", "agent:message requires content (or message)")))
        } else {
            FramePlan::AgentMessage { content }
        }
    } else {
        let m = text::concat("unsupported frame type: ", t);
        FramePlan::Reply(single(error_str("unknown_type", m.as_str())))
    }
}

// ---------------------------------------------------------------------------
// Device commands
// ---------------------------------------------------------------------------

/// The command result frame for a successful control.
pub open spec fn command_result_frame(entity_id: Seq<char>, action: Seq<char>, o: OutcomeView) -> JsonView {
    JsonView::Object(with_degraded(
        with_faker_flag(
            seq![
                ("type"@, JsonView::Str("device:command_result"@)),
                ("ok"@, JsonView::Bool(true)),
                ("entity_id"@, JsonView::Str(entity_id)),
                ("action"@, JsonView::Str(action)),
                ("source"@, JsonView::Str(o.source)),
                ("result"@, o.result),
            ],
            o.source,
        ),
        o.degraded_from,
    ))
}

/// The error frame for a failed control.
pub open spec fn command_error_frame(e: AdapterErrorView) -> JsonView {
    match e {
        AdapterErrorView::NotConfigured(src) => error_frame(
            "adapter_not_configured"@,
            JsonView::Str(src + " not configured — set HA_URL/HA_TOKEN or use faker entity_ids"@),
        ),
        AdapterErrorView::Unreachable(m) => error_frame("adapter_unreachable"@, JsonView::Str(m)),
        AdapterErrorView::NotFound(id) => error_frame("device_not_found"@, JsonView::Str("entity '"@ + id + "' not found"@)),
        AdapterErrorView::Invalid(m) => error_frame("invalid_action"@, JsonView::Str(m)),
        other => error_frame("adapter_error"@, JsonView::Str(adapter_error_text(other))),
    }
}

/// The reply to a `device:command` once the control was routed.
pub fn device_command_reply(entity_id: &str, action: &str, r: Result<ControlOutcome, AdapterError>) -> (out: JsonValue)
    ensures
        match r {
            Ok(o) => out@ == command_result_frame(entity_id@, action@, o@),
            Err(e) => out@ == command_error_frame(e@),
        },
{
    match r {
        Ok(o) => {
            let mut e: Vec<(String, JsonValue)> = Vec::new();
            json::push_entry(&mut e, "type", JsonValue::str("device:command_result"));
            json::push_entry(&mut e, "ok", JsonValue::Bool(true));
            json::push_entry(&mut e, "entity_id", JsonValue::str(entity_id));
            json::push_entry(&mut e, "action", JsonValue::str(action));
            json::push_entry(&mut e, "source", JsonValue::str(o.source.as_str()));
            json::push_entry(&mut e, "result", o.result.deep_clone());
            let ghost base = entries_view(e@);
            proof {
                assert(base =~= seq![
                    ("type"@, JsonView::Str("device:command_result"@)),
                    ("ok"@, JsonView::Bool(true)),
                    ("entity_id"@, JsonView::Str(entity_id@)),
                    ("action"@, JsonView::Str(action@)),
                    ("source"@, JsonView::Str(o@.source)),
                    ("result"@, o@.result),
                ]);
            }
            if text::eq(o.source.as_str(), "faker") {
                json::push_entry(&mut e, "faker", JsonValue::Bool(true));
            }
            let ghost wf = entries_view(e@);
            proof {
                assert(wf == with_faker_flag(base, o@.source));
            }
            match &o.degraded_from {
                Some(d) => {
                    json::push_entry(&mut e, "ha_error", JsonValue::str(d.as_str()));
                    json::push_entry(&mut e, "degraded", JsonValue::Bool(true));
                    proof {
                        assert(entries_view(e@) =~= wf.push(("ha_error"@, JsonView::Str(d@))).push(("degraded"@, JsonView::Bool(true))));
                    }
                },
                None => {},
            }
            JsonValue::object(e)
        },
        Err(AdapterError::NotConfigured(src)) => {
            let m = text::concat(src.as_str(), " not configured — set HA_URL/HA_TOKEN or use faker entity_ids");
            error_str("adapter_not_configured", m.as_str())
        },
        Err(AdapterError::Unreachable(msg)) => error_str("adapter_unreachable", msg.as_str()),
        Err(AdapterError::NotFound(id)) => {
            let m = text::concat3("entity '", id.as_str(), "' not found");
            error_str("device_not_found", m.as_str())
        },
        Err(AdapterError::Invalid(msg)) => error_str("invalid_action", msg.as_str()),
        Err(e) => {
            let m = e.to_string();
            error_str("adapter_error", m.as_str())
        },
    }
}

// ---------------------------------------------------------------------------
// Agent messages
// ---------------------------------------------------------------------------

/// `{"devices": [...], "scenes": [...]}` (plus `extra`) built from the registry and scene ids.
pub open spec fn snapshot_json(devices: Seq<EntityView>, scene_ids: Seq<Seq<char>>) -> Seq<(Seq<char>, JsonView)> {
    seq![
        ("devices"@, JsonView::Array(devices.map_values(|e: EntityView| entity_json(e)))),
        ("scenes"@, crate::encode::strs_json(scene_ids)),
    ]
}

/// The context sent to the Agent: the client's object when it lists `devices`;
/// otherwise a registry snapshot (device list and scene ids), keeping any other
/// client context under `extra`. A `conversation_history` in the client's
/// context is copied in.
pub open spec fn agent_context_spec(frame_context: Option<JsonView>, devices: Seq<EntityView>, scene_ids: Seq<Seq<char>>) -> JsonView {
    let ctx = match frame_context {
        Some(JsonView::Object(e)) => if lookup(e, "devices"@) is Some {
            JsonView::Object(e)
        } else {
            JsonView::Object(snapshot_json(devices, scene_ids).push(("extra"@, JsonView::Object(e))))
        },
        Some(other) => JsonView::Object(snapshot_json(devices, scene_ids).push(("extra"@, other))),
        None => JsonView::Object(snapshot_json(devices, scene_ids)),
    };
    crate::agent::context_with_history(ctx, history_of(frame_context))
}

/// `conversation_history` of the client's context, if any.
pub open spec fn history_of(frame_context: Option<JsonView>) -> Option<JsonView> {
    match frame_context {
        Some(c) => json::get(c, "conversation_history"@),
        None => None,
    }
}

fn snapshot(registry: &DeviceRegistry, scenes: &SceneEngine) -> (r: Vec<(String, JsonValue)>)
    requires
        registry.wf(),
        scenes.wf(),
    ensures
        entries_view(r@) == snapshot_json(
            registry.entries().filter(|e: EntityView| is_device_type(e.entity_type)),
            scenes.entries().map_values(|s: SceneView| s.id),
        ),
{
    let devices = registry.list_devices();
    let ids = scenes.list_ids();
    let dj = crate::api::entities_json(&devices);
    let ij = JsonValue::str_array(&ids);
    proof {
        if let JsonView::Array(x) = ij@ {
            assert(x =~= text::strings_view(ids@).map_values(|s: Seq<char>| JsonView::Str(s)));
        }
    }
    let mut e: Vec<(String, JsonValue)> = Vec::new();
    json::push_entry(&mut e, "devices", dj);
    json::push_entry(&mut e, "scenes", ij);
    proof {
        assert(entries_view(e@) =~= snapshot_json(
            registry.entries().filter(|e: EntityView| is_device_type(e.entity_type)),
            scenes.entries().map_values(|s: SceneView| s.id),
        ));
    }
    e
}

/// The Agent context and chat options for an `agent:message` frame.
pub fn agent_request(f: &ClientFrame, registry: &DeviceRegistry, scenes: &SceneEngine) -> (r: (JsonValue, ChatOptions))
    requires
        registry.wf(),
        scenes.wf(),
    ensures
        r.0@ == agent_context_spec(
            match f.context { Some(c) => Some(c@), None => None },
            registry.entries().filter(|e: EntityView| is_device_type(e.entity_type)),
            scenes.entries().map_values(|s: SceneView| s.id),
        ),
        r.1.confirm == f.confirm,
        crate::capability::opt_str_view(r.1.pending_action) == crate::capability::opt_str_view(f.pending_action),
        (match r.1.conversation_history { Some(h) => Some(h@), None => None })
            == history_of(match f.context { Some(c) => Some(c@), None => None }),
{
    let ctx = match &f.context {
        Some(JsonValue::Object(e)) => {
            proof {
                json::lemma_object_view(*e);
            }
            if json::entries_contains(e, "devices") {
                JsonValue::object(json::clone_entries(e))
            } else {
                let mut s = snapshot(registry, scenes);
                json::push_entry(&mut s, "extra", JsonValue::object(json::clone_entries(e)));
                JsonValue::object(s)
            }
        },
        Some(other) => {
            let mut s = snapshot(registry, scenes);
            json::push_entry(&mut s, "extra", other.deep_clone());
            JsonValue::object(s)
        },
        None => JsonValue::object(snapshot(registry, scenes)),
    };
    let history = match &f.context {
        Some(c) => match c.get("conversation_history") {
            Some(h) => Some(h.deep_clone()),
            None => None,
        },
        None => None,
    };
    let ctx = match &history {
        Some(h) => match ctx {
            JsonValue::Object(mut e) => {
                proof {
                    json::lemma_object_view(e);
                }
                json::put_entry(&mut e, "conversation_history", h.deep_clone());
                JsonValue::object(e)
            },
            other => other,
        },
        None => ctx,
    };
    let options = ChatOptions {
        confirm: f.confirm,
        pending_action: match &f.pending_action {
            Some(p) => Some(p.clone()),
            None => None,
        },
        conversation_history: history,
    };
    (ctx, options)
}

/// `resp[key]`, or `default`.
pub open spec fn field_or(resp: JsonView, key: Seq<char>, default: JsonView) -> JsonView {
    match json::get(resp, key) {
        Some(v) => v,
        None => default,
    }
}

/// The `agent:stream` frame for an Agent response.
pub open spec fn stream_frame(resp: JsonView) -> JsonView {
    JsonView::Object(seq![
        ("type"@, JsonView::Str("agent:stream"@)),
        ("reply"@, field_or(resp, "reply"@, JsonView::Str(Seq::empty()))),
        ("status"@, field_or(resp, "status"@, JsonView::Str("ok"@))),
        ("errors"@, field_or(resp, "errors"@, JsonView::Array(Seq::empty()))),
        ("used_llm"@, field_or(resp, "used_llm"@, JsonView::Bool(false))),
        ("used_tools"@, field_or(resp, "used_tools"@, JsonView::Bool(false))),
        ("meta"@, field_or(resp, "meta"@, JsonView::Object(Seq::empty()))),
        ("requires_confirmation"@, field_or(resp, "requires_confirmation"@, JsonView::Bool(false))),
        ("pending_action"@, field_or(resp, "pending_action"@, JsonView::Null)),
    ])
}

/// The error frame for a failed Agent call.
pub open spec fn agent_error_frame(e: AgentErrorView) -> JsonView {
    match e {
        AgentErrorView::NotConfigured => error_frame("agent_not_configured"@, JsonView::Str("AGENT_URL is empty"@)),
        AgentErrorView::Unreachable(m) => error_frame("agent_unreachable"@, JsonView::Str(m)),
        AgentErrorView::Api { status, body } => JsonView::Object(seq![
            ("type"@, JsonView::Str("error"@)),
            ("code"@, JsonView::Str("agent_error"@)),
            ("message"@, JsonView::Str("Agent HTTP "@ + text::dec(status as nat))),
            ("detail"@, JsonView::Str(body)),
        ]),
    }
}

fn field_or_exec(resp: &JsonValue, key: &str, default: JsonValue) -> (r: JsonValue)
    ensures
        r@ == field_or(resp@, key@, default@),
{
    match resp.get(key) {
        Some(v) => v.deep_clone(),
        None => default,
    }
}

fn empty_array() -> (r: JsonValue)
    ensures
        r@ == JsonView::Array(Seq::empty()),
{
    let v: Vec<JsonValue> = Vec::new();
    proof {
        assert(json::values_view(v@) =~= Seq::<JsonView>::empty());
    }
    JsonValue::array(v)
}

fn empty_object() -> (r: JsonValue)
    ensures
        r@ == JsonView::Object(Seq::empty()),
{
    let e: Vec<(String, JsonValue)> = Vec::new();
    proof {
        assert(entries_view(e@) =~= Seq::<(Seq<char>, JsonView)>::empty());
    }
    JsonValue::object(e)
}

/// The reply to an `agent:message` once the Agent answered (or failed).
pub fn agent_reply(r: Result<JsonValue, AgentError>) -> (out: JsonValue)
    ensures
        match r {
            Ok(resp) => out@ == stream_frame(resp@),
            Err(e) => out@ == agent_error_frame(e@),
        },
{
    match r {
        Ok(resp) => {
            let empty = JsonValue::str("");
            proof {
                reveal_strlit("");
                assert(""@ =~= Seq::<char>::empty());
            }
            let mut e: Vec<(String, JsonValue)> = Vec::new();
            json::push_entry(&mut e, "type", JsonValue::str("agent:stream"));
            json::push_entry(&mut e, "reply", field_or_exec(&resp, "reply", empty));
            json::push_entry(&mut e, "status", field_or_exec(&resp, "status", JsonValue::str("ok")));
            json::push_entry(&mut e, "errors", field_or_exec(&resp, "errors", empty_array()));
            json::push_entry(&mut e, "used_llm", field_or_exec(&resp, "used_llm", JsonValue::Bool(false)));
            json::push_entry(&mut e, "used_tools", field_or_exec(&resp, "used_tools", JsonValue::Bool(false)));
            json::push_entry(&mut e, "meta", field_or_exec(&resp, "meta", empty_object()));
            json::push_entry(&mut e, "requires_confirmation", field_or_exec(&resp, "requires_confirmation", JsonValue::Bool(false)));
            json::push_entry(&mut e, "pending_action", field_or_exec(&resp, "pending_action", JsonValue::Null));
            proof {
                assert(entries_view(e@) =~= match stream_frame(resp@) { JsonView::Object(x) => x, _ => Seq::empty() });
            }
            JsonValue::object(e)
        },
        Err(AgentError::NotConfigured) => error_str("agent_not_configured", "AGENT_URL is empty"),
        Err(AgentError::Unreachable(msg)) => error_str("agent_unreachable", msg.as_str()),
        Err(AgentError::Api { status, body }) => {
            let n = text::u64_to_string(status as u64);
            let m = text::concat("Agent HTTP ", n.as_str());
            let mut e: Vec<(String, JsonValue)> = Vec::new();
            json::push_entry(&mut e, "type", JsonValue::str("error"));
            json::push_entry(&mut e, "code", JsonValue::str("agent_error"));
            json::push_entry(&mut e, "message", JsonValue::str(m.as_str()));
            json::push_entry(&mut e, "detail", JsonValue::str(body.as_str()));
            proof {
                assert(entries_view(e@) =~= seq![
                    ("type"@, JsonView::Str("error"@)),
                    ("code"@, JsonView::Str("agent_error"@)),
                    ("message"@, JsonView::Str("Agent HTTP "@ + text::dec(status as nat))),
                    ("detail"@, JsonView::Str(body@)),
                ]);
            }
            JsonValue::object(e)
        },
    }
}

} // verus!
