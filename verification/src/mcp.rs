//! MCP-style JSON-RPC over HTTP for the Python Agent.
//!
//! Endpoint shape: `POST /mcp` takes a pragmatic JSON-RPC 2.0 subset
//! (`initialize`, `ping`, `tools/list`, `tools/call`, and a shorthand where the
//! method is a tool name); `GET /mcp` gives a discovery document, `GET
//! /mcp/tools` the tool catalog, and `POST /mcp/call` calls a tool without the
//! envelope. Tool results are `{"ok": true, "tool": …, "data": …}`; errors are
//! `{"code": …, "message": …}` objects.
//!
//! This module holds the protocol: the catalog, request dispatch, tool
//! argument checks, and how results and errors are shaped. The tools act
//! through the router, scene engine and Companion registry.

use vstd::prelude::*;
use crate::adapter::{AdapterError, AdapterErrorView};
use crate::encode::{push_opt, strs_json};
use crate::json::{self, JsonValue, JsonView, NumberView, entries_view, lookup};
use crate::registry::{self, EntityType, EntityView, entities_view};
use crate::text;

verus! {

broadcast use vstd::string::group_string_axioms;

// ---------------------------------------------------------------------------
// Envelope types
// ---------------------------------------------------------------------------

/// A JSON-RPC request.
pub struct JsonRpcRequest {
    pub jsonrpc: String,
    pub id: Option<JsonValue>,
    pub method: String,
    pub params: JsonValue,
}

/// A JSON-RPC error object.
pub struct JsonRpcError {
    pub code: i32,
    pub message: String,
    pub data: Option<JsonValue>,
}

pub struct RpcErrorView {
    pub code: i32,
    pub message: Seq<char>,
    pub data: Option<JsonView>,
}

impl View for JsonRpcError {
    type V = RpcErrorView;

    open spec fn view(&self) -> RpcErrorView {
        RpcErrorView {
            code: self.code,
            message: self.message@,
            data: match self.data {
                Some(d) => Some(d@),
                None => None,
            },
        }
    }
}

/// A JSON-RPC response.
pub struct JsonRpcResponse {
    pub jsonrpc: String,
    pub id: Option<JsonValue>,
    pub result: Option<JsonValue>,
    pub error: Option<JsonRpcError>,
}

/// Body of `POST /mcp/call`.
pub struct CallBody {
    pub name: String,
    pub arguments: JsonValue,
}

/// The protocol version assumed when a request names none.
pub fn default_jsonrpc() -> (r: String)
    ensures
        r@ == "2.0"@,
{
    text::owned("2.0")
}

pub open spec fn rpc_error_spec(code: i32, message: Seq<char>) -> RpcErrorView {
    RpcErrorView { code, message, data: None }
}

/// An error object without data.
pub fn rpc_err(code: i32, message: &str) -> (r: JsonRpcError)
    ensures
        r@ == rpc_error_spec(code, message@),
{
    JsonRpcError { code, message: text::owned(message), data: None }
}

pub open spec fn opt_json(o: Option<JsonView>) -> Option<JsonView> {
    o
}

/// An error object as serialized (`data` only when present).
pub open spec fn rpc_error_json(e: RpcErrorView) -> JsonView {
    JsonView::Object(push_opt(
        seq![("code"@, JsonView::Number(if e.code >= 0 { NumberView::PosInt(e.code as u64, None) } else { NumberView::NegInt(e.code as i64, None) })), ("message"@, JsonView::Str(e.message))],
        "data"@,
        e.data,
    ))
}

impl JsonRpcError {
    /// The error object as serialized.
    pub fn to_json(&self) -> (r: JsonValue)
        ensures
            r@ == rpc_error_json(self@),
    {
        let mut e: Vec<(String, JsonValue)> = Vec::new();
        json::push_entry(&mut e, "code", JsonValue::integer(self.code as i64));
        json::push_entry(&mut e, "message", JsonValue::str(self.message.as_str()));
        proof {
            assert(entries_view(e@) =~= seq![
                ("code"@, JsonView::Number(if self.code >= 0 { NumberView::PosInt(self.code as u64, None) } else { NumberView::NegInt(self.code as i64, None) })),
                ("message"@, JsonView::Str(self.message@)),
            ]);
        }
        match &self.data {
            Some(d) => json::push_entry(&mut e, "data", d.deep_clone()),
            None => {},
        }
        JsonValue::object(e)
    }
}

impl JsonRpcResponse {
    /// `{"jsonrpc": "2.0"}` with `id`, `result`, `error` when present.
    pub fn to_json(&self) -> (r: JsonValue)
        ensures
            r@ == JsonView::Object(push_opt(
                push_opt(
                    push_opt(seq![("jsonrpc"@, JsonView::Str(self.jsonrpc@))], "id"@, match self.id { Some(i) => Some(i@), None => None }),
                    "result"@,
                    match self.result { Some(x) => Some(x@), None => None },
                ),
                "error"@,
                match self.error { Some(x) => Some(rpc_error_json(x@)), None => None },
            )),
    {
        let mut e: Vec<(String, JsonValue)> = Vec::new();
        json::push_entry(&mut e, "jsonrpc", JsonValue::str(self.jsonrpc.as_str()));
        proof {
            assert(entries_view(e@) =~= seq![("jsonrpc"@, JsonView::Str(self.jsonrpc@))]);
        }
        match &self.id {
            Some(i) => json::push_entry(&mut e, "id", i.deep_clone()),
            None => {},
        }
        match &self.result {
            Some(x) => json::push_entry(&mut e, "result", x.deep_clone()),
            None => {},
        }
        match &self.error {
            Some(x) => json::push_entry(&mut e, "error", x.to_json()),
            None => {},
        }
        JsonValue::object(e)
    }
}

// ---------------------------------------------------------------------------
// Tool catalog
// ---------------------------------------------------------------------------

pub open spec fn jstr(s: Seq<char>) -> JsonView {
    JsonView::Str(s)
}

/// `{"type": t}`.
pub open spec fn typed(t: Seq<char>) -> JsonView {
    JsonView::Object(seq![("type"@, jstr(t))])
}

/// `{"type": t, "description": d}`.
pub open spec fn typed_desc(t: Seq<char>, d: Seq<char>) -> JsonView {
    JsonView::Object(seq![("type"@, jstr(t)), ("description"@, jstr(d))])
}

/// An object schema with the given `required` names (when any) and `properties`.
pub open spec fn object_schema(required: Seq<Seq<char>>, props: Seq<(Seq<char>, JsonView)>) -> JsonView {
    if required.len() == 0 {
        JsonView::Object(seq![("type"@, jstr("object"@)), ("properties"@, JsonView::Object(props))])
    } else {
        JsonView::Object(seq![("type"@, jstr("object"@)), ("required"@, strs_json(required)), ("properties"@, JsonView::Object(props))])
    }
}

/// `{"name", "description", "inputSchema"}`.
pub open spec fn tool_def_spec(name: Seq<char>, description: Seq<char>, schema: JsonView) -> JsonView {
    JsonView::Object(seq![("name"@, jstr(name)), ("description"@, jstr(description)), ("inputSchema"@, schema)])
}

pub open spec fn brightness_schema() -> JsonView {
    JsonView::Object(seq![
        ("type"@, jstr("integer"@)),
        ("minimum"@, JsonView::Number(NumberView::PosInt(0, None))),
        ("maximum"@, JsonView::Number(NumberView::PosInt(255, None))),
    ])
}

/// The eight tools the Hub offers.
pub open spec fn tool_catalog_spec() -> Seq<JsonView> {
    seq![
        tool_def_spec(
            "devices.list"@,
            "List devices from Hub registry (any southbound adapter). Optional filters: type, room. Each device includes capabilities."@,
            object_schema(Seq::empty(), seq![
                ("type"@, typed_desc("string"@, "light|climate|switch|sensor|…"@)),
                ("room"@, typed_desc("string"@, "Substring match on friendly_name"@)),
            ]),
        ),
        tool_def_spec(
            "devices.get_state"@,
            "Get one device/entity state by entity_id (routed by entity.source)."@,
            object_schema(seq!["entity_id"@], seq![("entity_id"@, typed("string"@))]),
        ),
        tool_def_spec(
            "devices.describe"@,
            "Describe a device's machine-readable capabilities and allowed actions/params for Agent planning."@,
            object_schema(seq!["entity_id"@], seq![("entity_id"@, typed("string"@))]),
        ),
        tool_def_spec(
            "devices.control"@,
            "Control a device via its southbound adapter (turn_on, turn_off, set_temperature, …). Routes by entity.source (ha|faker|…)."@,
            object_schema(seq!["entity_id"@, "action"@], seq![
                ("entity_id"@, typed("string"@)),
                ("action"@, typed("string"@)),
                ("params"@, typed("object"@)),
            ]),
        ),
        tool_def_spec(
            "climate.set"@,
            "Thin wrapper: set climate temperature (and optional HVAC mode)."@,
            object_schema(seq!["entity_id"@, "temperature"@], seq![
                ("entity_id"@, typed("string"@)),
                ("temperature"@, typed("number"@)),
                ("mode"@, typed("string"@)),
            ]),
        ),
        tool_def_spec(
            "lights.control"@,
            "Thin wrapper: turn light on/off with optional brightness."@,
            object_schema(seq!["entity_id"@, "on"@], seq![
                ("entity_id"@, typed("string"@)),
                ("on"@, typed("boolean"@)),
                ("brightness"@, brightness_schema()),
            ]),
        ),
        tool_def_spec(
            "scenes.run"@,
            "Run a Hub scene by id (sequential device actions). Missing entities are skipped."@,
            object_schema(seq!["scene_id"@], seq![
                ("scene_id"@, typed_desc("string"@, "Scene id, e.g. sleep_mode or away_mode"@)),
            ]),
        ),
        tool_def_spec(
            "companion.command"@,
            "Send a command to a Companion device (phone/PC/robot) via Hub HTTP. Demo: companion.demo_pc may be offline."@,
            object_schema(seq!["device_id"@, "command"@], seq![
                ("device_id"@, typed_desc("string"@, "Companion id, e.g. companion.demo_pc"@)),
                ("command"@, typed_desc("string"@, "Command string forwarded to Companion POST /command (ping, notify, lock, stop, dock, start, …)"@)),
                ("title"@, typed_desc("string"@, "Optional notify title"@)),
                ("body"@, typed_desc("string"@, "Optional notify body / message"@)),
            ]),
        ),
    ]
}

fn obj2(k1: &str, v1: JsonValue, k2: &str, v2: JsonValue) -> (r: JsonValue)
    ensures
        r@ == JsonView::Object(seq![(k1@, v1@), (k2@, v2@)]),
{
    let mut e: Vec<(String, JsonValue)> = Vec::new();
    json::push_entry(&mut e, k1, v1);
    json::push_entry(&mut e, k2, v2);
    proof {
        assert(entries_view(e@) =~= seq![(k1@, v1@), (k2@, v2@)]);
    }
    JsonValue::object(e)
}

fn typed_exec(t: &str) -> (r: JsonValue)
    ensures
        r@ == typed(t@),
{
    let mut e: Vec<(String, JsonValue)> = Vec::new();
    json::push_entry(&mut e, "type", JsonValue::str(t));
    proof {
        assert(entries_view(e@) =~= seq![("type"@, jstr(t@))]);
    }
    JsonValue::object(e)
}

fn typed_desc_exec(t: &str, d: &str) -> (r: JsonValue)
    ensures
        r@ == typed_desc(t@, d@),
{
    obj2("type", JsonValue::str(t), "description", JsonValue::str(d))
}

fn object_schema_exec(required: Vec<String>, props: Vec<(String, JsonValue)>) -> (r: JsonValue)
    ensures
        r@ == object_schema(text::strings_view(required@), entries_view(props@)),
{
    let ghost rv = text::strings_view(required@);
    let mut e: Vec<(String, JsonValue)> = Vec::new();
    json::push_entry(&mut e, "type", JsonValue::str("object"));
    if required.len() > 0 {
        let a = JsonValue::str_array(&required);
        proof {
            if let JsonView::Array(x) = a@ {
                assert(x =~= rv.map_values(|s: Seq<char>| JsonView::Str(s)));
            }
        }
        json::push_entry(&mut e, "required", a);
    }
    json::push_entry(&mut e, "properties", JsonValue::object(props));
    proof {
        if rv.len() == 0 {
            assert(entries_view(e@) =~= seq![("type"@, jstr("object"@)), ("properties"@, JsonView::Object(entries_view(props@)))]);
        } else {
            assert(entries_view(e@) =~= seq![("type"@, jstr("object"@)), ("required"@, strs_json(rv)), ("properties"@, JsonView::Object(entries_view(props@)))]);
        }
    }
    JsonValue::object(e)
}

fn prop(k: &str, v: JsonValue) -> (r: (String, JsonValue))
    ensures
        r.0@ == k@,
        r.1@ == v@,
{
    (text::owned(k), v)
}

/// `{"name", "description", "inputSchema"}`.
pub fn tool_def(name: &str, description: &str, input_schema: JsonValue) -> (r: JsonValue)
    ensures
        r@ == tool_def_spec(name@, description@, input_schema@),
{
    let mut e: Vec<(String, JsonValue)> = Vec::new();
    json::push_entry(&mut e, "name", JsonValue::str(name));
    json::push_entry(&mut e, "description", JsonValue::str(description));
    json::push_entry(&mut e, "inputSchema", input_schema);
    proof {
        assert(entries_view(e@) =~= seq![("name"@, jstr(name@)), ("description"@, jstr(description@)), ("inputSchema"@, input_schema@)]);
    }
    JsonValue::object(e)
}

fn req1(a: &str) -> (r: Vec<String>)
    ensures
        text::strings_view(r@) == seq![a@],
{
    let r = vec![text::owned(a)];
    proof {
        assert(text::strings_view(r@) =~= seq![a@]);
    }
    r
}

fn req2(a: &str, b: &str) -> (r: Vec<String>)
    ensures
        text::strings_view(r@) == seq![a@, b@],
{
    let r = vec![text::owned(a), text::owned(b)];
    proof {
        assert(text::strings_view(r@) =~= seq![a@, b@]);
    }
    r
}

fn props1(k1: &str, v1: JsonValue) -> (r: Vec<(String, JsonValue)>)
    ensures
        entries_view(r@) == seq![(k1@, v1@)],
{
    let r = vec![prop(k1, v1)];
    proof {
        assert(entries_view(r@) =~= seq![(k1@, v1@)]);
    }
    r
}

fn props2(k1: &str, v1: JsonValue, k2: &str, v2: JsonValue) -> (r: Vec<(String, JsonValue)>)
    ensures
        entries_view(r@) == seq![(k1@, v1@), (k2@, v2@)],
{
    let r = vec![prop(k1, v1), prop(k2, v2)];
    proof {
        assert(entries_view(r@) =~= seq![(k1@, v1@), (k2@, v2@)]);
    }
    r
}

fn props3(k1: &str, v1: JsonValue, k2: &str, v2: JsonValue, k3: &str, v3: JsonValue) -> (r: Vec<(String, JsonValue)>)
    ensures
        entries_view(r@) == seq![(k1@, v1@), (k2@, v2@), (k3@, v3@)],
{
    let r = vec![prop(k1, v1), prop(k2, v2), prop(k3, v3)];
    proof {
        assert(entries_view(r@) =~= seq![(k1@, v1@), (k2@, v2@), (k3@, v3@)]);
    }
    r
}

fn props4(k1: &str, v1: JsonValue, k2: &str, v2: JsonValue, k3: &str, v3: JsonValue, k4: &str, v4: JsonValue) -> (r: Vec<(String, JsonValue)>)
    ensures
        entries_view(r@) == seq![(k1@, v1@), (k2@, v2@), (k3@, v3@), (k4@, v4@)],
{
    let r = vec![prop(k1, v1), prop(k2, v2), prop(k3, v3), prop(k4, v4)];
    proof {
        assert(entries_view(r@) =~= seq![(k1@, v1@), (k2@, v2@), (k3@, v3@), (k4@, v4@)]);
    }
    r
}

/// The tool catalog.
pub fn tool_catalog() -> (r: Vec<JsonValue>)
    ensures
        json::values_view(r@) == tool_catalog_spec(),
{
    let none: Vec<String> = Vec::new();
    proof {
        assert(text::strings_view(none@) =~= Seq::<Seq<char>>::empty());
    }
    let t0 = tool_def(
        "devices.list",
        "List devices from Hub registry (any southbound adapter). Optional filters: type, room. Each device includes capabilities.",
        object_schema_exec(none, props2(
            "type", typed_desc_exec("string", "light|climate|switch|sensor|…"),
            "room", typed_desc_exec("string", "Substring match on friendly_name"),
        )),
    );
    let t1 = tool_def(
        "devices.get_state",
        "Get one device/entity state by entity_id (routed by entity.source).",
        object_schema_exec(req1("entity_id"), props1("entity_id", typed_exec("string"))),
    );
    let t2 = tool_def(
        "devices.describe",
        "Describe a device's machine-readable capabilities and allowed actions/params for Agent planning.",
        object_schema_exec(req1("entity_id"), props1("entity_id", typed_exec("string"))),
    );
    let t3 = tool_def(
        "devices.control",
        "Control a device via its southbound adapter (turn_on, turn_off, set_temperature, …). Routes by entity.source (ha|faker|…).",
        object_schema_exec(req2("entity_id", "action"), props3(
            "entity_id", typed_exec("string"),
            "action", typed_exec("string"),
            "params", typed_exec("object"),
        )),
    );
    let t4 = tool_def(
        "climate.set",
        "Thin wrapper: set climate temperature (and optional HVAC mode).",
        object_schema_exec(req2("entity_id", "temperature"), props3(
            "entity_id", typed_exec("string"),
            "temperature", typed_exec("number"),
            "mode", typed_exec("string"),
        )),
    );
    let mut b: Vec<(String, JsonValue)> = Vec::new();
    json::push_entry(&mut b, "type", JsonValue::str("integer"));
    json::push_entry(&mut b, "minimum", JsonValue::uint(0));
    json::push_entry(&mut b, "maximum", JsonValue::uint(255));
    proof {
        assert(entries_view(b@) =~= seq![
            ("type"@, jstr("integer"@)),
            ("minimum"@, JsonView::Number(NumberView::PosInt(0, None))),
            ("maximum"@, JsonView::Number(NumberView::PosInt(255, None))),
        ]);
    }
    let t5 = tool_def(
        "lights.control",
        "Thin wrapper: turn light on/off with optional brightness.",
        object_schema_exec(req2("entity_id", "on"), props3(
            "entity_id", typed_exec("string"),
            "on", typed_exec("boolean"),
            "brightness", JsonValue::object(b),
        )),
    );
    let t6 = tool_def(
        "scenes.run",
        "Run a Hub scene by id (sequential device actions). Missing entities are skipped.",
        object_schema_exec(req1("scene_id"), props1("scene_id", typed_desc_exec("string", "Scene id, e.g. sleep_mode or away_mode"))),
    );
    let t7 = tool_def(
        "companion.command",
        "Send a command to a Companion device (phone/PC/robot) via Hub HTTP. Demo: companion.demo_pc may be offline.",
        object_schema_exec(req2("device_id", "command"), props4(
            "device_id", typed_desc_exec("string", "Companion id, e.g. companion.demo_pc"),
            "command", typed_desc_exec("string", "Command string forwarded to Companion POST /command (ping, notify, lock, stop, dock, start, …)"),
            "title", typed_desc_exec("string", "Optional notify title"),
            "body", typed_desc_exec("string", "Optional notify body / message"),
        )),
    );
    let r = vec![t0, t1, t2, t3, t4, t5, t6, t7];
    proof {
        assert(json::values_view(r@) =~= tool_catalog_spec());
    }
    r
}

/// `GET /mcp/tools` body: `{"tools": [...]}`.
pub fn tools_body() -> (r: JsonValue)
    ensures
        r@ == JsonView::Object(seq![("tools"@, JsonView::Array(tool_catalog_spec()))]),
{
    let mut e: Vec<(String, JsonValue)> = Vec::new();
    json::push_entry(&mut e, "tools", JsonValue::array(tool_catalog()));
    proof {
        assert(entries_view(e@) =~= seq![("tools"@, JsonView::Array(tool_catalog_spec()))]);
    }
    JsonValue::object(e)
}

// ---------------------------------------------------------------------------
// Small helpers shared by the tools
// ---------------------------------------------------------------------------

/// Entity type named by a filter word (ASCII case-insensitive; plurals allowed).
pub open spec fn parse_type_spec(s: Seq<char>) -> Option<EntityType> {
    let l = text::lower(s);
    if l == "light"@ || l == "lights"@ {
        Some(EntityType::Light)
    } else if l == "climate"@ {
        Some(EntityType::Climate)
    } else if l == "switch"@ || l == "switches"@ {
        Some(EntityType::Switch)
    } else if l == "sensor"@ || l == "sensors"@ {
        Some(EntityType::Sensor)
    } else if l == "binary_sensor"@ {
        Some(EntityType::BinarySensor)
    } else if l == "cover"@ {
        Some(EntityType::Cover)
    } else if l == "fan"@ {
        Some(EntityType::Fan)
    } else if l == "other"@ {
        Some(EntityType::Other)
    } else {
        None
    }
}

/// Entity type named by a filter word.
pub fn parse_entity_type(s: &str) -> (r: Option<EntityType>)
    ensures
        r == parse_type_spec(s@),
{
    let l = text::to_ascii_lowercase(s);
    let t = l.as_str();
    if text::eq(t, "light") || text::eq(t, "lights") {
        Some(EntityType::Light)
    } else if text::eq(t, "climate") {
        Some(EntityType::Climate)
    } else if text::eq(t, "switch") || text::eq(t, "switches") {
        Some(EntityType::Switch)
    } else if text::eq(t, "sensor") || text::eq(t, "sensors") {
        Some(EntityType::Sensor)
    } else if text::eq(t, "binary_sensor") {
        Some(EntityType::BinarySensor)
    } else if text::eq(t, "cover") {
        Some(EntityType::Cover)
    } else if text::eq(t, "fan") {
        Some(EntityType::Fan)
    } else if text::eq(t, "other") {
        Some(EntityType::Other)
    } else {
        None
    }
}

/// Control parameters from a JSON value: an object's entries, else none.
pub open spec fn params_of(v: JsonView) -> Seq<(Seq<char>, JsonView)> {
    match v {
        JsonView::Object(e) => e,
        _ => Seq::empty(),
    }
}

/// Control parameters from a JSON value.
pub fn value_to_params(v: JsonValue) -> (r: Vec<(String, JsonValue)>)
    ensures
        entries_view(r@) == params_of(v@),
{
    match v {
        JsonValue::Object(e) => {
            proof {
                json::lemma_object_view(e);
            }
            e
        },
        _ => {
            let r: Vec<(String, JsonValue)> = Vec::new();
            proof {
                assert(entries_view(r@) =~= Seq::<(Seq<char>, JsonView)>::empty());
            }
            r
        },
    }
}

/// JSON-RPC error for an adapter failure.
pub open spec fn adapter_rpc_spec(e: AdapterErrorView) -> RpcErrorView {
    match e {
        AdapterErrorView::NotConfigured(src) => rpc_error_spec(-32002i32, src + " adapter not configured"@),
        AdapterErrorView::Unreachable(m) => rpc_error_spec(-32003i32, "adapter unreachable: "@ + m),
        AdapterErrorView::Api { status, body } => RpcErrorView {
            code: -32003i32,
            message: "adapter API "@ + text::dec(status as nat),
            data: Some(JsonView::Object(seq![
                ("body"@, JsonView::Str(body)),
                ("status"@, JsonView::Number(NumberView::PosInt(status as u64, None))),
            ])),
        },
        AdapterErrorView::NotFound(id) => rpc_error_spec(-32004i32, "device not found: "@ + id),
        AdapterErrorView::Invalid(m) => rpc_error_spec(-32602i32, m),
        AdapterErrorView::NoAdapter(m) => rpc_error_spec(-32002i32, m),
    }
}

/// JSON-RPC error for an adapter failure.
pub fn adapter_to_rpc(err: AdapterError) -> (r: JsonRpcError)
    ensures
        r@ == adapter_rpc_spec(err@),
{
    match err {
        AdapterError::NotConfigured(src) => JsonRpcError { code: -32002, message: text::concat(src.as_str(), " adapter not configured"), data: None },
        AdapterError::Unreachable(msg) => JsonRpcError { code: -32003, message: text::concat("adapter unreachable: ", msg.as_str()), data: None },
        AdapterError::Api { status, body } => {
            let n = text::u64_to_string(status as u64);
            let data = obj2("body", JsonValue::str(body.as_str()), "status", JsonValue::uint(status as u64));
            JsonRpcError { code: -32003, message: text::concat("adapter API ", n.as_str()), data: Some(data) }
        },
        AdapterError::NotFound(id) => JsonRpcError { code: -32004, message: text::concat("device not found: ", id.as_str()), data: None },
        AdapterError::Invalid(msg) => JsonRpcError { code: -32602, message: msg, data: None },
        AdapterError::NoAdapter(msg) => JsonRpcError { code: -32002, message: msg, data: None },
    }
}

/// Kept for potential internal use.
pub struct McpServer;

impl McpServer {
    pub fn new() -> (r: McpServer) {
        McpServer
    }
}

// ---------------------------------------------------------------------------
// Dispatch
// ---------------------------------------------------------------------------

/// `{"ok": true}`.
pub open spec fn ok_json() -> JsonView {
    JsonView::Object(seq![("ok"@, JsonView::Bool(true))])
}

/// The `initialize` result.
pub open spec fn initialize_json() -> JsonView {
    JsonView::Object(seq![
        ("protocolVersion"@, jstr("2024-11-05"@)),
        ("serverInfo"@, JsonView::Object(seq![("name"@, jstr("lan-iot-hub"@)), ("version"@, jstr("0.1.0"@))])),
        ("capabilities"@, JsonView::Object(seq![("tools"@, JsonView::Object(Seq::empty()))])),
        ("instructions"@, jstr("Call tools via tools/call or shorthand method=tool name"@)),
    ])
}

/// The discovery document of `GET /mcp`.
pub open spec fn info_json() -> JsonView {
    JsonView::Object(seq![
        ("service"@, jstr("lan-iot-hub-mcp"@)),
        ("transport"@, jstr("json-rpc-http"@)),
        ("endpoints"@, JsonView::Object(seq![
            ("rpc"@, jstr("POST /mcp"@)),
            ("tools"@, jstr("GET /mcp/tools"@)),
            ("call"@, jstr("POST /mcp/call"@)),
        ])),
        ("methods"@, strs_json(seq!["initialize"@, "tools/list"@, "tools/call"@, "ping"@])),
        ("tools"@, JsonView::Array(tool_catalog_spec())),
        ("note"@, jstr("Full MCP streamable-HTTP not required; Agent may POST tools/call or /mcp/call"@)),
    ])
}

fn empty_object() -> (r: JsonValue)
    ensures
        r@ == JsonView::Object(Seq::empty()),
{
    let e: Vec<(String, JsonValue)> = Vec::new();
    proof {
        assert(entries_view(e@) =~= Seq::<(Seq<char>, JsonView)>::empty());
    }
    JsonValue::object(e)
}

fn obj1(k1: &str, v1: JsonValue) -> (r: JsonValue)
    ensures
        r@ == JsonView::Object(seq![(k1@, v1@)]),
{
    let mut e: Vec<(String, JsonValue)> = Vec::new();
    json::push_entry(&mut e, k1, v1);
    proof {
        assert(entries_view(e@) =~= seq![(k1@, v1@)]);
    }
    JsonValue::object(e)
}

fn obj3(k1: &str, v1: JsonValue, k2: &str, v2: JsonValue, k3: &str, v3: JsonValue) -> (r: JsonValue)
    ensures
        r@ == JsonView::Object(seq![(k1@, v1@), (k2@, v2@), (k3@, v3@)]),
{
    let mut e: Vec<(String, JsonValue)> = Vec::new();
    json::push_entry(&mut e, k1, v1);
    json::push_entry(&mut e, k2, v2);
    json::push_entry(&mut e, k3, v3);
    proof {
        assert(entries_view(e@) =~= seq![(k1@, v1@), (k2@, v2@), (k3@, v3@)]);
    }
    JsonValue::object(e)
}

/// The `GET /mcp` discovery document.
pub fn mcp_info() -> (r: JsonValue)
    ensures
        r@ == info_json(),
{
    let endpoints = obj3("rpc", JsonValue::str("POST /mcp"), "tools", JsonValue::str("GET /mcp/tools"), "call", JsonValue::str("POST /mcp/call"));
    let methods = vec![text::owned("initialize"), text::owned("tools/list"), text::owned("tools/call"), text::owned("ping")];
    let mj = JsonValue::str_array(&methods);
    proof {
        if let JsonView::Array(x) = mj@ {
            assert(x =~= seq!["initialize"@, "tools/list"@, "tools/call"@, "ping"@].map_values(|s: Seq<char>| JsonView::Str(s)));
        }
    }
    let mut e: Vec<(String, JsonValue)> = Vec::new();
    json::push_entry(&mut e, "service", JsonValue::str("lan-iot-hub-mcp"));
    json::push_entry(&mut e, "transport", JsonValue::str("json-rpc-http"));
    json::push_entry(&mut e, "endpoints", endpoints);
    json::push_entry(&mut e, "methods", mj);
    json::push_entry(&mut e, "tools", JsonValue::array(tool_catalog()));
    json::push_entry(&mut e, "note", JsonValue::str("Full MCP streamable-HTTP not required; Agent may POST tools/call or /mcp/call"));
    proof {
        assert(entries_view(e@) =~= match info_json() { JsonView::Object(x) => x, _ => Seq::empty() });
    }
    JsonValue::object(e)
}

fn initialize_result() -> (r: JsonValue)
    ensures
        r@ == initialize_json(),
{
    let info = obj2("name", JsonValue::str("lan-iot-hub"), "version", JsonValue::str("0.1.0"));
    let caps = obj1("tools", empty_object());
    let mut e: Vec<(String, JsonValue)> = Vec::new();
    json::push_entry(&mut e, "protocolVersion", JsonValue::str("2024-11-05"));
    json::push_entry(&mut e, "serverInfo", info);
    json::push_entry(&mut e, "capabilities", caps);
    json::push_entry(&mut e, "instructions", JsonValue::str("Call tools via tools/call or shorthand method=tool name"));
    proof {
        assert(entries_view(e@) =~= match initialize_json() { JsonView::Object(x) => x, _ => Seq::empty() });
    }
    JsonValue::object(e)
}

/// The version check: a non-empty version other than `2.0` is refused (-32600).
pub fn check_version(jsonrpc: &str) -> (r: Option<JsonRpcError>)
    ensures
        jsonrpc@.len() == 0 || jsonrpc@ == "2.0"@ ==> r is None,
        !(jsonrpc@.len() == 0 || jsonrpc@ == "2.0"@) ==> (r matches Some(e)
            && e@ == rpc_error_spec(-32600i32, "unsupported jsonrpc version: "@ + jsonrpc@)),
{
    if text::is_empty(jsonrpc) || text::eq(jsonrpc, "2.0") {
        None
    } else {
        let m = text::concat("unsupported jsonrpc version: ", jsonrpc);
        Some(JsonRpcError { code: -32600, message: m, data: None })
    }
}

/// How a method is handled.
pub enum RpcPlan {
    /// Answer right away.
    Reply(Result<JsonValue, JsonRpcError>),
    /// Call a tool; wrap the data with [`tools_call_result`] when it came
    /// through `tools/call`, else with [`shorthand_result`].
    CallTool { name: String, arguments: JsonValue, via_tools_call: bool },
}

pub enum RpcPlanView {
    Reply(Result<JsonView, RpcErrorView>),
    CallTool { name: Seq<char>, arguments: JsonView, via_tools_call: bool },
}

impl View for RpcPlan {
    type V = RpcPlanView;

    open spec fn view(&self) -> RpcPlanView {
        match self {
            RpcPlan::Reply(r) => RpcPlanView::Reply(match r {
                Ok(j) => Ok(j@),
                Err(e) => Err(e@),
            }),
            RpcPlan::CallTool { name, arguments, via_tools_call } => RpcPlanView::CallTool {
                name: name@,
                arguments: arguments@,
                via_tools_call: *via_tools_call,
            },
        }
    }
}

/// Arguments of a shorthand call: an object's `arguments` entry when it has
/// one, else the object itself; a non-object as given.
pub open spec fn shorthand_args(params: JsonView) -> JsonView {
    match params {
        JsonView::Object(e) => match lookup(e, "arguments"@) {
            Some(a) => a,
            None => params,
        },
        _ => params,
    }
}

/// The plan for a method.
pub open spec fn plan_spec(method: Seq<char>, params: JsonView) -> RpcPlanView {
    if method == "initialize"@ {
        RpcPlanView::Reply(Ok(initialize_json()))
    } else if method == "ping"@ {
        RpcPlanView::Reply(Ok(ok_json()))
    } else if method == "tools/list"@ {
        RpcPlanView::Reply(Ok(JsonView::Object(seq![("tools"@, JsonView::Array(tool_catalog_spec()))])))
    } else if method == "tools/call"@ {
        match json::as_str(json::get(params, "name"@)) {
            None => RpcPlanView::Reply(Err(rpc_error_spec(-32602i32, "params.name required"@))),
            Some(n) => RpcPlanView::CallTool {
                name: n,
                arguments: match json::get(params, "arguments"@) {
                    Some(a) => a,
                    None => JsonView::Object(Seq::empty()),
                },
                via_tools_call: true,
            },
        }
    } else if text::has_sub(method, "."@) {
        RpcPlanView::CallTool { name: method, arguments: shorthand_args(params), via_tools_call: false }
    } else {
        RpcPlanView::Reply(Err(rpc_error_spec(-32601i32, "method not found: "@ + method)))
    }
}

/// Decides how a JSON-RPC method is handled.
pub fn dispatch_rpc(method: &str, params: JsonValue) -> (r: RpcPlan)
    ensures
        r@ == plan_spec(method@, params@),
{
    if text::eq(method, "initialize") {
        RpcPlan::Reply(Ok(initialize_result()))
    } else if text::eq(method, "ping") {
        RpcPlan::Reply(Ok(obj1("ok", JsonValue::Bool(true))))
    } else if text::eq(method, "tools/list") {
        RpcPlan::Reply(Ok(tools_body()))
    } else if text::eq(method, "tools/call") {
        let name = match params.get("name") {
            Some(v) => match v.as_str() {
                Some(n) => text::owned(n),
                None => {
                    return RpcPlan::Reply(Err(rpc_err(-32602, "params.name required")));
                },
            },
            None => {
                return RpcPlan::Reply(Err(rpc_err(-32602, "params.name required")));
            },
        };
        let arguments = match params.get("arguments") {
            Some(a) => a.deep_clone(),
            None => empty_object(),
        };
        RpcPlan::CallTool { name, arguments, via_tools_call: true }
    } else if text::contains(method, ".") {
        let arguments = match &params {
            JsonValue::Object(e) => {
                proof {
                    json::lemma_object_view(*e);
                }
                match json::entries_get(e, "arguments") {
                    Some(a) => a.deep_clone(),
                    None => params.deep_clone(),
                }
            },
            _ => params.deep_clone(),
        };
        RpcPlan::CallTool { name: text::owned(method), arguments, via_tools_call: false }
    } else {
        RpcPlan::Reply(Err(JsonRpcError { code: -32601, message: text::concat("method not found: ", method), data: None }))
    }
}

/// `tools/call` result: `{"ok": true, "tool", "data", "content": [{"type": "text", "text": <data as JSON text>}]}`.
pub fn tools_call_result(name: &str, data: JsonValue, data_text: &str) -> (r: JsonValue)
    ensures
        r@ == JsonView::Object(seq![
            ("ok"@, JsonView::Bool(true)),
            ("tool"@, jstr(name@)),
            ("data"@, data@),
            ("content"@, JsonView::Array(seq![JsonView::Object(seq![("type"@, jstr("text"@)), ("text"@, jstr(data_text@))])])),
        ]),
{
    let block = obj2("type", JsonValue::str("text"), "text", JsonValue::str(data_text));
    let ghost bv = block@;
    let content = JsonValue::array(vec![block]);
    proof {
        if let JsonView::Array(x) = content@ {
            assert(x =~= seq![bv]);
        }
    }
    let mut e: Vec<(String, JsonValue)> = Vec::new();
    json::push_entry(&mut e, "ok", JsonValue::Bool(true));
    json::push_entry(&mut e, "tool", JsonValue::str(name));
    let ghost dv = data@;
    json::push_entry(&mut e, "data", data);
    json::push_entry(&mut e, "content", content);
    proof {
        assert(entries_view(e@) =~= seq![
            ("ok"@, JsonView::Bool(true)),
            ("tool"@, jstr(name@)),
            ("data"@, dv),
            ("content"@, JsonView::Array(seq![JsonView::Object(seq![("type"@, jstr("text"@)), ("text"@, jstr(data_text@))])])),
        ]);
    }
    JsonValue::object(e)
}

/// Shorthand-call result: `{"ok": true, "tool", "data"}`.
pub fn shorthand_result(name: &str, data: JsonValue) -> (r: JsonValue)
    ensures
        r@ == JsonView::Object(seq![("ok"@, JsonView::Bool(true)), ("tool"@, jstr(name@)), ("data"@, data@)]),
{
    obj3("ok", JsonValue::Bool(true), "tool", JsonValue::str(name), "data", data)
}

/// The JSON-RPC response for an outcome (HTTP 200 either way).
pub fn rpc_response(id: Option<JsonValue>, outcome: Result<JsonValue, JsonRpcError>) -> (r: JsonRpcResponse)
    ensures
        r.jsonrpc@ == "2.0"@,
        (match r.id { Some(i) => Some(i@), None => None }) == (match id { Some(i) => Some(i@), None => None }),
        match outcome {
            Ok(v) => (r.result matches Some(x) && x@ == v@) && r.error is None,
            Err(e) => r.result is None && (r.error matches Some(x) && x@ == e@),
        },
{
    match outcome {
        Ok(v) => JsonRpcResponse { jsonrpc: text::owned("2.0"), id, result: Some(v), error: None },
        Err(e) => JsonRpcResponse { jsonrpc: text::owned("2.0"), id, result: None, error: Some(e) },
    }
}

/// Failed `POST /mcp/call` body.
pub open spec fn call_error_json(name: Seq<char>, e: RpcErrorView) -> JsonView {
    JsonView::Object(seq![
        ("ok"@, JsonView::Bool(false)),
        ("tool"@, jstr(name)),
        ("error"@, jstr(e.message)),
        ("data"@, data_or_null(e.data)),
    ])
}

pub open spec fn data_or_null(d: Option<JsonView>) -> JsonView {
    match d {
        Some(x) => x,
        None => JsonView::Null,
    }
}

/// `POST /mcp/call` answer: 200 `{"ok": true, "tool", "data"}`, or 400
/// `{"ok": false, "tool", "error": <message>, "data": <error data or null>}`.
pub fn call_http_response(name: &str, outcome: Result<JsonValue, JsonRpcError>) -> (r: (u16, JsonValue))
    ensures
        match outcome {
            Ok(v) => r.0 == 200 && r.1@ == JsonView::Object(seq![("ok"@, JsonView::Bool(true)), ("tool"@, jstr(name@)), ("data"@, v@)]),
            Err(e) => r.0 == 400 && r.1@ == call_error_json(name@, e@),
        },
{
    match outcome {
        Ok(v) => {
            let ghost vv = v@;
            let body = obj3("ok", JsonValue::Bool(true), "tool", JsonValue::str(name), "data", v);
            proof {
                assert(body@ == JsonView::Object(seq![("ok"@, JsonView::Bool(true)), ("tool"@, jstr(name@)), ("data"@, vv)]));
            }
            (200, body)
        },
        Err(e) => {
            let data = match e.data {
                Some(d) => d,
                None => JsonValue::Null,
            };
            let ghost dv = data@;
            let mut m: Vec<(String, JsonValue)> = Vec::new();
            json::push_entry(&mut m, "ok", JsonValue::Bool(false));
            json::push_entry(&mut m, "tool", JsonValue::str(name));
            json::push_entry(&mut m, "error", JsonValue::str(e.message.as_str()));
            json::push_entry(&mut m, "data", data);
            proof {
                assert(entries_view(m@) =~= seq![
                    ("ok"@, JsonView::Bool(false)),
                    ("tool"@, jstr(name@)),
                    ("error"@, jstr(e@.message)),
                    ("data"@, dv),
                ]);
            }
            (400, JsonValue::object(m))
        },
    }
}

// ---------------------------------------------------------------------------
// Tools
// ---------------------------------------------------------------------------

/// The tools.
#[derive(Clone, Copy, PartialEq, Eq, Structural)]
pub enum Tool {
    DevicesList,
    DevicesGetState,
    DevicesDescribe,
    DevicesControl,
    ClimateSet,
    LightsControl,
    ScenesRun,
    CompanionCommand,
}

pub open spec fn tool_of(name: Seq<char>) -> Option<Tool> {
    if name == "devices.list"@ {
        Some(Tool::DevicesList)
    } else if name == "devices.get_state"@ {
        Some(Tool::DevicesGetState)
    } else if name == "devices.describe"@ {
        Some(Tool::DevicesDescribe)
    } else if name == "devices.control"@ {
        Some(Tool::DevicesControl)
    } else if name == "climate.set"@ {
        Some(Tool::ClimateSet)
    } else if name == "lights.control"@ {
        Some(Tool::LightsControl)
    } else if name == "scenes.run"@ {
        Some(Tool::ScenesRun)
    } else if name == "companion.command"@ {
        Some(Tool::CompanionCommand)
    } else {
        None
    }
}

/// The tool a name denotes; an unknown name is refused (-32601).
pub fn parse_tool(name: &str) -> (r: Result<Tool, JsonRpcError>)
    ensures
        match tool_of(name@) {
            Some(t) => r == Ok::<Tool, JsonRpcError>(t),
            None => r matches Err(e) && e@ == rpc_error_spec(-32601i32, "unknown tool: "@ + name@),
        },
{
    if text::eq(name, "devices.list") {
        Ok(Tool::DevicesList)
    } else if text::eq(name, "devices.get_state") {
        Ok(Tool::DevicesGetState)
    } else if text::eq(name, "devices.describe") {
        Ok(Tool::DevicesDescribe)
    } else if text::eq(name, "devices.control") {
        Ok(Tool::DevicesControl)
    } else if text::eq(name, "climate.set") {
        Ok(Tool::ClimateSet)
    } else if text::eq(name, "lights.control") {
        Ok(Tool::LightsControl)
    } else if text::eq(name, "scenes.run") {
        Ok(Tool::ScenesRun)
    } else if text::eq(name, "companion.command") {
        Ok(Tool::CompanionCommand)
    } else {
        Err(JsonRpcError { code: -32601, message: text::concat("unknown tool: ", name), data: None })
    }
}

/// A required string argument (its absence or another type is -32602 with `message`).
pub open spec fn str_arg(args: JsonView, key: Seq<char>) -> Option<Seq<char>> {
    json::as_str(json::get(args, key))
}

fn str_arg_exec(args: &JsonValue, key: &str) -> (r: Option<String>)
    ensures
        crate::capability::opt_str_view(r) == str_arg(args@, key@),
{
    match args.get(key) {
        Some(v) => match v.as_str() {
            Some(s) => Some(text::owned(s)),
            None => None,
        },
        None => None,
    }
}

fn required_str(args: &JsonValue, key: &str, message: &str) -> (r: Result<String, JsonRpcError>)
    ensures
        match str_arg(args@, key@) {
            Some(s) => r matches Ok(x) && x@ == s,
            None => r matches Err(e) && e@ == rpc_error_spec(-32602i32, message@),
        },
{
    match str_arg_exec(args, key) {
        Some(s) => Ok(s),
        None => Err(rpc_err(-32602, message)),
    }
}

/// `entity_id` of a tool call (-32602 `entity_id required`).
pub fn entity_id_arg(args: &JsonValue) -> (r: Result<String, JsonRpcError>)
    ensures
        match str_arg(args@, "entity_id"@) {
            Some(s) => r matches Ok(x) && x@ == s,
            None => r matches Err(e) && e@ == rpc_error_spec(-32602i32, "entity_id required"@),
        },
{
    required_str(args, "entity_id", "entity_id required")
}

/// A device control request: entity, action and parameters.
pub struct ControlRequest {
    pub entity_id: String,
    pub action: String,
    pub params: Vec<(String, JsonValue)>,
}

pub struct ControlRequestView {
    pub entity_id: Seq<char>,
    pub action: Seq<char>,
    pub params: Seq<(Seq<char>, JsonView)>,
}

impl View for ControlRequest {
    type V = ControlRequestView;

    open spec fn view(&self) -> ControlRequestView {
        ControlRequestView { entity_id: self.entity_id@, action: self.action@, params: entries_view(self.params@) }
    }
}

/// `devices.control`: `entity_id` and `action` required; `params` an object (else none).
pub fn control_args(args: &JsonValue) -> (r: Result<ControlRequest, JsonRpcError>)
    ensures
        match (str_arg(args@, "entity_id"@), str_arg(args@, "action"@)) {
            (None, _) => r matches Err(e) && e@ == rpc_error_spec(-32602i32, "entity_id required"@),
            (Some(_), None) => r matches Err(e) && e@ == rpc_error_spec(-32602i32, "action required"@),
            (Some(id), Some(a)) => r matches Ok(c) && c@ == (ControlRequestView {
                entity_id: id,
                action: a,
                params: match json::get(args@, "params"@) { Some(p) => params_of(p), None => Seq::empty() },
            }),
        },
{
    let entity_id = entity_id_arg(args)?;
    let action = required_str(args, "action", "action required")?;
    let params = match args.get("params") {
        Some(p) => value_to_params(p.deep_clone()),
        None => value_to_params(empty_object()),
    };
    Ok(ControlRequest { entity_id, action, params })
}

/// `climate.set`: `entity_id` and `temperature` (any value) required; `mode` optional.
pub fn climate_args(args: &JsonValue) -> (r: Result<(String, JsonValue, Option<JsonValue>), JsonRpcError>)
    ensures
        match (str_arg(args@, "entity_id"@), json::get(args@, "temperature"@)) {
            (None, _) => r matches Err(e) && e@ == rpc_error_spec(-32602i32, "entity_id required"@),
            (Some(_), None) => r matches Err(e) && e@ == rpc_error_spec(-32602i32, "temperature required"@),
            (Some(id), Some(t)) => r matches Ok(x) && x.0@ == id && x.1@ == t
                && (match x.2 { Some(m) => Some(m@), None => None }) == json::get(args@, "mode"@),
        },
{
    let entity_id = entity_id_arg(args)?;
    let temperature = match args.get("temperature") {
        Some(t) => t.deep_clone(),
        None => {
            return Err(rpc_err(-32602, "temperature required"));
        },
    };
    let mode = match args.get("mode") {
        Some(m) => Some(m.deep_clone()),
        None => None,
    };
    Ok((entity_id, temperature, mode))
}

/// One-parameter control parameters.
pub fn single_param(key: &str, v: JsonValue) -> (r: Vec<(String, JsonValue)>)
    ensures
        entries_view(r@) == seq![(key@, v@)],
{
    let mut e: Vec<(String, JsonValue)> = Vec::new();
    json::push_entry(&mut e, key, v);
    proof {
        assert(entries_view(e@) =~= seq![(key@, v@)]);
    }
    e
}

/// `climate.set` result: the temperature result with the mode result under
/// `hvac_mode_result` (when the temperature result is an object).
pub fn climate_merge(result: JsonValue, mode_result: JsonValue) -> (r: JsonValue)
    ensures
        r@ == match result@ {
            JsonView::Object(e) => JsonView::Object(json::put(e, "hvac_mode_result"@, mode_result@)),
            other => other,
        },
{
    match result {
        JsonValue::Object(mut e) => {
            proof {
                json::lemma_object_view(e);
            }
            json::put_entry(&mut e, "hvac_mode_result", mode_result);
            JsonValue::object(e)
        },
        other => other,
    }
}

/// `lights.control`: `entity_id` and boolean `on` required. With a
/// `brightness`, on → `set_brightness`, off → `turn_off` (both carrying it);
/// without, `turn_on` / `turn_off` with no parameters.
pub fn lights_args(args: &JsonValue) -> (r: Result<ControlRequest, JsonRpcError>)
    ensures
        match (str_arg(args@, "entity_id"@), json::as_bool(json::get(args@, "on"@))) {
            (None, _) => r matches Err(e) && e@ == rpc_error_spec(-32602i32, "entity_id required"@),
            (Some(_), None) => r matches Err(e) && e@ == rpc_error_spec(-32602i32, "on (boolean) required"@),
            (Some(id), Some(on)) => r matches Ok(c) && c@ == (ControlRequestView {
                entity_id: id,
                action: if on && json::get(args@, "brightness"@) is Some { "set_brightness"@ } else if on { "turn_on"@ } else { "turn_off"@ },
                params: match json::get(args@, "brightness"@) { Some(b) => seq![("brightness"@, b)], None => Seq::empty() },
            }),
        },
{
    let entity_id = entity_id_arg(args)?;
    let on = match args.get("on") {
        Some(v) => match v.as_bool() {
            Some(b) => b,
            None => {
                return Err(rpc_err(-32602, "on (boolean) required"));
            },
        },
        None => {
            return Err(rpc_err(-32602, "on (boolean) required"));
        },
    };
    match args.get("brightness") {
        Some(b) => {
            let params = single_param("brightness", b.deep_clone());
            let action = if on { text::owned("set_brightness") } else { text::owned("turn_off") };
            Ok(ControlRequest { entity_id, action, params })
        },
        None => {
            let params: Vec<(String, JsonValue)> = Vec::new();
            proof {
                assert(entries_view(params@) =~= Seq::<(Seq<char>, JsonView)>::empty());
            }
            let action = if on { text::owned("turn_on") } else { text::owned("turn_off") };
            Ok(ControlRequest { entity_id, action, params })
        },
    }
}

/// `scenes.run`: `scene_id`, or `id`, as a string (-32602 `scene_id required`).
pub fn scene_id_arg(args: &JsonValue) -> (r: Result<String, JsonRpcError>)
    ensures
        match str_arg(args@, "scene_id"@) {
            Some(s) => r matches Ok(x) && x@ == s,
            None => match str_arg(args@, "id"@) {
                Some(s) => r matches Ok(x) && x@ == s,
                None => r matches Err(e) && e@ == rpc_error_spec(-32602i32, "scene_id required"@),
            },
        },
{
    match str_arg_exec(args, "scene_id") {
        Some(s) => Ok(s),
        None => required_str(args, "id", "scene_id required"),
    }
}

/// JSON-RPC error for a failed scene run.
pub fn scene_error_rpc(e: crate::scene::SceneError) -> (r: JsonRpcError)
    ensures
        match e@ {
            crate::scene::SceneErrorView::NotFound(id) => r@ == rpc_error_spec(-32004i32, "scene not found: "@ + id),
            crate::scene::SceneErrorView::Unavailable => r@ == rpc_error_spec(-32003i32, "scene store unavailable (MongoDB)"@),
            crate::scene::SceneErrorView::Invalid(m) => r@ == rpc_error_spec(-32602i32, "invalid scene: "@ + m),
        },
{
    match e {
        crate::scene::SceneError::NotFound(id) => JsonRpcError { code: -32004, message: text::concat("scene not found: ", id.as_str()), data: None },
        crate::scene::SceneError::Unavailable => rpc_err(-32003, "scene store unavailable (MongoDB)"),
        crate::scene::SceneError::Invalid(m) => JsonRpcError { code: -32602, message: text::concat("invalid scene: ", m.as_str()), data: None },
    }
}

/// `companion.command`: `device_id` (or `id`) and `command` as strings.
pub fn companion_args(args: &JsonValue) -> (r: Result<(String, String), JsonRpcError>)
    ensures
        match (match str_arg(args@, "device_id"@) { Some(s) => Some(s), None => str_arg(args@, "id"@) }) {
            None => r matches Err(e) && e@ == rpc_error_spec(-32602i32, "device_id required"@),
            Some(d) => match str_arg(args@, "command"@) {
                None => r matches Err(e) && e@ == rpc_error_spec(-32602i32, "command required"@),
                Some(c) => r matches Ok(x) && x.0@ == d && x.1@ == c,
            },
        },
{
    let device_id = match str_arg_exec(args, "device_id") {
        Some(s) => s,
        None => required_str(args, "id", "device_id required")?,
    };
    let command = required_str(args, "command", "command required")?;
    Ok((device_id, command))
}

/// A structured failure for a Companion that could not act.
pub open spec fn companion_failure(device_id: Seq<char>, command: Seq<char>, available: bool, error: Seq<char>) -> JsonView {
    JsonView::Object(seq![
        ("ok"@, JsonView::Bool(false)),
        ("device_id"@, jstr(device_id)),
        ("command"@, jstr(command)),
        ("companion_available"@, JsonView::Bool(available)),
        ("error"@, jstr(error)),
    ])
}

fn companion_failure_exec(device_id: &str, command: &str, available: bool, error: String) -> (r: JsonValue)
    ensures
        r@ == companion_failure(device_id@, command@, available, error@),
{
    let mut e: Vec<(String, JsonValue)> = Vec::new();
    json::push_entry(&mut e, "ok", JsonValue::Bool(false));
    json::push_entry(&mut e, "device_id", JsonValue::str(device_id));
    json::push_entry(&mut e, "command", JsonValue::str(command));
    json::push_entry(&mut e, "companion_available", JsonValue::Bool(available));
    json::push_entry(&mut e, "error", JsonValue::str(error.as_str()));
    proof {
        assert(entries_view(e@) =~= seq![
            ("ok"@, JsonView::Bool(false)),
            ("device_id"@, jstr(device_id@)),
            ("command"@, jstr(command@)),
            ("companion_available"@, JsonView::Bool(available)),
            ("error"@, jstr(error@)),
        ]);
    }
    JsonValue::object(e)
}

/// Tool result of a Companion command: the command result; an offline or
/// failing Companion gives a structured `ok: false` result (not an error);
/// unknown device, invalid device and store failures are errors.
pub fn companion_outcome(
    device_id: &str,
    command: &str,
    r: Result<crate::companion::CommandResult, crate::companion::CompanionError>,
) -> (out: Result<JsonValue, JsonRpcError>)
    ensures
        match r {
            Ok(c) => out matches Ok(j) && j@ == crate::companion::command_result_json(c@),
            Err(e) => match e@ {
                crate::companion::CompanionErrorView::NotFound(id) => out matches Err(x) && x@ == rpc_error_spec(-32004i32, "companion not found: "@ + id),
                crate::companion::CompanionErrorView::Unreachable(m) => out matches Ok(j)
                    && j@ == companion_failure(device_id@, command@, false, "companion unreachable: "@ + m),
                crate::companion::CompanionErrorView::Api { status, body } => out matches Ok(j)
                    && j@ == companion_failure(device_id@, command@, true, "companion API "@ + text::dec(status as nat) + ": "@ + body),
                crate::companion::CompanionErrorView::Invalid(m) => out matches Err(x) && x@ == rpc_error_spec(-32602i32, "invalid companion: "@ + m),
                crate::companion::CompanionErrorView::Unavailable => out matches Err(x)
                    && x@ == rpc_error_spec(-32003i32, "companion store unavailable (MongoDB)"@),
            },
        },
{
    match r {
        Ok(c) => Ok(c.to_json()),
        Err(crate::companion::CompanionError::NotFound(id)) => Err(JsonRpcError {
            code: -32004,
            message: text::concat("companion not found: ", id.as_str()),
            data: None,
        }),
        Err(crate::companion::CompanionError::Unreachable(m)) => Ok(companion_failure_exec(
            device_id,
            command,
            false,
            text::concat("companion unreachable: ", m.as_str()),
        )),
        Err(crate::companion::CompanionError::Api { status, body }) => {
            let n = text::u64_to_string(status as u64);
            let mut msg = text::concat3("companion API ", n.as_str(), ": ");
            text::push_str(&mut msg, body.as_str());
            Ok(companion_failure_exec(device_id, command, true, msg))
        },
        Err(crate::companion::CompanionError::Invalid(m)) => Err(JsonRpcError {
            code: -32602,
            message: text::concat("invalid companion: ", m.as_str()),
            data: None,
        }),
        Err(crate::companion::CompanionError::Unavailable) => Err(rpc_err(-32003, "companion store unavailable (MongoDB)")),
    }
}

// ---------------------------------------------------------------------------
// Device tools
// ---------------------------------------------------------------------------

/// The `type` filter: a known type word selects that type; any other word
/// selects ids whose domain equals it ASCII case-insensitively.
pub open spec fn type_keep(t: Option<Seq<char>>, d: EntityView) -> bool {
    match t {
        None => true,
        Some(w) => match parse_type_spec(w) {
            Some(et) => d.entity_type == et,
            None => match text::first_index(d.entity_id, '.') {
                Some(i) => text::eq_ignore_case(d.entity_id.take(i), w),
                None => false,
            },
        },
    }
}

/// The `room` filter: the lower-cased room is a substring of the lower-cased name.
pub open spec fn room_keep(room: Option<Seq<char>>, d: EntityView) -> bool {
    match room {
        None => true,
        Some(r) => text::has_sub(text::spec_to_lowercase(d.friendly_name), text::spec_to_lowercase(r)),
    }
}

pub open spec fn list_keep(args: JsonView, d: EntityView) -> bool {
    type_keep(str_arg(args, "type"@), d) && room_keep(str_arg(args, "room"@), d)
}

fn type_keep_exec(t: &Option<String>, parsed: Option<EntityType>, d: &registry::DeviceEntity) -> (r: bool)
    requires
        match t { Some(w) => parsed == parse_type_spec(w@), None => true },
    ensures
        r == type_keep(crate::capability::opt_str_view(*t), d@),
{
    match t {
        None => true,
        Some(w) => match parsed {
            Some(et) => d.entity_type == et,
            None => match text::split_once(d.entity_id.as_str(), '.') {
                Some((dom, _)) => text::eq_ignore_ascii_case(dom.as_str(), w.as_str()),
                None => false,
            },
        },
    }
}

/// `devices.list` filtering of the registry's devices by the call's `type` and `room`.
pub fn devices_list_filter(devices: Vec<registry::DeviceEntity>, args: &JsonValue) -> (r: Vec<registry::DeviceEntity>)
    ensures
        entities_view(r@) == entities_view(devices@).filter(|d: EntityView| list_keep(args@, d)),
{
    let t = str_arg_exec(args, "type");
    let parsed = match &t {
        Some(w) => parse_entity_type(w.as_str()),
        None => None,
    };
    let room = match str_arg_exec(args, "room") {
        Some(r) => Some(text::to_lowercase(r.as_str())),
        None => None,
    };
    let ghost dv = entities_view(devices@);
    let mut out: Vec<registry::DeviceEntity> = Vec::new();
    let mut devices = devices;
    let n0 = devices.len();
    let ghost n = n0 as nat;
    let mut i: usize = 0;
    while devices.len() > 0
        invariant
            i <= n,
            n == n0,
            devices@.len() == n - i,
            entities_view(devices@) == dv.skip(i as int),
            n == dv.len(),
            match &t { Some(w) => parsed == parse_type_spec(w@), None => true },
            crate::capability::opt_str_view(t) == str_arg(args@, "type"@),
            (match room { Some(r) => Some(r@), None => None }) == (match str_arg(args@, "room"@) {
                Some(x) => Some(text::spec_to_lowercase(x)),
                None => None,
            }),
            entities_view(out@) == dv.take(i as int).filter(|d: EntityView| list_keep(args@, d)),
        decreases devices.len(),
    {
        let ghost before = devices@;
        let d = devices.remove(0);
        proof {
            assert(entities_view(before)[0] == d@);
            assert(dv[i as int] == d@);
            assert(entities_view(devices@) =~= entities_view(before).drop_first());
            assert(dv.skip(i as int).drop_first() =~= dv.skip(i + 1));
            assert(dv.take(i + 1).drop_last() =~= dv.take(i as int));
            assert(dv.take(i + 1).last() == d@);
            reveal(Seq::filter);
        }
        let keep_type = type_keep_exec(&t, parsed, &d);
        let keep_room = match &room {
            None => true,
            Some(r) => {
                let name = text::to_lowercase(d.friendly_name.as_str());
                text::contains(name.as_str(), r.as_str())
            },
        };
        let ghost o = entities_view(out@);
        if keep_type && keep_room {
            out.push(d);
            proof {
                assert(entities_view(out@) =~= o.push(dv[i as int]));
            }
        }
        i = i + 1;
    }
    proof {
        assert(dv.take(n as int) =~= dv);
    }
    out
}

/// `devices.list` result: the devices, whether HA is available, and the count.
pub fn devices_list_result(devices: &Vec<registry::DeviceEntity>, ha_connected: bool, ha_configured: bool) -> (r: JsonValue)
    ensures
        r@ == JsonView::Object(seq![
            ("devices"@, JsonView::Array(entities_view(devices@).map_values(|e: EntityView| crate::encode::entity_json(e)))),
            ("ha_available"@, JsonView::Bool(crate::api::ha_available_spec(ha_connected, devices@.len() == 0, ha_configured))),
            ("count"@, JsonView::Number(NumberView::PosInt(devices@.len() as u64, None))),
        ]),
{
    let ha_available = ha_connected || (devices.len() > 0 && ha_configured);
    obj3(
        "devices",
        crate::api::entities_json(devices),
        "ha_available",
        JsonValue::Bool(ha_available),
        "count",
        JsonValue::uint(devices.len() as u64),
    )
}

/// `devices.list` result after a failed on-demand sync.
pub fn devices_list_sync_failed(error_text: &str) -> (r: JsonValue)
    ensures
        r@ == JsonView::Object(seq![
            ("devices"@, JsonView::Array(Seq::empty())),
            ("ha_available"@, JsonView::Bool(false)),
            ("warning"@, jstr(error_text@)),
        ]),
{
    let v: Vec<JsonValue> = Vec::new();
    proof {
        assert(json::values_view(v@) =~= Seq::<JsonView>::empty());
    }
    obj3("devices", JsonValue::array(v), "ha_available", JsonValue::Bool(false), "warning", JsonValue::str(error_text))
}

/// `devices.describe` result.
pub open spec fn describe_json(e: EntityView, sources: Seq<Seq<char>>) -> JsonView {
    JsonView::Object(seq![
        ("entity_id"@, jstr(e.entity_id)),
        ("friendly_name"@, jstr(e.friendly_name)),
        ("entity_type"@, jstr(crate::encode::type_label(e.entity_type))),
        ("source"@, jstr(e.source)),
        ("brand"@, crate::faker::opt_str_json(e.brand)),
        ("state"@, jstr(e.state)),
        ("available"@, JsonView::Bool(e.available)),
        ("is_faker"@, JsonView::Bool(e.is_faker)),
        ("summary"@, crate::encode::summary_json(e.capabilities)),
        ("capabilities"@, crate::encode::capabilities_json(e.capabilities)),
        ("adapters"@, strs_json(sources)),
    ])
}

/// `devices.describe` result: identity, state, capability summary and the registered backends.
pub fn describe_result(e: &registry::DeviceEntity, sources: &Vec<String>) -> (r: JsonValue)
    ensures
        r@ == describe_json(e@, text::strings_view(sources@)),
{
    let brand = match &e.brand {
        Some(b) => JsonValue::str(b.as_str()),
        None => JsonValue::Null,
    };
    proof {
        assert(brand@ == crate::faker::opt_str_json(e@.brand));
    }
    let adapters = JsonValue::str_array(sources);
    proof {
        if let JsonView::Array(x) = adapters@ {
            assert(x =~= text::strings_view(sources@).map_values(|s: Seq<char>| JsonView::Str(s)));
        }
    }
    let mut m: Vec<(String, JsonValue)> = Vec::new();
    json::push_entry(&mut m, "entity_id", JsonValue::str(e.entity_id.as_str()));
    json::push_entry(&mut m, "friendly_name", JsonValue::str(e.friendly_name.as_str()));
    json::push_entry(&mut m, "entity_type", JsonValue::str(crate::encode::type_str(e.entity_type)));
    json::push_entry(&mut m, "source", JsonValue::str(e.source.as_str()));
    json::push_entry(&mut m, "brand", brand);
    json::push_entry(&mut m, "state", JsonValue::str(e.state.as_str()));
    json::push_entry(&mut m, "available", JsonValue::Bool(e.available));
    json::push_entry(&mut m, "is_faker", JsonValue::Bool(e.is_faker));
    json::push_entry(&mut m, "summary", crate::capability::Capability::summarize(&e.capabilities));
    json::push_entry(&mut m, "capabilities", crate::encode::capabilities_to_json(&e.capabilities));
    json::push_entry(&mut m, "adapters", adapters);
    proof {
        assert(entries_view(m@) =~= match describe_json(e@, text::strings_view(sources@)) { JsonView::Object(x) => x, _ => Seq::empty() });
    }
    JsonValue::object(m)
}

} // verus!
