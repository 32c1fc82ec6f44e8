//! REST answers: the response bodies of the device, scene, Companion, LAN and
//! health endpoints, and how each failure maps to an HTTP status.

use vstd::prelude::*;
use crate::adapter::{AdapterError, AdapterErrorView};
use crate::companion::{CompanionDevice, CompanionError, CompanionErrorView, CompanionView, companion_json, companions_view};
use crate::encode::{entity_json, push_opt, str_json, strs_json};
use crate::ha::{HaConnectionStatus, ha_status_json};
use crate::json::{self, JsonValue, JsonView, NumberView, entries_view};
use crate::lan::{LanEndpoint, LanView, endpoint_json, endpoints_view};
use crate::registry::{DeviceEntity, EntityView, entities_view};
use crate::router::ControlOutcome;
use crate::scene::{Scene, SceneAction, SceneError, SceneErrorView, SceneView, actions_view, scene_json, scenes_view};
use crate::text;

verus! {

broadcast use vstd::string::group_string_axioms;

/// A sample device-action body: `{"action": "turn_on", "params": {}}`.
pub fn example_action_payload() -> (r: JsonValue)
    ensures
        r@ == JsonView::Object(seq![
            ("action"@, JsonView::Str("turn_on"@)),
            ("params"@, JsonView::Object(seq![])),
        ]),
{
    let mut e: Vec<(String, JsonValue)> = Vec::new();
    json::push_entry(&mut e, "action", JsonValue::str("turn_on"));
    let empty: Vec<(String, JsonValue)> = Vec::new();
    proof {
        assert(entries_view(empty@) =~= seq![]);
    }
    json::push_entry(&mut e, "params", JsonValue::object(empty));
    proof {
        assert(entries_view(e@) =~= seq![("action"@, JsonView::Str("turn_on"@)), ("params"@, JsonView::Object(seq![]))]);
    }
    JsonValue::object(e)
}

// ---------------------------------------------------------------------------
// Error bodies
// ---------------------------------------------------------------------------

/// `{"error": <code>, "detail"?: <text>}`.
pub struct ErrorBody {
    pub error: String,
    pub detail: Option<String>,
}

pub open spec fn error_body_json(error: Seq<char>, detail: Option<Seq<char>>) -> JsonView {
    JsonView::Object(push_opt(seq![("error"@, JsonView::Str(error))], "detail"@, str_json(detail)))
}

impl ErrorBody {
    /// The body as serialized.
    pub fn to_json(&self) -> (r: JsonValue)
        ensures
            r@ == error_body_json(self.error@, crate::capability::opt_str_view(self.detail)),
    {
        let mut e: Vec<(String, JsonValue)> = Vec::new();
        json::push_entry(&mut e, "error", JsonValue::str(self.error.as_str()));
        proof {
            assert(entries_view(e@) =~= seq![("error"@, JsonView::Str(self.error@))]);
        }
        match &self.detail {
            Some(d) => json::push_entry(&mut e, "detail", JsonValue::str(d.as_str())),
            None => {},
        }
        JsonValue::object(e)
    }
}

/// An HTTP error answer.
pub struct HttpError {
    pub status: u16,
    pub body: ErrorBody,
}

pub open spec fn http_error_is(r: HttpError, status: u16, error: Seq<char>, detail: Seq<char>) -> bool {
    r.status == status && r.body.error@ == error && crate::capability::opt_str_view(r.body.detail) == Some(detail)
}

fn http_error(status: u16, error: &str, detail: String) -> (r: HttpError)
    ensures
        http_error_is(r, status, error@, detail@),
{
    HttpError { status, body: ErrorBody { error: text::owned(error), detail: Some(detail) } }
}

/// Status for an adapter API error: 404 stays 404, 401/403 become 401, others 502.
pub open spec fn api_status(status: u16) -> u16 {
    if status == 404 { 404 } else if status == 401 || status == 403 { 401 } else { 502 }
}

/// HTTP answer for an adapter failure.
pub open spec fn adapter_http_spec(e: AdapterErrorView, r: HttpError) -> bool {
    match e {
        AdapterErrorView::NotConfigured(src) => http_error_is(r, 503, "adapter_not_configured"@, src + " not configured"@),
        AdapterErrorView::Unreachable(m) => http_error_is(r, 503, "adapter_unreachable"@, m),
        AdapterErrorView::Api { status, body } => http_error_is(r, api_status(status), "adapter_api_error"@, text::dec(status as nat) + ": "@ + body),
        AdapterErrorView::NotFound(id) => http_error_is(r, 404, "device_not_found"@, "entity_id '"@ + id + "' not found"@),
        AdapterErrorView::Invalid(m) => http_error_is(r, 400, "invalid_action"@, m),
        AdapterErrorView::NoAdapter(m) => http_error_is(r, 503, "no_adapter"@, m),
    }
}

/// HTTP answer for an adapter failure.
pub fn adapter_http_err(err: AdapterError) -> (r: HttpError)
    ensures
        adapter_http_spec(err@, r),
{
    match err {
        AdapterError::NotConfigured(src) => http_error(503, "adapter_not_configured", text::concat(src.as_str(), " not configured")),
        AdapterError::Unreachable(msg) => http_error(503, "adapter_unreachable", msg),
        AdapterError::Api { status, body } => {
            let code: u16 = if status == 404 {
                404
            } else if status == 401 || status == 403 {
                401
            } else {
                502
            };
            let n = text::u64_to_string(status as u64);
            let detail = text::concat3(n.as_str(), ": ", body.as_str());
            http_error(code, "adapter_api_error", detail)
        },
        AdapterError::NotFound(id) => http_error(404, "device_not_found", text::concat3("entity_id '", id.as_str(), "' not found")),
        AdapterError::Invalid(msg) => http_error(400, "invalid_action", msg),
        AdapterError::NoAdapter(msg) => http_error(503, "no_adapter", msg),
    }
}

// ---------------------------------------------------------------------------
// Devices
// ---------------------------------------------------------------------------

/// `GET /api/v1/devices` body.
pub struct DeviceListResponse {
    pub devices: Vec<DeviceEntity>,
    pub ha_available: bool,
    pub warning: Option<String>,
    pub adapters: Vec<String>,
}

/// The registry is refreshed from HA first when it is empty and HA is configured.
pub fn needs_refresh(registry_len: usize, ha_configured: bool) -> (r: bool)
    ensures
        r == (registry_len == 0 && ha_configured),
{
    registry_len == 0 && ha_configured
}

/// HA counts as available when connected, or when it is configured and devices are cached.
pub open spec fn ha_available_spec(connected: bool, devices_empty: bool, ha_configured: bool) -> bool {
    connected || (!devices_empty && ha_configured)
}

/// The listing's warning: HA not configured (noting faker devices when any are
/// listed), or HA unreachable with nothing listed.
pub open spec fn list_warning(devices: Seq<EntityView>, ha_available: bool, ha_configured: bool) -> Option<Seq<char>> {
    if !ha_configured {
        if exists|i: int| 0 <= i < devices.len() && devices[i].is_faker {
            Some("HA not configured — serving in-memory faker brand devices (SEED_FAKER_DEVICES). Swap with real HA entities later."@)
        } else {
            Some("HA not configured — set HA_URL and HA_TOKEN"@)
        }
    } else if !ha_available && devices.len() == 0 {
        Some("Home Assistant unreachable or empty — returning empty device list"@)
    } else {
        None
    }
}

impl DeviceListResponse {
    /// The listing after a failed on-demand sync: nothing listed, HA unavailable, the error as warning.
    pub fn sync_failed(error_text: String, adapters: Vec<String>) -> (r: DeviceListResponse)
        ensures
            r.devices@.len() == 0,
            !r.ha_available,
            crate::capability::opt_str_view(r.warning) == Some(error_text@),
            text::strings_view(r.adapters@) == text::strings_view(adapters@),
    {
        DeviceListResponse { devices: Vec::new(), ha_available: false, warning: Some(error_text), adapters }
    }

    /// The listing of the registry's devices.
    pub fn listing(devices: Vec<DeviceEntity>, ha_connected: bool, ha_configured: bool, adapters: Vec<String>) -> (r: DeviceListResponse)
        ensures
            entities_view(r.devices@) == entities_view(devices@),
            r.ha_available == ha_available_spec(ha_connected, devices@.len() == 0, ha_configured),
            crate::capability::opt_str_view(r.warning) == list_warning(entities_view(devices@), r.ha_available, ha_configured),
            text::strings_view(r.adapters@) == text::strings_view(adapters@),
    {
        let ha_available = ha_connected || (devices.len() > 0 && ha_configured);
        let warning = if !ha_configured {
            let mut any = false;
            let mut i: usize = 0;
            while i < devices.len()
                invariant
                    i <= devices@.len(),
                    any == exists|j: int| 0 <= j < i && devices@[j].is_faker,
                decreases devices.len() - i,
            {
                if devices[i].is_faker {
                    any = true;
                }
                i = i + 1;
            }
            proof {
                assert(any == exists|j: int| 0 <= j < entities_view(devices@).len() && entities_view(devices@)[j].is_faker) by {
                    if any {
                        let j = choose|j: int| 0 <= j < devices@.len() && devices@[j].is_faker;
                        assert(entities_view(devices@)[j].is_faker);
                    }
                    if exists|j: int| 0 <= j < entities_view(devices@).len() && entities_view(devices@)[j].is_faker {
                        let j = choose|j: int| 0 <= j < entities_view(devices@).len() && entities_view(devices@)[j].is_faker;
                        assert(devices@[j].is_faker);
                    }
                }
            }
            if any {
                Some(text::owned(
                    "HA not configured — serving in-memory faker brand devices (SEED_FAKER_DEVICES). Swap with real HA entities later.",
                ))
            } else {
                Some(text::owned("HA not configured — set HA_URL and HA_TOKEN"))
            }
        } else if !ha_available && devices.len() == 0 {
            Some(text::owned("Home Assistant unreachable or empty — returning empty device list"))
        } else {
            None
        };
        DeviceListResponse { devices, ha_available, warning, adapters }
    }

    /// The body as serialized (`warning` when present, `adapters` when non-empty).
    pub fn to_json(&self) -> (r: JsonValue)
        ensures
            r@ == JsonView::Object(push_opt(
                push_opt(
                    seq![
                        ("devices"@, JsonView::Array(entities_view(self.devices@).map_values(|e: EntityView| entity_json(e)))),
                        ("ha_available"@, JsonView::Bool(self.ha_available)),
                    ],
                    "warning"@,
                    str_json(crate::capability::opt_str_view(self.warning)),
                ),
                "adapters"@,
                if self.adapters@.len() == 0 { None } else { Some(strs_json(text::strings_view(self.adapters@))) },
            )),
    {
        let devices = entities_json(&self.devices);
        let mut e: Vec<(String, JsonValue)> = Vec::new();
        json::push_entry(&mut e, "devices", devices);
        json::push_entry(&mut e, "ha_available", JsonValue::Bool(self.ha_available));
        proof {
            assert(entries_view(e@) =~= seq![
                ("devices"@, JsonView::Array(entities_view(self.devices@).map_values(|e: EntityView| entity_json(e)))),
                ("ha_available"@, JsonView::Bool(self.ha_available)),
            ]);
        }
        match &self.warning {
            Some(w) => json::push_entry(&mut e, "warning", JsonValue::str(w.as_str())),
            None => {},
        }
        if self.adapters.len() > 0 {
            let a = JsonValue::str_array(&self.adapters);
            proof {
                if let JsonView::Array(x) = a@ {
                    assert(x =~= text::strings_view(self.adapters@).map_values(|s: Seq<char>| JsonView::Str(s)));
                }
            }
            json::push_entry(&mut e, "adapters", a);
        }
        JsonValue::object(e)
    }
}

/// Serialized list of entities.
pub fn entities_json(v: &Vec<DeviceEntity>) -> (r: JsonValue)
    ensures
        r@ == JsonView::Array(entities_view(v@).map_values(|e: EntityView| entity_json(e))),
{
    let mut out: Vec<JsonValue> = Vec::new();
    let mut i: usize = 0;
    while i < v.len()
        invariant
            i <= v@.len(),
            out@.len() == i,
            forall|k: int| 0 <= k < i ==> json::json_view(#[trigger] out@[k]) == entity_json(v@[k]@),
        decreases v.len() - i,
    {
        out.push(v[i].to_json());
        i = i + 1;
    }
    proof {
        assert(json::values_view(out@) =~= entities_view(v@).map_values(|e: EntityView| entity_json(e)));
    }
    JsonValue::array(out)
}

/// `POST /api/v1/devices/{id}/actions` request body (`params` defaults to none).
pub struct ActionRequest {
    pub action: String,
    pub params: Vec<(String, JsonValue)>,
}

/// `POST /api/v1/devices/{id}/actions` answer body.
pub struct ActionResponse {
    pub ok: bool,
    pub entity_id: String,
    pub action: String,
    pub source: Option<String>,
    pub result: Option<JsonValue>,
}

impl ActionResponse {
    /// The answer for a routed control.
    pub fn from_outcome(o: ControlOutcome) -> (r: ActionResponse)
        ensures
            r.ok == o.ok,
            r.entity_id@ == o.entity_id@,
            r.action@ == o.action@,
            crate::capability::opt_str_view(r.source) == Some(o.source@),
            r.result matches Some(x) && x@ == o.result@,
    {
        ActionResponse { ok: o.ok, entity_id: o.entity_id, action: o.action, source: Some(o.source), result: Some(o.result) }
    }

    /// The body as serialized (`source` / `result` when present).
    pub fn to_json(&self) -> (r: JsonValue)
        ensures
            r@ == JsonView::Object(push_opt(
                push_opt(
                    seq![
                        ("ok"@, JsonView::Bool(self.ok)),
                        ("entity_id"@, JsonView::Str(self.entity_id@)),
                        ("action"@, JsonView::Str(self.action@)),
                    ],
                    "source"@,
                    str_json(crate::capability::opt_str_view(self.source)),
                ),
                "result"@,
                match self.result { Some(x) => Some(x@), None => None },
            )),
    {
        let mut e: Vec<(String, JsonValue)> = Vec::new();
        json::push_entry(&mut e, "ok", JsonValue::Bool(self.ok));
        json::push_entry(&mut e, "entity_id", JsonValue::str(self.entity_id.as_str()));
        json::push_entry(&mut e, "action", JsonValue::str(self.action.as_str()));
        proof {
            assert(entries_view(e@) =~= seq![
                ("ok"@, JsonView::Bool(self.ok)),
                ("entity_id"@, JsonView::Str(self.entity_id@)),
                ("action"@, JsonView::Str(self.action@)),
            ]);
        }
        match &self.source {
            Some(s) => json::push_entry(&mut e, "source", JsonValue::str(s.as_str())),
            None => {},
        }
        match &self.result {
            Some(x) => json::push_entry(&mut e, "result", x.deep_clone()),
            None => {},
        }
        JsonValue::object(e)
    }
}

// ---------------------------------------------------------------------------
// Health
// ---------------------------------------------------------------------------

/// The `ha` part of the health body.
pub struct HaHealth {
    pub configured: bool,
    pub connection: HaConnectionStatus,
}

/// The `mongodb` part of the health body.
pub struct MongoHealth {
    pub ok: bool,
    pub database: Option<String>,
}

/// `GET /api/v1/health` body (`status: ok`, `service: hub`).
pub struct HealthResponse {
    pub ha: HaHealth,
    pub mongodb: MongoHealth,
    pub devices_cached: usize,
    pub adapters: Vec<String>,
}

pub open spec fn health_json(
    ha_configured: bool,
    connection: JsonView,
    mongo_ok: bool,
    mongo_db: Option<Seq<char>>,
    devices_cached: usize,
    adapters: Seq<Seq<char>>,
) -> JsonView {
    JsonView::Object(push_opt(
        seq![
            ("status"@, JsonView::Str("ok"@)),
            ("service"@, JsonView::Str("hub"@)),
            ("ha"@, JsonView::Object(seq![("configured"@, JsonView::Bool(ha_configured)), ("connection"@, connection)])),
            ("mongodb"@, JsonView::Object(push_opt(seq![("ok"@, JsonView::Bool(mongo_ok))], "database"@, str_json(mongo_db)))),
            ("devices_cached"@, JsonView::Number(NumberView::PosInt(devices_cached as u64, None))),
        ],
        "adapters"@,
        if adapters.len() == 0 { None } else { Some(strs_json(adapters)) },
    ))
}

impl HealthResponse {
    /// The body as serialized (`status: ok`, `service: hub`; `adapters` when non-empty).
    pub fn to_json(&self) -> (r: JsonValue)
        ensures
            r@ == health_json(
                self.ha.configured,
                ha_status_json(self.ha.connection@),
                self.mongodb.ok,
                crate::capability::opt_str_view(self.mongodb.database),
                self.devices_cached,
                text::strings_view(self.adapters@),
            ),
    {
        let mut ha: Vec<(String, JsonValue)> = Vec::new();
        json::push_entry(&mut ha, "configured", JsonValue::Bool(self.ha.configured));
        json::push_entry(&mut ha, "connection", self.ha.connection.to_json());
        proof {
            assert(entries_view(ha@) =~= seq![("configured"@, JsonView::Bool(self.ha.configured)), ("connection"@, ha_status_json(self.ha.connection@))]);
        }
        let mut mg: Vec<(String, JsonValue)> = Vec::new();
        json::push_entry(&mut mg, "ok", JsonValue::Bool(self.mongodb.ok));
        proof {
            assert(entries_view(mg@) =~= seq![("ok"@, JsonView::Bool(self.mongodb.ok))]);
        }
        match &self.mongodb.database {
            Some(d) => json::push_entry(&mut mg, "database", JsonValue::str(d.as_str())),
            None => {},
        }
        let ghost mgv = entries_view(mg@);
        let mut e: Vec<(String, JsonValue)> = Vec::new();
        json::push_entry(&mut e, "status", JsonValue::str("ok"));
        json::push_entry(&mut e, "service", JsonValue::str("hub"));
        json::push_entry(&mut e, "ha", JsonValue::object(ha));
        json::push_entry(&mut e, "mongodb", JsonValue::object(mg));
        json::push_entry(&mut e, "devices_cached", JsonValue::uint(self.devices_cached as u64));
        proof {
            assert(entries_view(e@) =~= seq![
                ("status"@, JsonView::Str("ok"@)),
                ("service"@, JsonView::Str("hub"@)),
                ("ha"@, JsonView::Object(seq![("configured"@, JsonView::Bool(self.ha.configured)), ("connection"@, ha_status_json(self.ha.connection@))])),
                ("mongodb"@, JsonView::Object(mgv)),
                ("devices_cached"@, JsonView::Number(NumberView::PosInt(self.devices_cached as u64, None))),
            ]);
        }
        if self.adapters.len() > 0 {
            let a = JsonValue::str_array(&self.adapters);
            proof {
                if let JsonView::Array(x) = a@ {
                    assert(x =~= text::strings_view(self.adapters@).map_values(|s: Seq<char>| JsonView::Str(s)));
                }
            }
            json::push_entry(&mut e, "adapters", a);
        }
        JsonValue::object(e)
    }
}

// ---------------------------------------------------------------------------
// Scenes
// ---------------------------------------------------------------------------

/// `POST /api/v1/scenes` body: the scene's fields, its actions under `steps`.
pub struct UpsertSceneRequest {
    pub id: String,
    pub name: String,
    pub description: Option<String>,
    pub steps: Vec<SceneAction>,
}

impl UpsertSceneRequest {
    /// The scene the request describes.
    pub fn into_scene(self) -> (r: Scene)
        ensures
            r@ == (SceneView {
                id: self.id@,
                name: self.name@,
                description: crate::capability::opt_str_view(self.description),
                actions: actions_view(self.steps@),
            }),
    {
        Scene { id: self.id, name: self.name, description: self.description, actions: self.steps }
    }
}

/// `GET /api/v1/scenes` body.
pub struct SceneListResponse {
    pub scenes: Vec<Scene>,
    pub count: usize,
}

impl SceneListResponse {
    /// The listing of these scenes.
    pub fn new(scenes: Vec<Scene>) -> (r: SceneListResponse)
        ensures
            scenes_view(r.scenes@) == scenes_view(scenes@),
            r.count == scenes@.len(),
    {
        let count = scenes.len();
        SceneListResponse { scenes, count }
    }

    /// `{"scenes": [...], "count": n}`.
    pub fn to_json(&self) -> (r: JsonValue)
        ensures
            r@ == JsonView::Object(seq![
                ("scenes"@, JsonView::Array(scenes_view(self.scenes@).map_values(|s: SceneView| scene_json(s)))),
                ("count"@, JsonView::Number(NumberView::PosInt(self.count as u64, None))),
            ]),
    {
        let scenes = &self.scenes;
        let mut out: Vec<JsonValue> = Vec::new();
        let mut i: usize = 0;
        while i < scenes.len()
            invariant
                i <= scenes@.len(),
                out@.len() == i,
                forall|k: int| 0 <= k < i ==> json::json_view(#[trigger] out@[k]) == scene_json(scenes@[k]@),
            decreases scenes.len() - i,
        {
            out.push(scenes[i].to_json());
            i = i + 1;
        }
        proof {
            assert(json::values_view(out@) =~= scenes_view(scenes@).map_values(|s: SceneView| scene_json(s)));
        }
        let mut e: Vec<(String, JsonValue)> = Vec::new();
        json::push_entry(&mut e, "scenes", JsonValue::array(out));
        json::push_entry(&mut e, "count", JsonValue::uint(self.count as u64));
        proof {
            assert(entries_view(e@) =~= seq![
                ("scenes"@, JsonView::Array(scenes_view(scenes@).map_values(|s: SceneView| scene_json(s)))),
                ("count"@, JsonView::Number(NumberView::PosInt(self.count as u64, None))),
            ]);
        }
        JsonValue::object(e)
    }
}

/// HTTP answer for a scene failure: 400 invalid, 503 store down, 404 unknown scene.
pub open spec fn scene_http_spec(e: SceneErrorView, r: HttpError) -> bool {
    match e {
        SceneErrorView::Invalid(m) => http_error_is(r, 400, "invalid_scene"@, m),
        SceneErrorView::Unavailable => http_error_is(r, 503, "scene_store_unavailable"@, "MongoDB scene store unavailable"@),
        SceneErrorView::NotFound(sid) => http_error_is(r, 404, "scene_not_found"@, "scene '"@ + sid + "' not found"@),
    }
}

/// HTTP answer for a scene failure.
pub fn scene_http_err(e: SceneError) -> (r: HttpError)
    ensures
        scene_http_spec(e@, r),
{
    match e {
        SceneError::Invalid(m) => http_error(400, "invalid_scene", m),
        SceneError::Unavailable => http_error(503, "scene_store_unavailable", text::owned("MongoDB scene store unavailable")),
        SceneError::NotFound(sid) => http_error(404, "scene_not_found", text::concat3("scene '", sid.as_str(), "' not found")),
    }
}

// ---------------------------------------------------------------------------
// Companions
// ---------------------------------------------------------------------------

/// Kind of a Companion registered without one.
pub fn default_kind() -> (r: String)
    ensures
        r@ == "pc"@,
{
    text::owned("pc")
}

/// `POST /api/v1/companions` body.
pub struct RegisterRequest {
    pub id: String,
    pub name: String,
    pub base_url: String,
    pub kind: String,
}

impl RegisterRequest {
    /// The device the request describes.
    pub fn into_device(self) -> (r: CompanionDevice)
        ensures
            r@ == (CompanionView { id: self.id@, name: self.name@, base_url: self.base_url@, kind: self.kind@ }),
    {
        CompanionDevice { id: self.id, name: self.name, base_url: self.base_url, kind: self.kind }
    }
}

/// `POST /api/v1/companions/{id}/command` body.
pub struct CommandRequest {
    pub command: String,
}

/// `GET /api/v1/companions` body.
pub struct CompanionListResponse {
    pub companions: Vec<CompanionDevice>,
    pub count: usize,
}

impl CompanionListResponse {
    /// The listing of these devices.
    pub fn new(companions: Vec<CompanionDevice>) -> (r: CompanionListResponse)
        ensures
            companions_view(r.companions@) == companions_view(companions@),
            r.count == companions@.len(),
    {
        let count = companions.len();
        CompanionListResponse { companions, count }
    }

    /// `{"companions": [...], "count": n}`.
    pub fn to_json(&self) -> (r: JsonValue)
        ensures
            r@ == JsonView::Object(seq![
                ("companions"@, JsonView::Array(companions_view(self.companions@).map_values(|d: CompanionView| companion_json(d)))),
                ("count"@, JsonView::Number(NumberView::PosInt(self.count as u64, None))),
            ]),
    {
        let devices = &self.companions;
        let mut out: Vec<JsonValue> = Vec::new();
        let mut i: usize = 0;
        while i < devices.len()
            invariant
                i <= devices@.len(),
                out@.len() == i,
                forall|k: int| 0 <= k < i ==> json::json_view(#[trigger] out@[k]) == companion_json(devices@[k]@),
            decreases devices.len() - i,
        {
            out.push(devices[i].to_json());
            i = i + 1;
        }
        proof {
            assert(json::values_view(out@) =~= companions_view(devices@).map_values(|d: CompanionView| companion_json(d)));
        }
        let mut e: Vec<(String, JsonValue)> = Vec::new();
        json::push_entry(&mut e, "companions", JsonValue::array(out));
        json::push_entry(&mut e, "count", JsonValue::uint(self.count as u64));
        proof {
            assert(entries_view(e@) =~= seq![
                ("companions"@, JsonView::Array(companions_view(devices@).map_values(|d: CompanionView| companion_json(d)))),
                ("count"@, JsonView::Number(NumberView::PosInt(self.count as u64, None))),
            ]);
        }
        JsonValue::object(e)
    }
}

/// HTTP answer for a failed registration: 400 invalid, 503 store down, else 500.
pub fn register_http_err(e: CompanionError) -> (r: HttpError)
    ensures
        match e@ {
            CompanionErrorView::Invalid(m) => http_error_is(r, 400, "invalid_companion"@, m),
            CompanionErrorView::Unavailable => http_error_is(r, 503, "companion_store_unavailable"@, "MongoDB companion upsert failed"@),
            other => http_error_is(r, 500, "companion_register_failed"@, crate::companion::companion_error_text(other)),
        },
{
    match e {
        CompanionError::Invalid(m) => http_error(400, "invalid_companion", m),
        CompanionError::Unavailable => http_error(503, "companion_store_unavailable", text::owned("MongoDB companion upsert failed")),
        other => http_error(500, "companion_register_failed", other.to_string()),
    }
}

/// Successful unregister body: `{"ok": true, "id": <id>}`.
pub fn unregistered_json(id: &str) -> (r: JsonValue)
    ensures
        r@ == JsonView::Object(seq![("ok"@, JsonView::Bool(true)), ("id"@, JsonView::Str(id@))]),
{
    let mut e: Vec<(String, JsonValue)> = Vec::new();
    json::push_entry(&mut e, "ok", JsonValue::Bool(true));
    json::push_entry(&mut e, "id", JsonValue::str(id));
    proof {
        assert(entries_view(e@) =~= seq![("ok"@, JsonView::Bool(true)), ("id"@, JsonView::Str(id@))]);
    }
    JsonValue::object(e)
}

/// HTTP answer for a failed unregister: 404 unknown, 503 store down, 400 invalid, else 500.
pub fn unregister_http_err(e: CompanionError) -> (r: HttpError)
    ensures
        match e@ {
            CompanionErrorView::NotFound(cid) => http_error_is(r, 404, "companion_not_found"@, "companion '"@ + cid + "' not registered"@),
            CompanionErrorView::Unavailable => http_error_is(r, 503, "companion_store_unavailable"@, "MongoDB companion delete failed"@),
            CompanionErrorView::Invalid(m) => http_error_is(r, 400, "invalid_companion"@, m),
            other => http_error_is(r, 500, "companion_unregister_failed"@, crate::companion::companion_error_text(other)),
        },
{
    match e {
        CompanionError::NotFound(cid) => http_error(404, "companion_not_found", text::concat3("companion '", cid.as_str(), "' not registered")),
        CompanionError::Unavailable => http_error(503, "companion_store_unavailable", text::owned("MongoDB companion delete failed")),
        CompanionError::Invalid(m) => http_error(400, "invalid_companion", m),
        other => http_error(500, "companion_unregister_failed", other.to_string()),
    }
}

/// HTTP answer for a failed command: 404 unknown, 503 offline, 502 API error, else 500.
pub fn command_http_err(e: CompanionError) -> (r: HttpError)
    ensures
        match e@ {
            CompanionErrorView::NotFound(cid) => http_error_is(r, 404, "companion_not_found"@, "companion '"@ + cid + "' not registered"@),
            CompanionErrorView::Unreachable(m) => http_error_is(r, 503, "companion_unreachable"@, m),
            CompanionErrorView::Api { status, body } => http_error_is(r, 502, "companion_api_error"@, "Companion "@ + text::dec(status as nat) + ": "@ + body),
            other => http_error_is(r, 500, "companion_command_failed"@, crate::companion::companion_error_text(other)),
        },
{
    match e {
        CompanionError::NotFound(cid) => http_error(404, "companion_not_found", text::concat3("companion '", cid.as_str(), "' not registered")),
        CompanionError::Unreachable(m) => http_error(503, "companion_unreachable", m),
        CompanionError::Api { status, body } => {
            let n = text::u64_to_string(status as u64);
            let mut d = text::concat3("Companion ", n.as_str(), ": ");
            text::push_str(&mut d, body.as_str());
            http_error(502, "companion_api_error", d)
        },
        other => http_error(500, "companion_command_failed", other.to_string()),
    }
}

// ---------------------------------------------------------------------------
// LAN scan / adopt
// ---------------------------------------------------------------------------

/// `POST /api/v1/lan/scan` body.
pub struct ScanResponse {
    pub devices: Vec<LanEndpoint>,
    pub count: usize,
}

impl ScanResponse {
    /// The answer listing these endpoints.
    pub fn new(devices: Vec<LanEndpoint>) -> (r: ScanResponse)
        ensures
            endpoints_view(r.devices@) == endpoints_view(devices@),
            r.count == devices@.len(),
    {
        let count = devices.len();
        ScanResponse { devices, count }
    }

    /// `{"devices": [...], "count": n}`.
    pub fn to_json(&self) -> (r: JsonValue)
        ensures
            r@ == JsonView::Object(seq![
                ("devices"@, JsonView::Array(endpoints_view(self.devices@).map_values(|e: LanView| endpoint_json(e)))),
                ("count"@, JsonView::Number(NumberView::PosInt(self.count as u64, None))),
            ]),
    {
        let found = &self.devices;
        let mut out: Vec<JsonValue> = Vec::new();
        let mut i: usize = 0;
        while i < found.len()
            invariant
                i <= found@.len(),
                out@.len() == i,
                forall|k: int| 0 <= k < i ==> json::json_view(#[trigger] out@[k]) == endpoint_json(found@[k]@),
            decreases found.len() - i,
        {
            out.push(found[i].to_json());
            i = i + 1;
        }
        proof {
            assert(json::values_view(out@) =~= endpoints_view(found@).map_values(|e: LanView| endpoint_json(e)));
        }
        let mut e: Vec<(String, JsonValue)> = Vec::new();
        json::push_entry(&mut e, "devices", JsonValue::array(out));
        json::push_entry(&mut e, "count", JsonValue::uint(self.count as u64));
        proof {
            assert(entries_view(e@) =~= seq![
                ("devices"@, JsonView::Array(endpoints_view(found@).map_values(|e: LanView| endpoint_json(e)))),
                ("count"@, JsonView::Number(NumberView::PosInt(self.count as u64, None))),
            ]);
        }
        JsonValue::object(e)
    }
}

/// `POST /api/v1/lan/adopt` body.
pub struct AdoptRequest {
    pub base_url: String,
    pub id: Option<String>,
    pub name: Option<String>,
    pub kind: Option<String>,
}

/// The base URL to adopt: trimmed and without trailing `/`; 400 when that is empty.
pub fn adopt_base(raw: &str) -> (r: Result<String, HttpError>)
    ensures
        text::trim_end_char(text::trimmed(raw@), '/').len() > 0 ==> (r matches Ok(b) && b@ == text::trim_end_char(text::trimmed(raw@), '/')),
        text::trim_end_char(text::trimmed(raw@), '/').len() == 0 ==> (r matches Err(e) && http_error_is(e, 400, "invalid_request"@, "base_url required"@)),
{
    let t = text::trim(raw);
    let b = text::trim_end_matches(t.as_str(), '/');
    if text::is_empty(b.as_str()) {
        Err(http_error(400, "invalid_request", text::owned("base_url required")))
    } else {
        Ok(b)
    }
}

/// 502 when nothing at `base` answered as a LanIoT endpoint.
pub fn adopt_unreachable(base: &str) -> (r: HttpError)
    ensures
        http_error_is(r, 502, "unreachable"@, "no LanIoT health at "@ + base@),
{
    http_error(502, "unreachable", text::concat("no LanIoT health at ", base))
}

/// 500 when the probe client could not be built.
pub fn adopt_scan_failed(error_text: String) -> (r: HttpError)
    ensures
        http_error_is(r, 500, "scan_failed"@, error_text@),
{
    http_error(500, "scan_failed", error_text)
}

/// 502 when the registry refused the adopted device.
pub fn adopt_failed(e: &CompanionError) -> (r: HttpError)
    ensures
        http_error_is(r, 502, "adopt_failed"@, crate::companion::companion_error_text(e@)),
{
    http_error(502, "adopt_failed", e.to_string())
}

/// A value the request gives, unless absent or empty.
pub open spec fn given_or(v: Option<Seq<char>>, d: Seq<char>) -> Seq<char> {
    match v {
        Some(s) => if s.len() > 0 { s } else { d },
        None => d,
    }
}

fn pick(v: Option<String>, d: String) -> (r: String)
    ensures
        r@ == given_or(crate::capability::opt_str_view(v), d@),
{
    match v {
        Some(s) => if text::is_empty(s.as_str()) { d } else { s },
        None => d,
    }
}

/// The device to register: id, name and kind from the request when given
/// (non-empty), else from the probe; the normalized base URL.
pub fn adopt_device(req: AdoptRequest, probed: LanEndpoint, base: String) -> (r: CompanionDevice)
    ensures
        r@ == (CompanionView {
            id: given_or(crate::capability::opt_str_view(req.id), probed@.id),
            name: given_or(crate::capability::opt_str_view(req.name), probed@.name),
            base_url: base@,
            kind: given_or(crate::capability::opt_str_view(req.kind), probed@.kind),
        }),
{
    CompanionDevice {
        id: pick(req.id, probed.id),
        name: pick(req.name, probed.name),
        base_url: base,
        kind: pick(req.kind, probed.kind),
    }
}

} // verus!
