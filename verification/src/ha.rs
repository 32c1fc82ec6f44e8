//! Home Assistant backend — Hub ↔ HA via REST (+ optional WebSocket).
//!
//! Brand IoT and ESP32 (MQTT) are driven by HA; the Hub never talks MQTT to
//! devices directly. This module holds what the Hub decides around the HTTP and
//! WebSocket traffic: request targets, how a status and body are judged, how a
//! Hub action becomes a service call, how HA states become registry entities,
//! and the WebSocket session protocol.

use vstd::prelude::*;
use crate::adapter::{AdapterError, AdapterErrorView, AdapterHealth, HealthView};
use crate::json::{self, Float64, FloatView, JsonValue, JsonView, NumberView, entries_view, lookup};
use crate::registry::{self, DeviceEntity, DeviceRegistry, EntityType, EntityView, entity_spec, entities_view};
use crate::store;
use crate::text;

verus! {

broadcast use vstd::string::group_string_axioms;

// ---------------------------------------------------------------------------
// Errors
// ---------------------------------------------------------------------------

/// Failure talking to Home Assistant.
pub enum HaError {
    NotConfigured,
    Unreachable(String),
    Api { status: u16, body: String },
    InvalidResponse(String),
}

pub enum HaErrorView {
    NotConfigured,
    Unreachable(Seq<char>),
    Api { status: u16, body: Seq<char> },
    InvalidResponse(Seq<char>),
}

impl View for HaError {
    type V = HaErrorView;

    open spec fn view(&self) -> HaErrorView {
        match self {
            HaError::NotConfigured => HaErrorView::NotConfigured,
            HaError::Unreachable(s) => HaErrorView::Unreachable(s@),
            HaError::Api { status, body } => HaErrorView::Api { status: *status, body: body@ },
            HaError::InvalidResponse(s) => HaErrorView::InvalidResponse(s@),
        }
    }
}

/// The text an HA error displays.
pub open spec fn ha_error_text(e: HaErrorView) -> Seq<char> {
    match e {
        HaErrorView::NotConfigured => "Home Assistant is not configured (set HA_URL and HA_TOKEN)"@,
        HaErrorView::Unreachable(s) => "Home Assistant unreachable: "@ + s,
        HaErrorView::Api { status, body } => "Home Assistant API error ("@ + text::dec(status as nat) + "): "@ + body,
        HaErrorView::InvalidResponse(s) => "invalid response: "@ + s,
    }
}

/// How an HA error is reported as an adapter error.
pub open spec fn ha_to_adapter(e: HaErrorView) -> AdapterErrorView {
    match e {
        HaErrorView::NotConfigured => AdapterErrorView::NotConfigured("ha"@),
        HaErrorView::Unreachable(s) => AdapterErrorView::Unreachable(s),
        HaErrorView::Api { status, body } => AdapterErrorView::Api { status, body },
        HaErrorView::InvalidResponse(s) => AdapterErrorView::Invalid(s),
    }
}

impl HaError {
    /// Display text of the error.
    pub fn to_string(&self) -> (r: String)
        ensures
            r@ == ha_error_text(self@),
    {
        match self {
            HaError::NotConfigured => text::owned("Home Assistant is not configured (set HA_URL and HA_TOKEN)"),
            HaError::Unreachable(s) => text::concat("Home Assistant unreachable: ", s.as_str()),
            HaError::Api { status, body } => {
                let n = text::u64_to_string(*status as u64);
                let mut r = text::concat3("Home Assistant API error (", n.as_str(), "): ");
                text::push_str(&mut r, body.as_str());
                r
            },
            HaError::InvalidResponse(s) => text::concat("invalid response: ", s.as_str()),
        }
    }

    /// `Unreachable` with a `"<context>: <detail>"` message.
    pub fn unreachable(context: &str, detail: &str) -> (r: HaError)
        ensures
            r@ == HaErrorView::Unreachable(context@ + ": "@ + detail@),
    {
        HaError::Unreachable(text::concat3(context, ": ", detail))
    }
}

impl AdapterError {
    /// How an HA failure is reported by the adapter layer.
    pub fn from_ha(err: HaError) -> (r: AdapterError)
        ensures
            r@ == ha_to_adapter(err@),
    {
        match err {
            HaError::NotConfigured => AdapterError::NotConfigured(text::owned("ha")),
            HaError::Unreachable(msg) => AdapterError::Unreachable(msg),
            HaError::Api { status, body } => AdapterError::Api { status, body },
            HaError::InvalidResponse(msg) => AdapterError::Invalid(msg),
        }
    }
}

// ---------------------------------------------------------------------------
// States
// ---------------------------------------------------------------------------

/// One entity state as HA reports it.
pub struct HaState {
    pub entity_id: String,
    pub state: String,
    pub attributes: Vec<(String, JsonValue)>,
    pub last_changed: Option<String>,
    pub last_updated: Option<String>,
}

pub struct HaStateView {
    pub entity_id: Seq<char>,
    pub state: Seq<char>,
    pub attributes: Seq<(Seq<char>, JsonView)>,
    pub last_changed: Option<Seq<char>>,
    pub last_updated: Option<Seq<char>>,
}

impl View for HaState {
    type V = HaStateView;

    open spec fn view(&self) -> HaStateView {
        HaStateView {
            entity_id: self.entity_id@,
            state: self.state@,
            attributes: entries_view(self.attributes@),
            last_changed: crate::capability::opt_str_view(self.last_changed),
            last_updated: crate::capability::opt_str_view(self.last_updated),
        }
    }
}

/// A required string field.
pub open spec fn req_str(v: Option<JsonView>) -> Option<Seq<char>> {
    match v {
        Some(JsonView::Str(s)) => Some(s),
        _ => None,
    }
}

/// An attribute map field that defaults to empty: absent → `{}`, an object → its entries.
pub open spec fn attrs_field(v: Option<JsonView>) -> Option<Seq<(Seq<char>, JsonView)>> {
    match v {
        None => Some(Seq::empty()),
        Some(JsonView::Object(e)) => Some(e),
        _ => None,
    }
}

/// An optional string field: absent or `null` → `Some(None)`, a string → `Some(Some(s))`, else invalid.
pub open spec fn opt_str_field(v: Option<JsonView>) -> Option<Option<Seq<char>>> {
    match v {
        None => Some(None),
        Some(JsonView::Null) => Some(None),
        Some(JsonView::Str(s)) => Some(Some(s)),
        _ => None,
    }
}

pub open spec fn ha_state_fields(
    id: Option<JsonView>,
    st: Option<JsonView>,
    at: Option<JsonView>,
    lc: Option<JsonView>,
    lu: Option<JsonView>,
) -> Option<HaStateView> {
    match (req_str(id), req_str(st), attrs_field(at), opt_str_field(lc), opt_str_field(lu)) {
        (Some(i), Some(s), Some(a), Some(c), Some(u)) => Some(
            HaStateView { entity_id: i, state: s, attributes: a, last_changed: c, last_updated: u },
        ),
        _ => None,
    }
}

pub open spec fn nth(a: Seq<JsonView>, i: int) -> Option<JsonView> {
    if i < a.len() { Some(a[i]) } else { None }
}

/// An HA state read from a JSON document, as a derived deserializer reads it:
/// an object with string `entity_id` and `state`, an optional `attributes`
/// object and optional string `last_changed` / `last_updated` (other keys are
/// ignored), or an array of the same fields in that order (two to five items).
pub open spec fn ha_state_of(j: JsonView) -> Option<HaStateView> {
    match j {
        JsonView::Object(e) => ha_state_fields(
            lookup(e, "entity_id"@),
            lookup(e, "state"@),
            lookup(e, "attributes"@),
            lookup(e, "last_changed"@),
            lookup(e, "last_updated"@),
        ),
        JsonView::Array(a) => if 2 <= a.len() <= 5 {
            ha_state_fields(nth(a, 0), nth(a, 1), nth(a, 2), nth(a, 3), nth(a, 4))
        } else {
            None
        },
        _ => None,
    }
}

fn req_str_exec(v: Option<&JsonValue>) -> (r: Option<String>)
    ensures
        crate::capability::opt_str_view(r) == req_str(match v { Some(x) => Some(x@), None => None }),
{
    match v {
        Some(JsonValue::Str(s)) => Some(s.clone()),
        _ => None,
    }
}

fn attrs_exec(v: Option<&JsonValue>) -> (r: Option<Vec<(String, JsonValue)>>)
    ensures
        (match r { Some(x) => Some(entries_view(x@)), None => None }) == attrs_field(match v { Some(x) => Some(x@), None => None }),
{
    match v {
        None => Some(Vec::new()),
        Some(JsonValue::Object(e)) => {
            proof {
                json::lemma_object_view(*e);
            }
            Some(json::clone_entries(e))
        },
        Some(_) => None,
    }
}

fn opt_str_exec(v: Option<&JsonValue>) -> (r: Option<Option<String>>)
    ensures
        (match r { Some(x) => Some(crate::capability::opt_str_view(x)), None => None }) == opt_str_field(match v { Some(x) => Some(x@), None => None }),
{
    match v {
        None => Some(None),
        Some(JsonValue::Null) => Some(None),
        Some(JsonValue::Str(s)) => Some(Some(s.clone())),
        Some(_) => None,
    }
}

fn state_from_fields(
    id: Option<&JsonValue>,
    st: Option<&JsonValue>,
    at: Option<&JsonValue>,
    lc: Option<&JsonValue>,
    lu: Option<&JsonValue>,
) -> (r: Option<HaState>)
    ensures
        (match r { Some(x) => Some(x@), None => None }) == ha_state_fields(
            match id { Some(x) => Some(x@), None => None },
            match st { Some(x) => Some(x@), None => None },
            match at { Some(x) => Some(x@), None => None },
            match lc { Some(x) => Some(x@), None => None },
            match lu { Some(x) => Some(x@), None => None },
        ),
{
    match (req_str_exec(id), req_str_exec(st), attrs_exec(at), opt_str_exec(lc), opt_str_exec(lu)) {
        (Some(i), Some(s), Some(a), Some(c), Some(u)) => Some(
            HaState { entity_id: i, state: s, attributes: a, last_changed: c, last_updated: u },
        ),
        _ => None,
    }
}

fn array_at(a: &Vec<JsonValue>, i: usize) -> (r: Option<&JsonValue>)
    ensures
        (match r { Some(x) => Some(x@), None => None }) == nth(json::values_view(a@), i as int),
{
    if i < a.len() {
        Some(&a[i])
    } else {
        None
    }
}

impl HaState {
    /// Reads an HA state from a JSON document (see [`ha_state_of`]).
    pub fn from_json(j: &JsonValue) -> (r: Option<HaState>)
        ensures
            (match r { Some(x) => Some(x@), None => None }) == ha_state_of(j@),
    {
        match j {
            JsonValue::Object(e) => {
                proof {
                    json::lemma_object_view(*e);
                }
                state_from_fields(
                    json::entries_get(e, "entity_id"),
                    json::entries_get(e, "state"),
                    json::entries_get(e, "attributes"),
                    json::entries_get(e, "last_changed"),
                    json::entries_get(e, "last_updated"),
                )
            },
            JsonValue::Array(a) => {
                proof {
                    json::lemma_array_view(*a);
                }
                if 2 <= a.len() && a.len() <= 5 {
                    state_from_fields(array_at(a, 0), array_at(a, 1), array_at(a, 2), array_at(a, 3), array_at(a, 4))
                } else {
                    None
                }
            },
            _ => None,
        }
    }
}

/// Registry entity for an HA state: name from `friendly_name` when it is a
/// string (else the id), available unless the state is `unavailable` / `unknown`.
pub open spec fn state_entity(s: HaStateView) -> EntityView {
    entity_spec(
        s.entity_id,
        registry::type_of_domain(registry::domain_of(s.entity_id)),
        match json::as_str(lookup(s.attributes, "friendly_name"@)) {
            Some(n) => n,
            None => s.entity_id,
        },
        s.state,
        s.attributes,
        s.state != "unavailable"@ && s.state != "unknown"@,
        "ha"@,
    )
}

// ---------------------------------------------------------------------------
// The adapter
// ---------------------------------------------------------------------------

/// Connection settings for one HA instance.
pub struct HaAdapter {
    pub base_url: String,
    pub token: String,
}

/// A service call that an action maps to: `POST /api/services/{domain}/{service}` with `data`.
pub struct ServiceCall {
    pub domain: String,
    pub service: String,
    pub data: Vec<(String, JsonValue)>,
}

pub struct ServiceCallView {
    pub domain: Seq<char>,
    pub service: Seq<char>,
    pub data: Seq<(Seq<char>, JsonView)>,
}

impl View for ServiceCall {
    type V = ServiceCallView;

    open spec fn view(&self) -> ServiceCallView {
        ServiceCallView { domain: self.domain@, service: self.service@, data: entries_view(self.data@) }
    }
}

/// `params[key]`, or `default` when absent.
pub open spec fn param_or(params: Seq<(Seq<char>, JsonView)>, key: Seq<char>, default: JsonView) -> JsonView {
    match lookup(params, key) {
        Some(v) => v,
        None => default,
    }
}

/// Copies every parameter except `temperature`, `brightness` and `mode` into `data`.
pub open spec fn merge_extra(data: Seq<(Seq<char>, JsonView)>, params: Seq<(Seq<char>, JsonView)>) -> Seq<(Seq<char>, JsonView)>
    decreases params.len(),
{
    if params.len() == 0 {
        data
    } else {
        let rest = merge_extra(data, params.drop_last());
        let (k, v) = params.last();
        if k == "temperature"@ || k == "brightness"@ || k == "mode"@ { rest } else { json::put(rest, k, v) }
    }
}

pub open spec fn id_only(entity_id: Seq<char>) -> Seq<(Seq<char>, JsonView)> {
    seq![("entity_id"@, JsonView::Str(entity_id))]
}

pub open spec fn float_24() -> JsonView {
    JsonView::Number(NumberView::Float(FloatView { bits: 0x4038000000000000, text: "24"@ }))
}

/// Service name and base payload of an action, or `None` when unsupported.
pub open spec fn action_service(entity_id: Seq<char>, action: Seq<char>, params: Seq<(Seq<char>, JsonView)>) -> Option<(Seq<char>, Seq<(Seq<char>, JsonView)>)> {
    if action == "turn_on"@ || action == "turn_off"@ || action == "toggle"@ {
        Some((action, id_only(entity_id)))
    } else if action == "set_temperature"@ {
        Some(("set_temperature"@, id_only(entity_id).push(("temperature"@, param_or(params, "temperature"@, float_24())))))
    } else if action == "set_brightness"@ {
        Some((
            "turn_on"@,
            id_only(entity_id).push(("brightness"@, param_or(params, "brightness"@, JsonView::Number(NumberView::PosInt(255, None))))),
        ))
    } else if action == "set_hvac_mode"@ {
        Some(("set_hvac_mode"@, id_only(entity_id).push(("hvac_mode"@, param_or(params, "mode"@, JsonView::Str("cool"@))))))
    } else {
        None
    }
}

/// Domain part of an entity id, `homeassistant` when the id has no `.`.
pub open spec fn id_domain(entity_id: Seq<char>) -> Seq<char> {
    match text::first_index(entity_id, '.') {
        Some(i) => entity_id.take(i),
        None => "homeassistant"@,
    }
}

/// The service call an action maps to, or the error for an unsupported action.
pub open spec fn plan_spec(entity_id: Seq<char>, action: Seq<char>, params: Seq<(Seq<char>, JsonView)>) -> Result<ServiceCallView, HaErrorView> {
    match action_service(entity_id, action, params) {
        None => Err(HaErrorView::InvalidResponse(
            "unsupported action: "@ + action + " (try turn_on, turn_off, set_temperature, set_brightness)"@,
        )),
        Some((service, base)) => Ok(ServiceCallView {
            domain: if action == "set_temperature"@ || action == "set_hvac_mode"@ { "climate"@ } else { id_domain(entity_id) },
            service,
            data: merge_extra(base, params),
        }),
    }
}

/// Health when HA is not configured.
pub open spec fn unconfigured_health() -> HealthView {
    HealthView { source: "ha"@, configured: false, ok: false, detail: Some("HA_URL / HA_TOKEN not set"@) }
}

impl HaAdapter {
    pub open spec fn configured(&self) -> bool {
        self.base_url@.len() > 0 && self.token@.len() > 0
    }

    /// Settings with the base URL's trailing `/` removed.
    pub fn new(base_url: &str, token: &str) -> (r: HaAdapter)
        ensures
            r.base_url@ == text::trim_end_char(base_url@, '/'),
            r.token@ == token@,
    {
        HaAdapter { base_url: text::trim_end_matches(base_url, '/'), token: text::owned(token) }
    }

    /// Stable source key of this backend.
    pub fn source_id(&self) -> (r: &'static str)
        ensures
            r@ == "ha"@,
    {
        "ha"
    }

    /// Both the URL and the token are set.
    pub fn is_configured(&self) -> (r: bool)
        ensures
            r == self.configured(),
    {
        !text::is_empty(self.base_url.as_str()) && !text::is_empty(self.token.as_str())
    }

    /// `Err(NotConfigured)` unless configured.
    pub fn ensure_configured(&self) -> (r: Result<(), HaError>)
        ensures
            r is Ok <==> self.configured(),
            r matches Err(e) ==> e@ == HaErrorView::NotConfigured,
    {
        if self.is_configured() {
            Ok(())
        } else {
            Err(HaError::NotConfigured)
        }
    }

    /// `Authorization` header value.
    pub fn auth_header(&self) -> (r: String)
        ensures
            r@ == "Bearer "@ + self.token@,
    {
        text::concat("Bearer ", self.token.as_str())
    }

    /// `GET /api/` — health / version ping.
    pub fn ping_url(&self) -> (r: String)
        ensures
            r@ == self.base_url@ + "/api/"@,
    {
        text::concat(self.base_url.as_str(), "/api/")
    }

    /// `GET /api/states` — all entities.
    pub fn states_url(&self) -> (r: String)
        ensures
            r@ == self.base_url@ + "/api/states"@,
    {
        text::concat(self.base_url.as_str(), "/api/states")
    }

    /// `GET /api/states/{entity_id}`.
    pub fn state_url(&self, entity_id: &str) -> (r: String)
        ensures
            r@ == self.base_url@ + "/api/states/"@ + entity_id@,
    {
        text::concat3(self.base_url.as_str(), "/api/states/", entity_id)
    }

    /// `POST /api/services/{domain}/{service}`.
    pub fn service_url(&self, domain: &str, service: &str) -> (r: String)
        ensures
            r@ == self.base_url@ + "/api/services/"@ + domain@ + "/"@ + service@,
    {
        let mut r = text::concat3(self.base_url.as_str(), "/api/services/", domain);
        text::push_str(&mut r, "/");
        text::push_str(&mut r, service);
        r
    }

    /// Map a simple Hub action to an HA service call.
    pub fn perform_action(entity_id: &str, action: &str, params: &Vec<(String, JsonValue)>) -> (r: Result<ServiceCall, HaError>)
        ensures
            match r {
                Ok(c) => plan_spec(entity_id@, action@, entries_view(params@)) == Ok::<ServiceCallView, HaErrorView>(c@),
                Err(e) => plan_spec(entity_id@, action@, entries_view(params@)) == Err::<ServiceCallView, HaErrorView>(e@),
            },
    {
        let ghost pv = entries_view(params@);
        let domain = match text::split_once(entity_id, '.') {
            Some((d, _)) => d,
            None => text::owned("homeassistant"),
        };
        let mut data: Vec<(String, JsonValue)> = Vec::new();
        json::push_entry(&mut data, "entity_id", JsonValue::str(entity_id));
        proof {
            assert(entries_view(data@) =~= id_only(entity_id@));
        }
        let service: String;
        if text::eq(action, "turn_on") || text::eq(action, "turn_off") || text::eq(action, "toggle") {
            service = text::owned(action);
        } else if text::eq(action, "set_temperature") {
            let t = match json::entries_get(params, "temperature") {
                Some(v) => v.deep_clone(),
                None => JsonValue::float(Float64 { bits: 0x4038000000000000, text: text::owned("24") }),
            };
            json::push_entry(&mut data, "temperature", t);
            service = text::owned("set_temperature");
        } else if text::eq(action, "set_brightness") {
            let b = match json::entries_get(params, "brightness") {
                Some(v) => v.deep_clone(),
                None => JsonValue::uint(255),
            };
            json::push_entry(&mut data, "brightness", b);
            service = text::owned("turn_on");
        } else if text::eq(action, "set_hvac_mode") {
            let m = match json::entries_get(params, "mode") {
                Some(v) => v.deep_clone(),
                None => JsonValue::str("cool"),
            };
            json::push_entry(&mut data, "hvac_mode", m);
            service = text::owned("set_hvac_mode");
        } else {
            let mut msg = text::concat("unsupported action: ", action);
            text::push_str(&mut msg, " (try turn_on, turn_off, set_temperature, set_brightness)");
            return Err(HaError::InvalidResponse(msg));
        }
        let ghost base = entries_view(data@);
        proof {
            assert(action_service(entity_id@, action@, pv) == Some((service@, base)));
        }
        let mut i: usize = 0;
        while i < params.len()
            invariant
                i <= params@.len(),
                pv == entries_view(params@),
                entries_view(data@) == merge_extra(base, pv.take(i as int)),
            decreases params.len() - i,
        {
            let k = params[i].0.as_str();
            proof {
                assert(pv.take(i + 1).drop_last() =~= pv.take(i as int));
                assert(pv.take(i + 1).last() == pv[i as int]);
            }
            if !(text::eq(k, "temperature") || text::eq(k, "brightness") || text::eq(k, "mode")) {
                json::put_entry(&mut data, k, params[i].1.deep_clone());
            }
            i = i + 1;
        }
        proof {
            assert(pv.take(params@.len() as int) =~= pv);
        }
        let service_domain = if text::eq(action, "set_temperature") || text::eq(action, "set_hvac_mode") {
            text::owned("climate")
        } else {
            domain
        };
        Ok(ServiceCall { domain: service_domain, service, data })
    }

    /// Convert an HA state into the registry entity model.
    pub fn state_to_entity(state: &HaState) -> (r: DeviceEntity)
        ensures
            r@ == state_entity(state@),
    {
        let entity_type = EntityType::from_entity_id(state.entity_id.as_str());
        let friendly_name = match json::entries_get(&state.attributes, "friendly_name") {
            Some(v) => match v.as_str() {
                Some(n) => text::owned(n),
                None => state.entity_id.clone(),
            },
            None => state.entity_id.clone(),
        };
        let available = !text::eq(state.state.as_str(), "unavailable") && !text::eq(state.state.as_str(), "unknown");
        DeviceEntity::new(
            state.entity_id.clone(),
            entity_type,
            friendly_name,
            state.state.clone(),
            json::clone_entries(&state.attributes),
            available,
            text::owned("ha"),
        )
    }

    /// Entities for a list of HA states, in order.
    pub fn states_to_entities(states: &Vec<HaState>) -> (r: Vec<DeviceEntity>)
        ensures
            entities_view(r@) == states@.map_values(|s: HaState| state_entity(s@)),
    {
        let mut out: Vec<DeviceEntity> = Vec::new();
        let mut i: usize = 0;
        while i < states.len()
            invariant
                i <= states@.len(),
                out@.len() == i,
                forall|k: int| 0 <= k < i ==> (#[trigger] out@[k])@ == state_entity(states@[k]@),
            decreases states.len() - i,
        {
            out.push(HaAdapter::state_to_entity(&states[i]));
            i = i + 1;
        }
        proof {
            assert(entities_view(out@) =~= states@.map_values(|s: HaState| state_entity(s@)));
        }
        out
    }

    /// Replace the registry's HA entities with the listed states; the count synced,
    /// or the listing error unchanged (the registry is then untouched).
    pub fn sync_registry(registry: &mut DeviceRegistry, listed: Result<Vec<HaState>, HaError>) -> (r: Result<usize, HaError>)
        requires
            old(registry).wf(),
        ensures
            final(registry).wf(),
            match listed {
                Ok(states) => r == Ok::<usize, HaError>(states@.len() as usize)
                    && final(registry).map() == store::fold_insert::<DeviceEntity>(
                        registry::without_ha(old(registry).map()),
                        states@.map_values(|s: HaState| state_entity(s@)),
                    ),
                Err(e) => r matches Err(e2) && e2@ == e@ && final(registry).map() == old(registry).map(),
            },
    {
        match listed {
            Ok(states) => {
                let entities = HaAdapter::states_to_entities(&states);
                let n = entities.len();
                registry.replace_ha_entities(entities);
                Ok(n)
            },
            Err(e) => Err(e),
        }
    }

    /// Health: unconfigured, or the outcome of the ping (`None` when no ping was made).
    pub fn health(&self, ping: Option<Result<(), HaError>>) -> (r: AdapterHealth)
        ensures
            !self.configured() ==> r@ == unconfigured_health(),
            self.configured() ==> match ping {
                Some(Ok(())) | None => r@ == HealthView { source: "ha"@, configured: true, ok: true, detail: None },
                Some(Err(e)) => r@ == HealthView { source: "ha"@, configured: true, ok: false, detail: Some(ha_error_text(e@)) },
            },
    {
        if !self.is_configured() {
            return AdapterHealth {
                source: text::owned("ha"),
                configured: false,
                ok: false,
                detail: Some(text::owned("HA_URL / HA_TOKEN not set")),
            };
        }
        match ping {
            Some(Err(e)) => AdapterHealth { source: text::owned("ha"), configured: true, ok: false, detail: Some(e.to_string()) },
            _ => AdapterHealth { source: text::owned("ha"), configured: true, ok: true, detail: None },
        }
    }

    /// `get_state`: the fetched state as an entity; a 404 becomes `NotFound`.
    pub fn get_state_result(entity_id: &str, fetched: Result<HaState, HaError>) -> (r: Result<DeviceEntity, AdapterError>)
        ensures
            match fetched {
                Ok(s) => r matches Ok(e) && e@ == state_entity(s@),
                Err(e) => r matches Err(x) && x@ == (if e@ matches HaErrorView::Api { status, .. } && status == 404 {
                    AdapterErrorView::NotFound(entity_id@)
                } else {
                    ha_to_adapter(e@)
                }),
            },
    {
        match fetched {
            Ok(s) => Ok(HaAdapter::state_to_entity(&s)),
            Err(HaError::Api { status, body }) => {
                if status == 404 {
                    Err(AdapterError::NotFound(text::owned(entity_id)))
                } else {
                    Err(AdapterError::Api { status, body })
                }
            },
            Err(e) => Err(AdapterError::from_ha(e)),
        }
    }
}

// ---------------------------------------------------------------------------
// Responses
// ---------------------------------------------------------------------------

/// An HTTP status in the success class.
pub open spec fn is_success(status: u16) -> bool {
    200 <= status <= 299
}

/// A response body to read, or the API error for a non-success status.
pub fn check_response(status: u16, body: String) -> (r: Result<String, HaError>)
    ensures
        is_success(status) ==> (r matches Ok(b) && b@ == body@),
        !is_success(status) ==> (r matches Err(e) && e@ == (HaErrorView::Api { status, body: body@ })),
{
    if 200 <= status && status <= 299 {
        Ok(body)
    } else {
        Err(HaError::Api { status, body })
    }
}

/// The state fetch: 404 is reported as a missing entity, other failures as API errors.
pub fn check_state_response(entity_id: &str, status: u16, body: String) -> (r: Result<String, HaError>)
    ensures
        status == 404 ==> (r matches Err(e) && e@ == (HaErrorView::Api { status: 404, body: "entity not found: "@ + entity_id@ })),
        status != 404 && is_success(status) ==> (r matches Ok(b) && b@ == body@),
        status != 404 && !is_success(status) ==> (r matches Err(e) && e@ == (HaErrorView::Api { status, body: body@ })),
{
    if status == 404 {
        return Err(HaError::Api { status: 404, body: text::concat("entity not found: ", entity_id) });
    }
    check_response(status, body)
}

/// A service-call response: the body to parse, `None` when it is blank (the
/// result is then an empty array), or the API error.
pub fn check_service_response(status: u16, body: String) -> (r: Result<Option<String>, HaError>)
    ensures
        !is_success(status) ==> (r matches Err(e) && e@ == (HaErrorView::Api { status, body: body@ })),
        is_success(status) && text::trimmed(body@).len() == 0 ==> r matches Ok(None),
        is_success(status) && text::trimmed(body@).len() > 0 ==> (r matches Ok(Some(b)) && b@ == body@),
{
    let b = check_response(status, body)?;
    let t = text::trim(b.as_str());
    if text::is_empty(t.as_str()) {
        Ok(None)
    } else {
        Ok(Some(b))
    }
}

// ---------------------------------------------------------------------------
// Connection status
// ---------------------------------------------------------------------------

/// State of the Hub's link to HA, as reported by the health endpoint.
pub enum HaConnectionStatus {
    Unknown,
    Connected,
    Degraded(String),
    NotConfigured,
}

pub enum HaStatusView {
    Unknown,
    Connected,
    Degraded(Seq<char>),
    NotConfigured,
}

impl View for HaConnectionStatus {
    type V = HaStatusView;

    open spec fn view(&self) -> HaStatusView {
        match self {
            HaConnectionStatus::Unknown => HaStatusView::Unknown,
            HaConnectionStatus::Connected => HaStatusView::Connected,
            HaConnectionStatus::Degraded(s) => HaStatusView::Degraded(s@),
            HaConnectionStatus::NotConfigured => HaStatusView::NotConfigured,
        }
    }
}

/// Serialized status: `{"status": <variant>}`, plus `"detail"` for `Degraded`.
pub open spec fn ha_status_json(s: HaStatusView) -> JsonView {
    match s {
        HaStatusView::Unknown => JsonView::Object(seq![("status"@, JsonView::Str("Unknown"@))]),
        HaStatusView::Connected => JsonView::Object(seq![("status"@, JsonView::Str("Connected"@))]),
        HaStatusView::Degraded(d) => JsonView::Object(seq![("status"@, JsonView::Str("Degraded"@)), ("detail"@, JsonView::Str(d))]),
        HaStatusView::NotConfigured => JsonView::Object(seq![("status"@, JsonView::Str("NotConfigured"@))]),
    }
}

/// Status after a REST sync (initial or poll).
pub open spec fn status_after_sync_spec(ok: bool, e: HaErrorView) -> HaStatusView {
    if ok { HaStatusView::Connected } else { HaStatusView::Degraded(ha_error_text(e)) }
}

impl HaConnectionStatus {
    /// `Unknown`.
    pub fn default() -> (r: HaConnectionStatus)
        ensures
            r@ == HaStatusView::Unknown,
    {
        HaConnectionStatus::Unknown
    }

    /// The status as serialized.
    pub fn to_json(&self) -> (r: JsonValue)
        ensures
            r@ == ha_status_json(self@),
    {
        let mut e: Vec<(String, JsonValue)> = Vec::new();
        let tag = match self {
            HaConnectionStatus::Unknown => "Unknown",
            HaConnectionStatus::Connected => "Connected",
            HaConnectionStatus::Degraded(_) => "Degraded",
            HaConnectionStatus::NotConfigured => "NotConfigured",
        };
        json::push_entry(&mut e, "status", JsonValue::str(tag));
        match self {
            HaConnectionStatus::Degraded(d) => json::push_entry(&mut e, "detail", JsonValue::str(d.as_str())),
            _ => {},
        }
        proof {
            assert(entries_view(e@) =~= match ha_status_json(self@) { JsonView::Object(x) => x, _ => Seq::empty() });
        }
        JsonValue::object(e)
    }

    /// Copy of the status.
    pub fn duplicate(&self) -> (r: HaConnectionStatus)
        ensures
            r@ == self@,
    {
        match self {
            HaConnectionStatus::Unknown => HaConnectionStatus::Unknown,
            HaConnectionStatus::Connected => HaConnectionStatus::Connected,
            HaConnectionStatus::Degraded(s) => HaConnectionStatus::Degraded(s.clone()),
            HaConnectionStatus::NotConfigured => HaConnectionStatus::NotConfigured,
        }
    }

    /// Status at boot: `Unknown` until the first sync when HA is configured, else `NotConfigured`.
    pub fn initial(ha_configured: bool) -> (r: HaConnectionStatus)
        ensures
            r@ == if ha_configured { HaStatusView::Unknown } else { HaStatusView::NotConfigured },
    {
        if ha_configured { HaConnectionStatus::Unknown } else { HaConnectionStatus::NotConfigured }
    }

    /// Whether the status is `Connected`.
    pub fn is_connected(&self) -> (r: bool)
        ensures
            r == (self@ is Connected),
    {
        match self {
            HaConnectionStatus::Connected => true,
            _ => false,
        }
    }

    /// Status after a REST sync: connected, or degraded with the error text.
    pub fn after_sync(r: &Result<usize, HaError>) -> (s: HaConnectionStatus)
        ensures
            match r {
                Ok(_) => s@ == HaStatusView::Connected,
                Err(e) => s@ == HaStatusView::Degraded(ha_error_text(e@)),
            },
    {
        match r {
            Ok(_) => HaConnectionStatus::Connected,
            Err(e) => HaConnectionStatus::Degraded(e.to_string()),
        }
    }

    /// Status change after the WebSocket session ends: a clean close changes
    /// nothing (`None`); a failure degrades with `ws: <error>`.
    pub fn after_websocket(r: &Result<(), HaError>) -> (s: Option<HaConnectionStatus>)
        ensures
            match r {
                Ok(_) => s is None,
                Err(e) => s matches Some(x) && x@ == HaStatusView::Degraded("ws: "@ + ha_error_text(e@)),
            },
    {
        match r {
            Ok(_) => None,
            Err(e) => {
                let t = e.to_string();
                Some(HaConnectionStatus::Degraded(text::concat("ws: ", t.as_str())))
            },
        }
    }
}

/// REST polls made after a WebSocket session ends, before the WebSocket is retried.
pub const POLLS_BEFORE_WS_RETRY: u64 = 6;

/// Seconds between REST polls: the configured interval, at least 5.
pub fn poll_interval_secs(poll_secs: u64) -> (r: u64)
    ensures
        r == if poll_secs < 5 { 5 } else { poll_secs },
{
    if poll_secs < 5 { 5 } else { poll_secs }
}

/// What the background sync does next.
pub enum HaSyncStep {
    /// A full REST sync of the registry (then `HaConnectionStatus::after_sync`).
    Sync,
    /// A WebSocket session (then `HaConnectionStatus::after_websocket`).
    WebSocket,
    /// Wait this many seconds.
    Sleep(u64),
}

/// Positions in one sync cycle: 0 is its start (the WebSocket, when HA is
/// configured); odd positions wait, even ones poll; the last poll closes it.
pub open spec fn cycle_len() -> int {
    2 * POLLS_BEFORE_WS_RETRY + 1
}

/// The step taken at cycle position `pos`, and the position after it.
pub open spec fn cycle_step(pos: int, configured: bool, interval: u64) -> (HaSyncStep, int) {
    if pos == 0 {
        if configured { (HaSyncStep::WebSocket, 1) } else { (HaSyncStep::Sleep(interval), 2) }
    } else if pos % 2 == 1 {
        (HaSyncStep::Sleep(interval), pos + 1)
    } else if pos == cycle_len() - 1 {
        (HaSyncStep::Sync, 0)
    } else {
        (HaSyncStep::Sync, pos + 1)
    }
}

/// The schedule of the Home Assistant background sync: one REST sync at
/// start; then, over and over, a WebSocket session when HA is configured,
/// followed by `POLLS_BEFORE_WS_RETRY` REST polls, each after a wait of the
/// poll interval.
pub struct HaSyncSchedule {
    started: bool,
    pos: u64,
    interval: u64,
}

impl HaSyncSchedule {
    /// The initial sync has been made.
    pub closed spec fn started(&self) -> bool {
        self.started
    }

    /// The position in the current cycle.
    pub closed spec fn position(&self) -> int {
        self.pos as int
    }

    /// Seconds waited before each poll.
    pub closed spec fn interval(&self) -> u64 {
        self.interval
    }

    pub open spec fn wf(&self) -> bool {
        &&& 0 <= self.position() < cycle_len()
        &&& !self.started() ==> self.position() == 0
    }

    /// A schedule with polls `poll_interval_secs(poll_secs)` seconds apart.
    pub fn new(poll_secs: u64) -> (r: HaSyncSchedule)
        ensures
            r.wf(),
            !r.started(),
            r.position() == 0,
            r.interval() == (if poll_secs < 5 { 5 } else { poll_secs }),
    {
        HaSyncSchedule { started: false, pos: 0, interval: poll_interval_secs(poll_secs) }
    }

    /// The next step; `configured` is whether HA has a URL and a token.
    pub fn next(&mut self, configured: bool) -> (r: HaSyncStep)
        requires
            old(self).wf(),
        ensures
            final(self).wf(),
            final(self).started(),
            final(self).interval() == old(self).interval(),
            !old(self).started() ==> (r is Sync && final(self).position() == 0),
            old(self).started() ==> ({
                let (st, p) = cycle_step(old(self).position(), configured, old(self).interval());
                r == st && final(self).position() == p
            }),
    {
        if !self.started {
            self.started = true;
            return HaSyncStep::Sync;
        }
        let pos = self.pos;
        if pos == 0 {
            if configured {
                self.pos = 1;
                HaSyncStep::WebSocket
            } else {
                self.pos = 2;
                HaSyncStep::Sleep(self.interval)
            }
        } else if pos % 2 == 1 {
            self.pos = pos + 1;
            HaSyncStep::Sleep(self.interval)
        } else if pos == 2 * POLLS_BEFORE_WS_RETRY {
            self.pos = 0;
            HaSyncStep::Sync
        } else {
            self.pos = pos + 1;
            HaSyncStep::Sync
        }
    }
}

// ---------------------------------------------------------------------------
// URLs (the `url` crate)
// ---------------------------------------------------------------------------

/// What `Url::parse` gives for a text: the serialization of the URL, or the error's text.
pub uninterp spec fn spec_url_parse(s: Seq<char>) -> Result<Seq<char>, Seq<char>>;

/// `Url::scheme` of the URL that a text parses to (`None` when it does not parse).
pub uninterp spec fn spec_url_scheme(u: Seq<char>) -> Option<Seq<char>>;

/// Serialization after `Url::set_scheme` on the URL a text parses to (`None` when
/// it does not parse or the scheme change is refused).
pub uninterp spec fn spec_url_set_scheme(u: Seq<char>, scheme: Seq<char>) -> Option<Seq<char>>;

/// Serialization after `Url::set_path` on the URL a text parses to (`None` when it does not parse).
pub uninterp spec fn spec_url_set_path(u: Seq<char>, path: Seq<char>) -> Option<Seq<char>>;

pub open spec fn result_view(r: Result<String, String>) -> Result<Seq<char>, Seq<char>> {
    match r {
        Ok(x) => Ok(x@),
        Err(e) => Err(e@),
    }
}

/// `url::Url::parse`, then the URL's serialization (or the `ParseError` text).
#[verifier::external_body]
fn url_parse(s: &str) -> (r: Result<String, String>)
    ensures
        result_view(r) == spec_url_parse(s@),
{
    match url::Url::parse(s) {
        Ok(u) => Ok(u.to_string()),
        Err(e) => Err(e.to_string()),
    }
}

/// `url::Url::scheme` of the parsed text.
#[verifier::external_body]
fn url_scheme(u: &str) -> (r: Option<String>)
    ensures
        crate::capability::opt_str_view(r) == spec_url_scheme(u@),
{
    match url::Url::parse(u) {
        Ok(x) => Some(x.scheme().to_string()),
        Err(_) => None,
    }
}

/// `url::Url::set_scheme` on the parsed text, then the serialization.
#[verifier::external_body]
fn url_set_scheme(u: &str, scheme: &str) -> (r: Option<String>)
    ensures
        crate::capability::opt_str_view(r) == spec_url_set_scheme(u@, scheme@),
{
    match url::Url::parse(u) {
        Ok(mut x) => match x.set_scheme(scheme) {
            Ok(()) => Some(x.to_string()),
            Err(()) => None,
        },
        Err(_) => None,
    }
}

/// `url::Url::set_path` on the parsed text, then the serialization.
#[verifier::external_body]
fn url_set_path(u: &str, path: &str) -> (r: Option<String>)
    ensures
        crate::capability::opt_str_view(r) == spec_url_set_path(u@, path@),
{
    match url::Url::parse(u) {
        Ok(mut x) => {
            x.set_path(path);
            Some(x.to_string())
        },
        Err(_) => None,
    }
}

/// The WebSocket endpoint for an HA base URL: same URL with `ws` (`wss` for
/// `https`) and path `/api/websocket`.
pub open spec fn ws_url_spec(base: Seq<char>) -> Result<Seq<char>, HaErrorView> {
    match spec_url_parse(base) {
        Err(e) => Err(HaErrorView::InvalidResponse("bad HA_URL: "@ + e)),
        Ok(u) => {
            let scheme = if spec_url_scheme(u) == Some("https"@) { "wss"@ } else { "ws"@ };
            match spec_url_set_scheme(u, scheme) {
                None => Err(HaErrorView::InvalidResponse("cannot set ws scheme"@)),
                Some(u2) => match spec_url_set_path(u2, "/api/websocket"@) {
                    Some(u3) => Ok(u3),
                    None => Err(HaErrorView::InvalidResponse("cannot set ws scheme"@)),
                },
            }
        },
    }
}

impl HaAdapter {
    /// WebSocket URL for this HA instance (requires configuration).
    pub fn ws_url(&self) -> (r: Result<String, HaError>)
        ensures
            !self.configured() ==> (r matches Err(e) && e@ == HaErrorView::NotConfigured),
            self.configured() ==> match r {
                Ok(u) => ws_url_spec(self.base_url@) == Ok::<Seq<char>, HaErrorView>(u@),
                Err(e) => ws_url_spec(self.base_url@) == Err::<Seq<char>, HaErrorView>(e@),
            },
    {
        self.ensure_configured()?;
        let u = match url_parse(self.base_url.as_str()) {
            Ok(u) => u,
            Err(e) => {
                return Err(HaError::InvalidResponse(text::concat("bad HA_URL: ", e.as_str())));
            },
        };
        let https = match url_scheme(u.as_str()) {
            Some(s) => text::eq(s.as_str(), "https"),
            None => false,
        };
        let scheme = if https { "wss" } else { "ws" };
        let u2 = match url_set_scheme(u.as_str(), scheme) {
            Some(x) => x,
            None => {
                return Err(HaError::InvalidResponse(text::owned("cannot set ws scheme")));
            },
        };
        match url_set_path(u2.as_str(), "/api/websocket") {
            Some(x) => Ok(x),
            None => Err(HaError::InvalidResponse(text::owned("cannot set ws scheme"))),
        }
    }
}

// ---------------------------------------------------------------------------
// WebSocket session
// ---------------------------------------------------------------------------

/// A frame (or read failure) on the HA WebSocket, text frames with their JSON parse.
pub enum WsIncoming {
    Text { raw: String, parsed: Result<JsonValue, String> },
    Ping(Vec<u8>),
    Close,
    Other,
    ReadError(String),
}

/// What the session does with a frame.
pub enum HaWsAction {
    /// Nothing to do.
    Continue,
    /// Answer a ping (send errors are ignored).
    Pong(Vec<u8>),
    /// Send a JSON text frame; a send failure ends the session with `Unreachable("<context>: <error>")`.
    Send { payload: JsonValue, context: String },
    /// Authenticated: mark HA connected, then send the subscription (context `ws subscribe`).
    Authenticated { subscribe: JsonValue },
    /// A changed entity to publish and store.
    StateChanged(DeviceEntity),
    /// End the session with this error.
    Fail(HaError),
    /// The server closed: end the session cleanly.
    Stop,
}

pub enum WsIncomingView {
    Text { raw: Seq<char>, parsed: Result<JsonView, Seq<char>> },
    Ping(Seq<u8>),
    Close,
    Other,
    ReadError(Seq<char>),
}

pub enum HaWsActionView {
    Continue,
    Pong(Seq<u8>),
    Send { payload: JsonView, context: Seq<char> },
    Authenticated { subscribe: JsonView },
    StateChanged(EntityView),
    Fail(HaErrorView),
    Stop,
}

impl View for WsIncoming {
    type V = WsIncomingView;

    open spec fn view(&self) -> WsIncomingView {
        match self {
            WsIncoming::Text { raw, parsed } => WsIncomingView::Text {
                raw: raw@,
                parsed: match parsed {
                    Ok(j) => Ok(j@),
                    Err(e) => Err(e@),
                },
            },
            WsIncoming::Ping(p) => WsIncomingView::Ping(p@),
            WsIncoming::Close => WsIncomingView::Close,
            WsIncoming::Other => WsIncomingView::Other,
            WsIncoming::ReadError(e) => WsIncomingView::ReadError(e@),
        }
    }
}

impl View for HaWsAction {
    type V = HaWsActionView;

    open spec fn view(&self) -> HaWsActionView {
        match self {
            HaWsAction::Continue => HaWsActionView::Continue,
            HaWsAction::Pong(p) => HaWsActionView::Pong(p@),
            HaWsAction::Send { payload, context } => HaWsActionView::Send { payload: payload@, context: context@ },
            HaWsAction::Authenticated { subscribe } => HaWsActionView::Authenticated { subscribe: subscribe@ },
            HaWsAction::StateChanged(e) => HaWsActionView::StateChanged(e@),
            HaWsAction::Fail(e) => HaWsActionView::Fail(e@),
            HaWsAction::Stop => HaWsActionView::Stop,
        }
    }
}

/// `{"type": "auth", "access_token": <token>}`.
pub open spec fn auth_message(token: Seq<char>) -> JsonView {
    JsonView::Object(seq![("type"@, JsonView::Str("auth"@)), ("access_token"@, JsonView::Str(token))])
}

/// `{"id": <id>, "type": "subscribe_events", "event_type": "state_changed"}`.
pub open spec fn subscribe_message(id: u64) -> JsonView {
    JsonView::Object(seq![
        ("id"@, JsonView::Number(NumberView::PosInt(id, None))),
        ("type"@, JsonView::Str("subscribe_events"@)),
        ("event_type"@, JsonView::Str("state_changed"@)),
    ])
}

/// `/event/data/new_state` of a message.
pub open spec fn new_state_of(v: JsonView) -> Option<JsonView> {
    match json::get(v, "event"@) {
        Some(e) => match json::get(e, "data"@) {
            Some(d) => json::get(d, "new_state"@),
            None => None,
        },
        None => None,
    }
}

/// The session's reaction to one frame, with the next subscription id.
pub open spec fn ws_step(msg_id: u64, token: Seq<char>, m: WsIncomingView) -> (u64, HaWsActionView) {
    match m {
        WsIncomingView::ReadError(e) => (msg_id, HaWsActionView::Fail(HaErrorView::Unreachable("ws read: "@ + e))),
        WsIncomingView::Ping(p) => (msg_id, HaWsActionView::Pong(p)),
        WsIncomingView::Close => (msg_id, HaWsActionView::Stop),
        WsIncomingView::Other => (msg_id, HaWsActionView::Continue),
        WsIncomingView::Text { raw, parsed } => match parsed {
            Err(e) => (msg_id, HaWsActionView::Fail(HaErrorView::InvalidResponse(e))),
            Ok(v) => {
                let t = match json::as_str(json::get(v, "type"@)) {
                    Some(t) => t,
                    None => Seq::empty(),
                };
                if t == "auth_required"@ {
                    (msg_id, HaWsActionView::Send { payload: auth_message(token), context: "ws auth send"@ })
                } else if t == "auth_ok"@ {
                    ((msg_id + 1) as u64, HaWsActionView::Authenticated { subscribe: subscribe_message(msg_id) })
                } else if t == "auth_invalid"@ {
                    (msg_id, HaWsActionView::Fail(HaErrorView::Api { status: 401, body: raw }))
                } else if t == "event"@ {
                    match new_state_of(v) {
                        Some(ns) => if ns == JsonView::Null {
                            (msg_id, HaWsActionView::Continue)
                        } else {
                            match ha_state_of(ns) {
                                Some(s) => (msg_id, HaWsActionView::StateChanged(state_entity(s))),
                                None => (msg_id, HaWsActionView::Continue),
                            }
                        },
                        None => (msg_id, HaWsActionView::Continue),
                    }
                } else {
                    (msg_id, HaWsActionView::Continue)
                }
            },
        },
    }
}

/// The Hub side of an HA WebSocket session: authenticate, subscribe to
/// `state_changed`, and turn events into entity updates.
pub struct HaWsSession {
    pub msg_id: u64,
    pub token: String,
}

impl HaWsSession {
    /// A session that will authenticate with `token`; subscriptions are numbered from 1.
    pub fn new(token: &str) -> (r: HaWsSession)
        ensures
            r.msg_id == 1,
            r.token@ == token@,
    {
        HaWsSession { msg_id: 1, token: text::owned(token) }
    }

    /// Reacts to one frame.
    pub fn on_message(&mut self, m: WsIncoming) -> (r: HaWsAction)
        requires
            old(self).msg_id < u64::MAX,
        ensures
            final(self).token@ == old(self).token@,
            (final(self).msg_id, r@) == ws_step(old(self).msg_id, old(self).token@, m@),
    {
        match m {
            WsIncoming::ReadError(e) => HaWsAction::Fail(HaError::Unreachable(text::concat("ws read: ", e.as_str()))),
            WsIncoming::Ping(p) => HaWsAction::Pong(p),
            WsIncoming::Close => HaWsAction::Stop,
            WsIncoming::Other => HaWsAction::Continue,
            WsIncoming::Text { raw, parsed } => match parsed {
                Err(e) => HaWsAction::Fail(HaError::InvalidResponse(e)),
                Ok(v) => {
                    let t: String = match v.get("type") {
                        Some(x) => match x.as_str() {
                            Some(s) => text::owned(s),
                            None => String::new(),
                        },
                        None => String::new(),
                    };
                    let ts = t.as_str();
                    if text::eq(ts, "auth_required") {
                        let mut e: Vec<(String, JsonValue)> = Vec::new();
                        json::push_entry(&mut e, "type", JsonValue::str("auth"));
                        json::push_entry(&mut e, "access_token", JsonValue::str(self.token.as_str()));
                        proof {
                            assert(entries_view(e@) =~= seq![("type"@, JsonView::Str("auth"@)), ("access_token"@, JsonView::Str(self.token@))]);
                        }
                        HaWsAction::Send { payload: JsonValue::object(e), context: text::owned("ws auth send") }
                    } else if text::eq(ts, "auth_ok") {
                        let mut e: Vec<(String, JsonValue)> = Vec::new();
                        json::push_entry(&mut e, "id", JsonValue::uint(self.msg_id));
                        json::push_entry(&mut e, "type", JsonValue::str("subscribe_events"));
                        json::push_entry(&mut e, "event_type", JsonValue::str("state_changed"));
                        proof {
                            assert(entries_view(e@) =~= seq![
                                ("id"@, JsonView::Number(NumberView::PosInt(self.msg_id, None))),
                                ("type"@, JsonView::Str("subscribe_events"@)),
                                ("event_type"@, JsonView::Str("state_changed"@)),
                            ]);
                        }
                        self.msg_id = self.msg_id + 1;
                        HaWsAction::Authenticated { subscribe: JsonValue::object(e) }
                    } else if text::eq(ts, "auth_invalid") {
                        HaWsAction::Fail(HaError::Api { status: 401, body: raw })
                    } else if text::eq(ts, "event") {
                        let ns = match v.get("event") {
                            Some(e) => match e.get("data") {
                                Some(d) => d.get("new_state"),
                                None => None,
                            },
                            None => None,
                        };
                        match ns {
                            Some(JsonValue::Null) => HaWsAction::Continue,
                            Some(n) => match HaState::from_json(n) {
                                Some(s) => HaWsAction::StateChanged(HaAdapter::state_to_entity(&s)),
                                None => HaWsAction::Continue,
                            },
                            None => HaWsAction::Continue,
                        }
                    } else {
                        HaWsAction::Continue
                    }
                },
            },
        }
    }
}

} // verus!
