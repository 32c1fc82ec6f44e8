//! JSON encodings of the library's own records (capabilities, entities), as the
//! northbound API and tool responses carry them, and the capability summaries.

use vstd::prelude::*;
use crate::capability::{ActionSpec, ActionView, Capability, CapabilityKind, CapabilityView, ParamSpec, ParamView, caps_view, params_view};
use crate::json::{self, FloatView, JsonValue, JsonView, NumberView, entries_view};
use crate::registry::{DeviceEntity, EntityType, EntityView};
use crate::store;
use crate::text;

verus! {

broadcast use vstd::string::group_string_axioms;

// ---------------------------------------------------------------------------
// Specification
// ---------------------------------------------------------------------------

/// snake_case name of a capability kind.
pub open spec fn kind_label(k: CapabilityKind) -> Seq<char> {
    match k {
        CapabilityKind::OnOff => "on_off"@,
        CapabilityKind::Brightness => "brightness"@,
        CapabilityKind::ColorTemp => "color_temp"@,
        CapabilityKind::Color => "color"@,
        CapabilityKind::Thermostat => "thermostat"@,
        CapabilityKind::HvacMode => "hvac_mode"@,
        CapabilityKind::OpenClose => "open_close"@,
        CapabilityKind::FanSpeed => "fan_speed"@,
        CapabilityKind::SensorRead => "sensor_read"@,
    }
}

/// snake_case name of an entity type.
pub open spec fn type_label(t: EntityType) -> Seq<char> {
    match t {
        EntityType::Light => "light"@,
        EntityType::Climate => "climate"@,
        EntityType::Switch => "switch"@,
        EntityType::Sensor => "sensor"@,
        EntityType::BinarySensor => "binary_sensor"@,
        EntityType::Cover => "cover"@,
        EntityType::Fan => "fan"@,
        EntityType::Other => "other"@,
    }
}

/// Appends `(key, v)` when `v` is present (a field skipped when `None`).
pub open spec fn push_opt(e: Seq<(Seq<char>, JsonView)>, key: Seq<char>, v: Option<JsonView>) -> Seq<(Seq<char>, JsonView)> {
    match v {
        Some(x) => e.push((key, x)),
        None => e,
    }
}

pub open spec fn float_json(f: Option<FloatView>) -> Option<JsonView> {
    match f {
        Some(x) => Some(JsonView::Number(NumberView::Float(x))),
        None => None,
    }
}

pub open spec fn str_json(s: Option<Seq<char>>) -> Option<JsonView> {
    match s {
        Some(x) => Some(JsonView::Str(x)),
        None => None,
    }
}

pub open spec fn strs_json(v: Seq<Seq<char>>) -> JsonView {
    JsonView::Array(v.map_values(|x: Seq<char>| JsonView::Str(x)))
}

pub open spec fn strs_opt_json(v: Option<Seq<Seq<char>>>) -> Option<JsonView> {
    match v {
        Some(x) => Some(strs_json(x)),
        None => None,
    }
}

/// A parameter as serialized: `name`, `type`, `required`, then the optional
/// `minimum`, `maximum`, `enum`, `description` when present.
pub open spec fn param_json(p: ParamView) -> JsonView {
    JsonView::Object(
        push_opt(
            push_opt(
                push_opt(
                    push_opt(
                        seq![
                            ("name"@, JsonView::Str(p.name)),
                            ("type"@, JsonView::Str(p.param_type)),
                            ("required"@, JsonView::Bool(p.required)),
                        ],
                        "minimum"@,
                        float_json(p.minimum),
                    ),
                    "maximum"@,
                    float_json(p.maximum),
                ),
                "enum"@,
                strs_opt_json(p.enum_values),
            ),
            "description"@,
            str_json(p.description),
        ),
    )
}

/// An action as serialized: `name`, optional `description`, `params`.
pub open spec fn action_json(a: ActionView) -> JsonView {
    JsonView::Object(
        push_opt(seq![("name"@, JsonView::Str(a.name))], "description"@, str_json(a.description))
            .push(("params"@, JsonView::Array(a.params.map_values(|p: ParamView| param_json(p))))),
    )
}

/// A capability as serialized: `kind`, `actions`.
pub open spec fn capability_json(c: CapabilityView) -> JsonView {
    JsonView::Object(seq![
        ("kind"@, JsonView::Str(kind_label(c.kind))),
        ("actions"@, JsonView::Array(c.actions.map_values(|a: ActionView| action_json(a)))),
    ])
}

pub open spec fn capabilities_json(caps: Seq<CapabilityView>) -> JsonView {
    JsonView::Array(caps.map_values(|c: CapabilityView| capability_json(c)))
}

/// An entity as serialized: every field, `brand` only when known.
pub open spec fn entity_json(e: EntityView) -> JsonView {
    JsonView::Object(
        push_opt(
            seq![
                ("entity_id"@, JsonView::Str(e.entity_id)),
                ("entity_type"@, JsonView::Str(type_label(e.entity_type))),
                ("friendly_name"@, JsonView::Str(e.friendly_name)),
                ("state"@, JsonView::Str(e.state)),
                ("attributes"@, JsonView::Object(e.attributes)),
                ("available"@, JsonView::Bool(e.available)),
                ("source"@, JsonView::Str(e.source)),
            ],
            "brand"@,
            str_json(e.brand),
        ) + seq![
            ("is_faker"@, JsonView::Bool(e.is_faker)),
            ("capabilities"@, capabilities_json(e.capabilities)),
        ],
    )
}

/// All action names, capability by capability.
pub open spec fn all_action_names(caps: Seq<CapabilityView>) -> Seq<Seq<char>>
    decreases caps.len(),
{
    if caps.len() == 0 {
        Seq::empty()
    } else {
        all_action_names(caps.drop_last()) + caps.last().actions.map_values(|a: ActionView| a.name)
    }
}

/// The distinct action names of `caps`, in increasing order.
pub open spec fn sorted_action_names(caps: Seq<CapabilityView>) -> Seq<Seq<char>> {
    choose|s: Seq<Seq<char>>| store::strictly_sorted(s) && s.to_set() == all_action_names(caps).to_set()
}

/// Summary object: `kinds` (one label per capability), `actions` (sorted,
/// distinct action names) and the capabilities themselves.
pub open spec fn summary_json(caps: Seq<CapabilityView>) -> JsonView {
    JsonView::Object(seq![
        ("kinds"@, strs_json(caps.map_values(|c: CapabilityView| kind_label(c.kind)))),
        ("actions"@, strs_json(sorted_action_names(caps))),
        ("capabilities"@, capabilities_json(caps)),
    ])
}

// ---------------------------------------------------------------------------
// Executable encoders
// ---------------------------------------------------------------------------

pub fn kind_str(k: CapabilityKind) -> (r: &'static str)
    ensures
        r@ == kind_label(k),
{
    match k {
        CapabilityKind::OnOff => "on_off",
        CapabilityKind::Brightness => "brightness",
        CapabilityKind::ColorTemp => "color_temp",
        CapabilityKind::Color => "color",
        CapabilityKind::Thermostat => "thermostat",
        CapabilityKind::HvacMode => "hvac_mode",
        CapabilityKind::OpenClose => "open_close",
        CapabilityKind::FanSpeed => "fan_speed",
        CapabilityKind::SensorRead => "sensor_read",
    }
}

pub fn type_str(t: EntityType) -> (r: &'static str)
    ensures
        r@ == type_label(t),
{
    match t {
        EntityType::Light => "light",
        EntityType::Climate => "climate",
        EntityType::Switch => "switch",
        EntityType::Sensor => "sensor",
        EntityType::BinarySensor => "binary_sensor",
        EntityType::Cover => "cover",
        EntityType::Fan => "fan",
        EntityType::Other => "other",
    }
}

fn push_field(e: &mut Vec<(String, JsonValue)>, key: &str, v: Option<JsonValue>)
    ensures
        entries_view(final(e)@) == push_opt(entries_view(old(e)@), key@, match v { Some(x) => Some(x@), None => None }),
{
    match v {
        Some(x) => json::push_entry(e, key, x),
        None => {},
    }
}

fn opt_str(s: &Option<String>) -> (r: Option<JsonValue>)
    ensures
        (match r { Some(x) => Some(x@), None => None }) == str_json(crate::capability::opt_str_view(*s)),
{
    match s {
        Some(x) => Some(JsonValue::str(x.as_str())),
        None => None,
    }
}

/// Serialized parameter.
pub fn param_to_json(p: &ParamSpec) -> (r: JsonValue)
    ensures
        r@ == param_json(p@),
{
    let mut e: Vec<(String, JsonValue)> = Vec::new();
    json::push_entry(&mut e, "name", JsonValue::str(p.name.as_str()));
    json::push_entry(&mut e, "type", JsonValue::str(p.param_type.as_str()));
    json::push_entry(&mut e, "required", JsonValue::Bool(p.required));
    proof {
        assert(entries_view(e@) =~= seq![
            ("name"@, JsonView::Str(p@.name)),
            ("type"@, JsonView::Str(p@.param_type)),
            ("required"@, JsonView::Bool(p@.required)),
        ]);
    }
    let min = match &p.minimum {
        Some(f) => Some(JsonValue::float(f.copy())),
        None => None,
    };
    push_field(&mut e, "minimum", min);
    let max = match &p.maximum {
        Some(f) => Some(JsonValue::float(f.copy())),
        None => None,
    };
    push_field(&mut e, "maximum", max);
    let en = match &p.enum_values {
        Some(v) => {
            let a = JsonValue::str_array(v);
            proof {
                if let JsonView::Array(x) = a@ {
                    assert(x =~= text::strings_view(v@).map_values(|s: Seq<char>| JsonView::Str(s)));
                }
            }
            Some(a)
        },
        None => None,
    };
    push_field(&mut e, "enum", en);
    push_field(&mut e, "description", opt_str(&p.description));
    JsonValue::object(e)
}

/// Serialized list of parameters.
pub fn params_to_json(ps: &Vec<ParamSpec>) -> (r: JsonValue)
    ensures
        r@ == JsonView::Array(params_view(ps@).map_values(|p: ParamView| param_json(p))),
{
    let mut out: Vec<JsonValue> = Vec::new();
    let mut i: usize = 0;
    while i < ps.len()
        invariant
            i <= ps@.len(),
            out@.len() == i,
            forall|k: int| 0 <= k < i ==> json::json_view(#[trigger] out@[k]) == param_json(ps@[k]@),
        decreases ps.len() - i,
    {
        out.push(param_to_json(&ps[i]));
        i = i + 1;
    }
    proof {
        assert(json::values_view(out@) =~= params_view(ps@).map_values(|p: ParamView| param_json(p)));
    }
    JsonValue::array(out)
}

/// Serialized action.
pub fn action_to_json(a: &ActionSpec) -> (r: JsonValue)
    ensures
        r@ == action_json(a@),
{
    let mut e: Vec<(String, JsonValue)> = Vec::new();
    json::push_entry(&mut e, "name", JsonValue::str(a.name.as_str()));
    proof {
        assert(entries_view(e@) =~= seq![("name"@, JsonView::Str(a@.name))]);
    }
    push_field(&mut e, "description", opt_str(&a.description));
    json::push_entry(&mut e, "params", params_to_json(&a.params));
    JsonValue::object(e)
}

/// Serialized capability.
pub fn capability_to_json(c: &Capability) -> (r: JsonValue)
    ensures
        r@ == capability_json(c@),
{
    let mut acts: Vec<JsonValue> = Vec::new();
    let mut i: usize = 0;
    while i < c.actions.len()
        invariant
            i <= c.actions@.len(),
            acts@.len() == i,
            forall|k: int| 0 <= k < i ==> json::json_view(#[trigger] acts@[k]) == action_json(c.actions@[k]@),
        decreases c.actions.len() - i,
    {
        acts.push(action_to_json(&c.actions[i]));
        i = i + 1;
    }
    proof {
        assert(json::values_view(acts@) =~= c@.actions.map_values(|a: ActionView| action_json(a)));
    }
    let mut e: Vec<(String, JsonValue)> = Vec::new();
    json::push_entry(&mut e, "kind", JsonValue::str(kind_str(c.kind)));
    json::push_entry(&mut e, "actions", JsonValue::array(acts));
    proof {
        assert(entries_view(e@) =~= seq![
            ("kind"@, JsonView::Str(kind_label(c@.kind))),
            ("actions"@, JsonView::Array(c@.actions.map_values(|a: ActionView| action_json(a)))),
        ]);
    }
    JsonValue::object(e)
}

/// Serialized list of capabilities.
pub fn capabilities_to_json(caps: &Vec<Capability>) -> (r: JsonValue)
    ensures
        r@ == capabilities_json(caps_view(caps@)),
{
    let mut out: Vec<JsonValue> = Vec::new();
    let mut i: usize = 0;
    while i < caps.len()
        invariant
            i <= caps@.len(),
            out@.len() == i,
            forall|k: int| 0 <= k < i ==> json::json_view(#[trigger] out@[k]) == capability_json(caps@[k]@),
        decreases caps.len() - i,
    {
        out.push(capability_to_json(&caps[i]));
        i = i + 1;
    }
    proof {
        assert(json::values_view(out@) =~= caps_view(caps@).map_values(|c: CapabilityView| capability_json(c)));
    }
    JsonValue::array(out)
}

impl DeviceEntity {
    /// The entity as the API serializes it.
    pub fn to_json(&self) -> (r: JsonValue)
        ensures
            r@ == entity_json(self@),
    {
        let mut e: Vec<(String, JsonValue)> = Vec::new();
        json::push_entry(&mut e, "entity_id", JsonValue::str(self.entity_id.as_str()));
        json::push_entry(&mut e, "entity_type", JsonValue::str(type_str(self.entity_type)));
        json::push_entry(&mut e, "friendly_name", JsonValue::str(self.friendly_name.as_str()));
        json::push_entry(&mut e, "state", JsonValue::str(self.state.as_str()));
        json::push_entry(&mut e, "attributes", JsonValue::object(json::clone_entries(&self.attributes)));
        json::push_entry(&mut e, "available", JsonValue::Bool(self.available));
        json::push_entry(&mut e, "source", JsonValue::str(self.source.as_str()));
        let ghost base = entries_view(e@);
        proof {
            assert(base =~= seq![
                ("entity_id"@, JsonView::Str(self@.entity_id)),
                ("entity_type"@, JsonView::Str(type_label(self@.entity_type))),
                ("friendly_name"@, JsonView::Str(self@.friendly_name)),
                ("state"@, JsonView::Str(self@.state)),
                ("attributes"@, JsonView::Object(self@.attributes)),
                ("available"@, JsonView::Bool(self@.available)),
                ("source"@, JsonView::Str(self@.source)),
            ]);
        }
        push_field(&mut e, "brand", opt_str(&self.brand));
        let ghost mid = entries_view(e@);
        json::push_entry(&mut e, "is_faker", JsonValue::Bool(self.is_faker));
        json::push_entry(&mut e, "capabilities", capabilities_to_json(&self.capabilities));
        proof {
            assert(entries_view(e@) =~= mid + seq![
                ("is_faker"@, JsonView::Bool(self@.is_faker)),
                ("capabilities"@, capabilities_json(self@.capabilities)),
            ]);
        }
        JsonValue::object(e)
    }
}

/// Serialized device, or `null`.
pub fn opt_entity_to_json(d: &Option<DeviceEntity>) -> (r: JsonValue)
    ensures
        r@ == match d { Some(e) => entity_json(e@), None => JsonView::Null },
{
    match d {
        Some(e) => e.to_json(),
        None => JsonValue::Null,
    }
}

// ---------------------------------------------------------------------------
// Capability summaries
// ---------------------------------------------------------------------------

/// Names of the actions of `c`, appended to `out`.
fn push_action_names(out: &mut Vec<String>, c: &Capability)
    ensures
        text::strings_view(final(out)@) == text::strings_view(old(out)@) + c@.actions.map_values(|a: ActionView| a.name),
{
    let ghost o = text::strings_view(out@);
    let mut i: usize = 0;
    while i < c.actions.len()
        invariant
            i <= c.actions@.len(),
            text::strings_view(out@) == o + c@.actions.take(i as int).map_values(|a: ActionView| a.name),
        decreases c.actions.len() - i,
    {
        let ghost before = out@;
        out.push(c.actions[i].name.clone());
        proof {
            assert(text::strings_view(out@) =~= text::strings_view(before).push(c@.actions[i as int].name));
            assert(c@.actions.take(i + 1).map_values(|a: ActionView| a.name)
                =~= c@.actions.take(i as int).map_values(|a: ActionView| a.name).push(c@.actions[i as int].name));
        }
        i = i + 1;
    }
    proof {
        assert(c@.actions.take(i as int) =~= c@.actions);
    }
}

impl Capability {
    /// All action names across capabilities, sorted, each once.
    pub fn action_names(caps: &Vec<Capability>) -> (r: Vec<String>)
        ensures
            store::strictly_sorted(text::strings_view(r@)),
            text::strings_view(r@).to_set() == all_action_names(caps_view(caps@)).to_set(),
            text::strings_view(r@) == sorted_action_names(caps_view(caps@)),
    {
        let mut names: Vec<String> = Vec::new();
        let mut i: usize = 0;
        while i < caps.len()
            invariant
                i <= caps@.len(),
                text::strings_view(names@) == all_action_names(caps_view(caps@).take(i as int)),
            decreases caps.len() - i,
        {
            push_action_names(&mut names, &caps[i]);
            proof {
                let t = caps_view(caps@).take(i + 1);
                assert(t.drop_last() =~= caps_view(caps@).take(i as int));
                assert(t.last() == caps@[i as int]@);
            }
            i = i + 1;
        }
        proof {
            assert(caps_view(caps@).take(caps@.len() as int) =~= caps_view(caps@));
        }
        let r = store::sorted_unique(names);
        proof {
            let rs = text::strings_view(r@);
            let c = sorted_action_names(caps_view(caps@));
            assert(store::strictly_sorted(rs) && rs.to_set() == all_action_names(caps_view(caps@)).to_set());
            assert(store::strictly_sorted(c) && c.to_set() == all_action_names(caps_view(caps@)).to_set());
            store::lemma_sorted_set_unique(rs, c);
        }
        r
    }

    /// Compact JSON summary for tool responses: kinds, sorted action names, capabilities.
    pub fn summarize(caps: &Vec<Capability>) -> (r: JsonValue)
        ensures
            r@ == summary_json(caps_view(caps@)),
    {
        let mut kinds: Vec<String> = Vec::new();
        let mut i: usize = 0;
        while i < caps.len()
            invariant
                i <= caps@.len(),
                kinds@.len() == i,
                forall|k: int| 0 <= k < i ==> (#[trigger] kinds@[k])@ == kind_label(caps@[k].kind),
            decreases caps.len() - i,
        {
            kinds.push(text::owned(kind_str(caps[i].kind)));
            i = i + 1;
        }
        let names = Capability::action_names(caps);
        let kj = JsonValue::str_array(&kinds);
        let nj = JsonValue::str_array(&names);
        proof {
            if let JsonView::Array(x) = kj@ {
                assert(x =~= caps_view(caps@).map_values(|c: CapabilityView| kind_label(c.kind)).map_values(|x: Seq<char>| JsonView::Str(x)));
            }
            if let JsonView::Array(x) = nj@ {
                assert(x =~= text::strings_view(names@).map_values(|x: Seq<char>| JsonView::Str(x)));
            }
        }
        let mut e: Vec<(String, JsonValue)> = Vec::new();
        json::push_entry(&mut e, "kinds", kj);
        json::push_entry(&mut e, "actions", nj);
        json::push_entry(&mut e, "capabilities", capabilities_to_json(caps));
        proof {
            assert(entries_view(e@) =~= seq![
                ("kinds"@, strs_json(caps_view(caps@).map_values(|c: CapabilityView| kind_label(c.kind)))),
                ("actions"@, strs_json(sorted_action_names(caps_view(caps@)))),
                ("capabilities"@, capabilities_json(caps_view(caps@))),
            ]);
        }
        JsonValue::object(e)
    }
}

// ---------------------------------------------------------------------------
// Tool parameter schema
// ---------------------------------------------------------------------------

/// Schema of one parameter: `type`, then `description`, `minimum`, `maximum`, `enum` when present.
pub open spec fn param_schema(p: ParamView) -> JsonView {
    JsonView::Object(
        push_opt(
            push_opt(
                push_opt(push_opt(seq![("type"@, JsonView::Str(p.param_type))], "description"@, str_json(p.description)),
                    "minimum"@, float_json(p.minimum)),
                "maximum"@,
                float_json(p.maximum),
            ),
            "enum"@,
            strs_opt_json(p.enum_values),
        ),
    )
}

/// `properties`: each parameter's schema stored under its name (a later one replaces an earlier).
pub open spec fn schema_properties(ps: Seq<ParamView>) -> Seq<(Seq<char>, JsonView)>
    decreases ps.len(),
{
    if ps.len() == 0 {
        Seq::empty()
    } else {
        json::put(schema_properties(ps.drop_last()), ps.last().name, param_schema(ps.last()))
    }
}

/// Names of the required parameters, in order.
pub open spec fn required_names(ps: Seq<ParamView>) -> Seq<Seq<char>> {
    ps.filter(|p: ParamView| p.required).map_values(|p: ParamView| p.name)
}

/// The JSON-Schema object for a parameter list.
pub open spec fn params_schema(ps: Seq<ParamView>) -> JsonView {
    JsonView::Object(seq![
        ("type"@, JsonView::Str("object"@)),
        ("properties"@, JsonView::Object(schema_properties(ps))),
        ("required"@, strs_json(required_names(ps))),
    ])
}

fn param_schema_exec(p: &ParamSpec) -> (r: JsonValue)
    ensures
        r@ == param_schema(p@),
{
    let mut e: Vec<(String, JsonValue)> = Vec::new();
    json::push_entry(&mut e, "type", JsonValue::str(p.param_type.as_str()));
    proof {
        assert(entries_view(e@) =~= seq![("type"@, JsonView::Str(p@.param_type))]);
    }
    push_field(&mut e, "description", opt_str(&p.description));
    let min = match &p.minimum {
        Some(f) => Some(JsonValue::float(f.copy())),
        None => None,
    };
    push_field(&mut e, "minimum", min);
    let max = match &p.maximum {
        Some(f) => Some(JsonValue::float(f.copy())),
        None => None,
    };
    push_field(&mut e, "maximum", max);
    let en = match &p.enum_values {
        Some(v) => {
            let a = JsonValue::str_array(v);
            proof {
                if let JsonView::Array(x) = a@ {
                    assert(x =~= text::strings_view(v@).map_values(|s: Seq<char>| JsonView::Str(s)));
                }
            }
            Some(a)
        },
        None => None,
    };
    push_field(&mut e, "enum", en);
    JsonValue::object(e)
}

/// Build an OpenAI-style JSON Schema object from a parameter list (for dynamic tools).
pub fn params_to_json_schema(params: &Vec<ParamSpec>) -> (r: JsonValue)
    ensures
        r@ == params_schema(params_view(params@)),
{
    let ghost pv = params_view(params@);
    let mut properties: Vec<(String, JsonValue)> = Vec::new();
    let mut required: Vec<String> = Vec::new();
    let mut i: usize = 0;
    while i < params.len()
        invariant
            i <= params@.len(),
            pv == params_view(params@),
            entries_view(properties@) == schema_properties(pv.take(i as int)),
            text::strings_view(required@) == required_names(pv.take(i as int)),
        decreases params.len() - i,
    {
        let p = &params[i];
        let ghost before = text::strings_view(required@);
        proof {
            let t = pv.take(i + 1);
            assert(t.drop_last() =~= pv.take(i as int));
            assert(t.last() == p@);
            reveal(Seq::filter);
            assert(t.filter(|q: ParamView| q.required) == if p@.required {
                pv.take(i as int).filter(|q: ParamView| q.required).push(p@)
            } else {
                pv.take(i as int).filter(|q: ParamView| q.required)
            });
        }
        json::put_entry(&mut properties, p.name.as_str(), param_schema_exec(p));
        if p.required {
            required.push(p.name.clone());
            proof {
                assert(text::strings_view(required@) =~= before.push(p@.name));
                assert(required_names(pv.take(i + 1)) =~= required_names(pv.take(i as int)).push(p@.name));
            }
        } else {
            proof {
                assert(required_names(pv.take(i + 1)) =~= required_names(pv.take(i as int)));
            }
        }
        i = i + 1;
    }
    proof {
        assert(pv.take(params@.len() as int) =~= pv);
    }
    let req = JsonValue::str_array(&required);
    proof {
        if let JsonView::Array(x) = req@ {
            assert(x =~= text::strings_view(required@).map_values(|s: Seq<char>| JsonView::Str(s)));
        }
    }
    let mut e: Vec<(String, JsonValue)> = Vec::new();
    json::push_entry(&mut e, "type", JsonValue::str("object"));
    json::push_entry(&mut e, "properties", JsonValue::object(properties));
    json::push_entry(&mut e, "required", req);
    proof {
        assert(entries_view(e@) =~= seq![
            ("type"@, JsonView::Str("object"@)),
            ("properties"@, JsonView::Object(schema_properties(pv))),
            ("required"@, strs_json(required_names(pv))),
        ]);
    }
    JsonValue::object(e)
}

} // verus!
