//! Machine-readable device capabilities for Agent / MCP tool planning.
//!
//! Derived from entity type + HA-style attributes (supported_features,
//! hvac_modes, min/max temp, brightness, …). Keeps the Hub northbound
//! contract independent of any single southbound backend.

use vstd::prelude::*;
use crate::json::{self, Float64, FloatView, JsonValue, JsonView, entries_view};
use crate::registry::EntityType;
use crate::text;

verus! {

broadcast use vstd::string::group_string_axioms;

/// High-level capability class an entity exposes.
#[derive(Clone, Copy, Debug, PartialEq, Eq, Structural)]
pub enum CapabilityKind {
    OnOff,
    Brightness,
    ColorTemp,
    Color,
    Thermostat,
    HvacMode,
    OpenClose,
    FanSpeed,
    SensorRead,
}

/// One parameter accepted by an action. `param_type` is JSON-schema-ish:
/// number | integer | string | boolean. `enum_values` lists allowed strings.
pub struct ParamSpec {
    pub name: String,
    pub param_type: String,
    pub required: bool,
    pub minimum: Option<Float64>,
    pub maximum: Option<Float64>,
    pub enum_values: Option<Vec<String>>,
    pub description: Option<String>,
}

/// One controllable action (e.g. `turn_on`, `set_temperature`).
pub struct ActionSpec {
    pub name: String,
    pub description: Option<String>,
    pub params: Vec<ParamSpec>,
}

/// A capability cluster: kind + the actions that implement it.
pub struct Capability {
    pub kind: CapabilityKind,
    pub actions: Vec<ActionSpec>,
}

pub struct ParamView {
    pub name: Seq<char>,
    pub param_type: Seq<char>,
    pub required: bool,
    pub minimum: Option<FloatView>,
    pub maximum: Option<FloatView>,
    pub enum_values: Option<Seq<Seq<char>>>,
    pub description: Option<Seq<char>>,
}

pub struct ActionView {
    pub name: Seq<char>,
    pub description: Option<Seq<char>>,
    pub params: Seq<ParamView>,
}

pub struct CapabilityView {
    pub kind: CapabilityKind,
    pub actions: Seq<ActionView>,
}

pub open spec fn opt_str_view(s: Option<String>) -> Option<Seq<char>> {
    match s {
        Some(x) => Some(x@),
        None => None,
    }
}

impl View for ParamSpec {
    type V = ParamView;

    open spec fn view(&self) -> ParamView {
        ParamView {
            name: self.name@,
            param_type: self.param_type@,
            required: self.required,
            minimum: json::opt_float_view(self.minimum),
            maximum: json::opt_float_view(self.maximum),
            enum_values: match self.enum_values {
                Some(v) => Some(text::strings_view(v@)),
                None => None,
            },
            description: opt_str_view(self.description),
        }
    }
}

pub open spec fn params_view(v: Seq<ParamSpec>) -> Seq<ParamView> {
    v.map_values(|p: ParamSpec| p@)
}

impl View for ActionSpec {
    type V = ActionView;

    open spec fn view(&self) -> ActionView {
        ActionView { name: self.name@, description: opt_str_view(self.description), params: params_view(self.params@) }
    }
}

pub open spec fn actions_view(v: Seq<ActionSpec>) -> Seq<ActionView> {
    v.map_values(|a: ActionSpec| a@)
}

impl View for Capability {
    type V = CapabilityView;

    open spec fn view(&self) -> CapabilityView {
        CapabilityView { kind: self.kind, actions: actions_view(self.actions@) }
    }
}

pub open spec fn caps_view(v: Seq<Capability>) -> Seq<CapabilityView> {
    v.map_values(|c: Capability| c@)
}

// ---------------------------------------------------------------------------
// Specification of the derivation
// ---------------------------------------------------------------------------

pub open spec fn float_view(bits: u64, text: Seq<char>) -> FloatView {
    FloatView { bits, text }
}

/// 0.0
pub open spec fn zero_f() -> FloatView { float_view(0, "0"@) }
/// 100.0
pub open spec fn hundred_f() -> FloatView { float_view(0x4059000000000000, "100"@) }
/// 255.0
pub open spec fn max_brightness_f() -> FloatView { float_view(0x406fe00000000000, "255"@) }
/// 16.0 — default lower bound of a thermostat.
pub open spec fn default_min_temp_f() -> FloatView { float_view(0x4030000000000000, "16"@) }
/// 30.0 — default upper bound of a thermostat.
pub open spec fn default_max_temp_f() -> FloatView { float_view(0x403e000000000000, "30"@) }

pub open spec fn action_view(name: Seq<char>, desc: Seq<char>, params: Seq<ParamView>) -> ActionView {
    ActionView { name, description: Some(desc), params }
}

pub open spec fn param_view(
    name: Seq<char>,
    ty: Seq<char>,
    required: bool,
    minimum: Option<FloatView>,
    maximum: Option<FloatView>,
    en: Option<Seq<Seq<char>>>,
    desc: Seq<char>,
) -> ParamView {
    ParamView { name, param_type: ty, required, minimum, maximum, enum_values: en, description: Some(desc) }
}

/// `turn_on`, `turn_off`, `toggle` without parameters.
pub open spec fn on_off_actions_spec() -> Seq<ActionView> {
    seq![
        action_view("turn_on"@, "Turn the device on"@, seq![]),
        action_view("turn_off"@, "Turn the device off"@, seq![]),
        action_view("toggle"@, "Toggle on/off"@, seq![]),
    ]
}

pub open spec fn on_off_cap() -> CapabilityView {
    CapabilityView { kind: CapabilityKind::OnOff, actions: on_off_actions_spec() }
}

pub open spec fn fan_speed_cap() -> CapabilityView {
    CapabilityView {
        kind: CapabilityKind::FanSpeed,
        actions: seq![action_view("set_percentage"@, "Set fan speed percentage 0–100"@, seq![
            param_view("percentage"@, "integer"@, true, Some(zero_f()), Some(hundred_f()), None, "Fan speed percent"@),
        ])],
    }
}

pub open spec fn brightness_cap() -> CapabilityView {
    CapabilityView {
        kind: CapabilityKind::Brightness,
        actions: seq![action_view("set_brightness"@, "Set brightness (0–255) and turn on"@, seq![
            param_view("brightness"@, "integer"@, true, Some(zero_f()), Some(max_brightness_f()), None, "HA brightness scale 0–255"@),
        ])],
    }
}

pub open spec fn color_temp_cap() -> CapabilityView {
    CapabilityView {
        kind: CapabilityKind::ColorTemp,
        actions: seq![action_view("set_color_temp"@, "Set color temperature (mireds or kelvin via params)"@, seq![
            param_view("color_temp"@, "integer"@, false, None, None, None, "Color temperature in mireds"@),
        ])],
    }
}

pub open spec fn color_cap() -> CapabilityView {
    CapabilityView {
        kind: CapabilityKind::Color,
        actions: seq![action_view("turn_on"@, "Turn on with optional rgb_color / hs_color in params"@, seq![])],
    }
}

pub open spec fn thermostat_cap(min_t: FloatView, max_t: FloatView) -> CapabilityView {
    CapabilityView {
        kind: CapabilityKind::Thermostat,
        actions: seq![action_view("set_temperature"@, "Set target temperature"@, seq![
            param_view("temperature"@, "number"@, true, Some(min_t), Some(max_t), None,
                "Target °C ("@ + min_t.text + "–"@ + max_t.text + ")"@),
        ])],
    }
}

pub open spec fn hvac_mode_cap(modes: Seq<Seq<char>>) -> CapabilityView {
    CapabilityView {
        kind: CapabilityKind::HvacMode,
        actions: seq![action_view("set_hvac_mode"@, "Set HVAC mode"@, seq![
            param_view("mode"@, "string"@, true, None, None, Some(modes), "HVAC mode"@),
        ])],
    }
}

pub open spec fn cover_cap() -> CapabilityView {
    CapabilityView {
        kind: CapabilityKind::OpenClose,
        actions: seq![
            action_view("open_cover"@, "Open the cover"@, seq![]),
            action_view("close_cover"@, "Close the cover"@, seq![]),
            action_view("stop_cover"@, "Stop cover motion"@, seq![]),
        ],
    }
}

pub open spec fn has_attr(attrs: Seq<(Seq<char>, JsonView)>, k: Seq<char>) -> bool {
    json::lookup(attrs, k) is Some
}

/// `supported_color_modes` (a list of strings, or one string) names one of `needles`:
/// list items compare ASCII case-insensitively; a single string is searched for
/// each needle after ASCII lower-casing.
pub open spec fn color_modes_include(attrs: Seq<(Seq<char>, JsonView)>, needles: Seq<Seq<char>>) -> bool {
    match json::lookup(attrs, "supported_color_modes"@) {
        Some(JsonView::Array(arr)) => exists|i: int, n: int|
            0 <= i < arr.len() && 0 <= n < needles.len() && (#[trigger] arr[i]) is Str
                && text::eq_ignore_case(arr[i]->Str_0, #[trigger] needles[n]),
        Some(JsonView::Str(s)) => exists|n: int| 0 <= n < needles.len() && text::has_sub(text::lower(s), #[trigger] needles[n]),
        _ => false,
    }
}

/// `supported_features` is an unsigned integer with bit `bit` set.
pub open spec fn feature_bit(attrs: Seq<(Seq<char>, JsonView)>, bit: u64) -> bool {
    match json::as_u64(json::lookup(attrs, "supported_features"@)) {
        Some(f) => f & bit != 0,
        None => false,
    }
}

/// First attribute among `keys` that is a number with a float value.
pub open spec fn num_attr(attrs: Seq<(Seq<char>, JsonView)>, keys: Seq<Seq<char>>) -> Option<FloatView>
    decreases keys.len(),
{
    if keys.len() == 0 {
        None
    } else {
        match json::as_f64(json::lookup(attrs, keys[0])) {
            Some(f) => Some(f),
            None => num_attr(attrs, keys.drop_first()),
        }
    }
}

/// The strings of a JSON array, in order (other items are skipped).
pub open spec fn strings_of(arr: Seq<JsonView>) -> Seq<Seq<char>>
    decreases arr.len(),
{
    if arr.len() == 0 {
        seq![]
    } else {
        strings_of(arr.drop_last()) + match arr.last() {
            JsonView::Str(s) => seq![s],
            _ => seq![],
        }
    }
}

/// A list attribute: the strings of an array, or a comma-separated string with
/// each piece trimmed; empty otherwise.
pub open spec fn string_list_attr(attrs: Seq<(Seq<char>, JsonView)>, key: Seq<char>) -> Seq<Seq<char>> {
    match json::lookup(attrs, key) {
        Some(JsonView::Array(arr)) => strings_of(arr),
        Some(JsonView::Str(s)) => text::split_pieces(s, ',').map_values(|p: Seq<char>| text::trimmed(p)),
        _ => seq![],
    }
}

pub open spec fn light_has_brightness(attrs: Seq<(Seq<char>, JsonView)>) -> bool {
    has_attr(attrs, "brightness"@) || has_attr(attrs, "brightness_pct"@)
        || color_modes_include(attrs, seq!["brightness"@, "color_temp"@, "hs"@, "xy"@, "rgb"@])
        || feature_bit(attrs, 1)
}

pub open spec fn light_has_color_temp(attrs: Seq<(Seq<char>, JsonView)>) -> bool {
    has_attr(attrs, "color_temp"@) || has_attr(attrs, "color_temp_kelvin"@)
        || color_modes_include(attrs, seq!["color_temp"@])
}

pub open spec fn light_has_color(attrs: Seq<(Seq<char>, JsonView)>) -> bool {
    color_modes_include(attrs, seq!["hs"@, "xy"@, "rgb"@, "rgbw"@, "rgbww"@])
        || has_attr(attrs, "hs_color"@) || has_attr(attrs, "rgb_color"@)
}

pub open spec fn opt_cap(b: bool, c: CapabilityView) -> Seq<CapabilityView> {
    if b { seq![c] } else { seq![] }
}

pub open spec fn light_caps(attrs: Seq<(Seq<char>, JsonView)>) -> Seq<CapabilityView> {
    seq![on_off_cap()] + opt_cap(light_has_brightness(attrs), brightness_cap())
        + opt_cap(light_has_color_temp(attrs), color_temp_cap())
        + opt_cap(light_has_color(attrs), color_cap())
}

pub open spec fn climate_caps(attrs: Seq<(Seq<char>, JsonView)>) -> Seq<CapabilityView> {
    let min_t = match num_attr(attrs, seq!["min_temp"@, "min_temperature"@]) {
        Some(f) => f,
        None => default_min_temp_f(),
    };
    let max_t = match num_attr(attrs, seq!["max_temp"@, "max_temperature"@]) {
        Some(f) => f,
        None => default_max_temp_f(),
    };
    let modes = string_list_attr(attrs, "hvac_modes"@);
    seq![on_off_cap(), thermostat_cap(min_t, max_t)] + opt_cap(modes.len() > 0, hvac_mode_cap(modes))
}

pub open spec fn switch_caps(t: EntityType, attrs: Seq<(Seq<char>, JsonView)>) -> Seq<CapabilityView> {
    seq![on_off_cap()] + opt_cap(
        t == EntityType::Fan && (has_attr(attrs, "percentage"@) || has_attr(attrs, "speed"@)),
        fan_speed_cap(),
    )
}

/// Capabilities of an entity of type `t` with attributes `attrs`.
pub open spec fn derive_spec(t: EntityType, attrs: Seq<(Seq<char>, JsonView)>) -> Seq<CapabilityView> {
    match t {
        EntityType::Light => light_caps(attrs),
        EntityType::Climate => climate_caps(attrs),
        EntityType::Switch | EntityType::Fan => switch_caps(t, attrs),
        EntityType::Cover => seq![cover_cap()],
        EntityType::Sensor | EntityType::BinarySensor => seq![CapabilityView { kind: CapabilityKind::SensorRead, actions: seq![] }],
        EntityType::Other => seq![on_off_cap()],
    }
}

// ---------------------------------------------------------------------------
// Construction helpers
// ---------------------------------------------------------------------------

fn float_const(bits: u64, t: &str) -> (r: Float64)
    ensures
        r@ == float_view(bits, t@),
{
    Float64 { bits, text: text::owned(t) }
}

fn param(
    name: &str,
    ty: &str,
    required: bool,
    minimum: Option<Float64>,
    maximum: Option<Float64>,
    en: Option<Vec<String>>,
    desc: String,
) -> (r: ParamSpec)
    ensures
        r@ == param_view(
            name@,
            ty@,
            required,
            json::opt_float_view(minimum),
            json::opt_float_view(maximum),
            match en {
                Some(v) => Some(text::strings_view(v@)),
                None => None,
            },
            desc@,
        ),
{
    ParamSpec {
        name: text::owned(name),
        param_type: text::owned(ty),
        required,
        minimum,
        maximum,
        enum_values: en,
        description: Some(desc),
    }
}

fn action(name: &str, desc: &str, params: Vec<ParamSpec>) -> (r: ActionSpec)
    ensures
        r@ == action_view(name@, desc@, params_view(params@)),
{
    ActionSpec { name: text::owned(name), description: Some(text::owned(desc)), params }
}

fn one_param(p: ParamSpec) -> (r: Vec<ParamSpec>)
    ensures
        params_view(r@) == seq![p@],
{
    let mut v = Vec::new();
    v.push(p);
    proof {
        assert(params_view(v@) =~= seq![p@]);
    }
    v
}

fn no_params() -> (r: Vec<ParamSpec>)
    ensures
        params_view(r@) == Seq::<ParamView>::empty(),
{
    let v = Vec::new();
    proof {
        assert(params_view(v@) =~= Seq::<ParamView>::empty());
    }
    v
}

fn one_action(a: ActionSpec) -> (r: Vec<ActionSpec>)
    ensures
        actions_view(r@) == seq![a@],
{
    let mut v = Vec::new();
    v.push(a);
    proof {
        assert(actions_view(v@) =~= seq![a@]);
    }
    v
}

fn three_actions(a: ActionSpec, b: ActionSpec, c: ActionSpec) -> (r: Vec<ActionSpec>)
    ensures
        actions_view(r@) == seq![a@, b@, c@],
{
    let mut v = Vec::new();
    v.push(a);
    v.push(b);
    v.push(c);
    proof {
        assert(actions_view(v@) =~= seq![a@, b@, c@]);
    }
    v
}

fn push_cap(v: &mut Vec<Capability>, c: Capability)
    ensures
        caps_view(final(v)@) == caps_view(old(v)@).push(c@),
{
    v.push(c);
    proof {
        assert(caps_view(v@) =~= caps_view(old(v)@).push(c@));
    }
}

fn on_off_actions() -> (r: Vec<ActionSpec>)
    ensures
        actions_view(r@) == on_off_actions_spec(),
{
    three_actions(
        action("turn_on", "Turn the device on", no_params()),
        action("turn_off", "Turn the device off", no_params()),
        action("toggle", "Toggle on/off", no_params()),
    )
}

fn on_off_capability() -> (r: Capability)
    ensures
        r@ == on_off_cap(),
{
    Capability { kind: CapabilityKind::OnOff, actions: on_off_actions() }
}

fn single(c: Capability) -> (r: Vec<Capability>)
    ensures
        caps_view(r@) == seq![c@],
{
    let mut v = Vec::new();
    push_cap(&mut v, c);
    proof {
        assert(seq![].push(c@) =~= seq![c@]);
    }
    v
}

// ---------------------------------------------------------------------------
// Attribute readers
// ---------------------------------------------------------------------------

fn has(attrs: &Vec<(String, JsonValue)>, k: &str) -> (r: bool)
    ensures
        r == has_attr(entries_view(attrs@), k@),
{
    json::entries_contains(attrs, k)
}

fn str_in(s: &str, needles: &Vec<&str>) -> (r: bool)
    ensures
        r == exists|n: int| 0 <= n < needles@.len() && text::eq_ignore_case(s@, #[trigger] needles@[n]@),
{
    let mut i: usize = 0;
    while i < needles.len()
        invariant
            i <= needles@.len(),
            forall|n: int| 0 <= n < i ==> !text::eq_ignore_case(s@, #[trigger] needles@[n]@),
        decreases needles.len() - i,
    {
        if text::eq_ignore_ascii_case(s, needles[i]) {
            return true;
        }
        i = i + 1;
    }
    false
}

fn has_any_sub(s: &str, needles: &Vec<&str>) -> (r: bool)
    ensures
        r == exists|n: int| 0 <= n < needles@.len() && text::has_sub(s@, #[trigger] needles@[n]@),
{
    let mut i: usize = 0;
    while i < needles.len()
        invariant
            i <= needles@.len(),
            forall|n: int| 0 <= n < i ==> !text::has_sub(s@, #[trigger] needles@[n]@),
        decreases needles.len() - i,
    {
        if text::contains(s, needles[i]) {
            return true;
        }
        i = i + 1;
    }
    false
}

pub open spec fn needles_view(v: Seq<&str>) -> Seq<Seq<char>> {
    v.map_values(|s: &str| s@)
}

fn modes_include(attrs: &Vec<(String, JsonValue)>, needles: &Vec<&str>) -> (r: bool)
    ensures
        r == color_modes_include(entries_view(attrs@), needles_view(needles@)),
{
    let ghost nv = needles_view(needles@);
    match json::entries_get(attrs, "supported_color_modes") {
        Some(modes) => {
            match modes {
                JsonValue::Array(arr) => {
                    proof {
                        json::lemma_array_view(*arr);
                        assert(json::lookup(entries_view(attrs@), "supported_color_modes"@) == Some(JsonView::Array(json::values_view(arr@))));
                    }
                    let mut i: usize = 0;
                    while i < arr.len()
                        invariant
                            i <= arr@.len(),
                            nv == needles_view(needles@),
                            json::lookup(entries_view(attrs@), "supported_color_modes"@) == Some(JsonView::Array(json::values_view(arr@))),
                            forall|k: int, n: int| 0 <= k < i && 0 <= n < nv.len() ==>
                                !(json::json_view(#[trigger] arr@[k]) is Str
                                    && text::eq_ignore_case(json::json_view(arr@[k])->Str_0, #[trigger] nv[n])),
                        decreases arr.len() - i,
                    {
                        match &arr[i] {
                            JsonValue::Str(s) => {
                                if str_in(s.as_str(), needles) {
                                    proof {
                                        let n = choose|n: int| 0 <= n < needles@.len() && text::eq_ignore_case(s@, #[trigger] needles@[n]@);
                                        assert(nv[n] == needles@[n]@);
                                        let av = json::values_view(arr@);
                                        assert(av[i as int] == json::json_view(arr@[i as int]));
                                        assert(av[i as int] == JsonView::Str(s@));
                                        assert(0 <= i < av.len() && 0 <= n < nv.len() && av[i as int] is Str
                                            && text::eq_ignore_case(av[i as int]->Str_0, nv[n]));
                                    }
                                    return true;
                                }
                                proof {
                                    assert forall|n: int| 0 <= n < nv.len() implies !text::eq_ignore_case(s@, #[trigger] nv[n]) by {
                                        assert(nv[n] == needles@[n]@);
                                    }
                                }
                            },
                            _ => {},
                        }
                        i = i + 1;
                    }
                    proof {
                        let av = json::values_view(arr@);
                        assert forall|k: int, n: int| 0 <= k < av.len() && 0 <= n < nv.len() implies
                            !((#[trigger] av[k]) is Str && text::eq_ignore_case(av[k]->Str_0, #[trigger] nv[n])) by {
                            assert(av[k] == json::json_view(arr@[k]));
                        }
                    }
                    false
                },
                JsonValue::Str(s) => {
                    let l = text::to_ascii_lowercase(s.as_str());
                    let r = has_any_sub(l.as_str(), needles);
                    proof {
                        if r {
                            let n = choose|n: int| 0 <= n < needles@.len() && text::has_sub(l@, #[trigger] needles@[n]@);
                            assert(nv[n] == needles@[n]@);
                        } else {
                            assert forall|n: int| 0 <= n < nv.len() implies !text::has_sub(text::lower(s@), #[trigger] nv[n]) by {
                                assert(nv[n] == needles@[n]@);
                            }
                        }
                    }
                    r
                },
                _ => false,
            }
        },
        None => false,
    }
}

fn feature(attrs: &Vec<(String, JsonValue)>, bit: u64) -> (r: bool)
    ensures
        r == feature_bit(entries_view(attrs@), bit),
{
    match json::entries_get(attrs, "supported_features") {
        Some(v) => match v.as_u64() {
            Some(f) => f & bit != 0,
            None => false,
        },
        None => false,
    }
}

fn number_attr(attrs: &Vec<(String, JsonValue)>, k1: &str, k2: &str) -> (r: Option<Float64>)
    ensures
        json::opt_float_view(r) == num_attr(entries_view(attrs@), seq![k1@, k2@]),
{
    let ghost keys = seq![k1@, k2@];
    proof {
        reveal_with_fuel(num_attr, 3);
        assert(keys[0] == k1@);
        assert(keys.drop_first() =~= seq![k2@]);
        assert(keys.drop_first()[0] == k2@);
        assert(keys.drop_first().drop_first() =~= Seq::<Seq<char>>::empty());
    }
    match json::entries_get(attrs, k1) {
        Some(v) => {
            match v.as_f64() {
                Some(f) => return Some(f),
                None => {},
            }
        },
        None => {},
    }
    match json::entries_get(attrs, k2) {
        Some(v) => v.as_f64(),
        None => None,
    }
}

pub fn array_strings(arr: &Vec<JsonValue>) -> (r: Vec<String>)
    ensures
        text::strings_view(r@) == strings_of(json::values_view(arr@)),
{
    let mut out: Vec<String> = Vec::new();
    let mut i: usize = 0;
    while i < arr.len()
        invariant
            i <= arr@.len(),
            text::strings_view(out@) == strings_of(json::values_view(arr@).take(i as int)),
        decreases arr.len() - i,
    {
        let ghost before = out@;
        let ghost t = json::values_view(arr@).take(i + 1);
        proof {
            assert(t.drop_last() =~= json::values_view(arr@).take(i as int));
            assert(t.last() == json::json_view(arr@[i as int]));
        }
        match &arr[i] {
            JsonValue::Str(s) => {
                out.push(s.clone());
                proof {
                    assert(text::strings_view(out@) =~= text::strings_view(before) + seq![s@]);
                }
            },
            _ => {
                proof {
                    assert(text::strings_view(out@) =~= text::strings_view(before) + Seq::<Seq<char>>::empty());
                }
            },
        }
        i = i + 1;
    }
    proof {
        assert(json::values_view(arr@).take(arr@.len() as int) =~= json::values_view(arr@));
    }
    out
}

fn trimmed_pieces(s: &str) -> (r: Vec<String>)
    ensures
        text::strings_view(r@) == text::split_pieces(s@, ',').map_values(|p: Seq<char>| text::trimmed(p)),
{
    let pieces = text::split_char(s, ',');
    let mut out: Vec<String> = Vec::new();
    let mut i: usize = 0;
    while i < pieces.len()
        invariant
            i <= pieces@.len(),
            out@.len() == i,
            forall|k: int| 0 <= k < i ==> (#[trigger] out@[k])@ == text::trimmed(pieces@[k]@),
        decreases pieces.len() - i,
    {
        out.push(text::trim(pieces[i].as_str()));
        i = i + 1;
    }
    proof {
        assert(text::strings_view(out@) =~= text::strings_view(pieces@).map_values(|p: Seq<char>| text::trimmed(p)));
    }
    out
}

fn string_list(attrs: &Vec<(String, JsonValue)>, key: &str) -> (r: Vec<String>)
    ensures
        text::strings_view(r@) == string_list_attr(entries_view(attrs@), key@),
{
    match json::entries_get(attrs, key) {
        Some(v) => match v {
            JsonValue::Array(arr) => {
                proof {
                    json::lemma_array_view(*arr);
                }
                array_strings(arr)
            },
            JsonValue::Str(s) => trimmed_pieces(s.as_str()),
            _ => {
                let out = Vec::new();
                proof {
                    assert(text::strings_view(out@) =~= Seq::<Seq<char>>::empty());
                }
                out
            },
        },
        None => {
            let out = Vec::new();
            proof {
                assert(text::strings_view(out@) =~= Seq::<Seq<char>>::empty());
            }
            out
        },
    }
}

// ---------------------------------------------------------------------------
// Derivation
// ---------------------------------------------------------------------------

fn derive_light(attrs: &Vec<(String, JsonValue)>) -> (r: Vec<Capability>)
    ensures
        caps_view(r@) == light_caps(entries_view(attrs@)),
{
    let ghost a = entries_view(attrs@);
    let mut caps = single(on_off_capability());
    let mut n1: Vec<&str> = Vec::new();
    n1.push("brightness");
    n1.push("color_temp");
    n1.push("hs");
    n1.push("xy");
    n1.push("rgb");
    proof {
        assert(needles_view(n1@) =~= seq!["brightness"@, "color_temp"@, "hs"@, "xy"@, "rgb"@]);
    }
    let has_brightness = has(attrs, "brightness") || has(attrs, "brightness_pct") || modes_include(attrs, &n1)
        || feature(attrs, 1);
    let ghost c0 = caps_view(caps@);
    if has_brightness {
        let c = Capability {
            kind: CapabilityKind::Brightness,
            actions: one_action(action(
                "set_brightness",
                "Set brightness (0–255) and turn on",
                one_param(param(
                    "brightness",
                    "integer",
                    true,
                    Some(float_const(0, "0")),
                    Some(float_const(0x406fe00000000000, "255")),
                    None,
                    text::owned("HA brightness scale 0–255"),
                )),
            )),
        };
        push_cap(&mut caps, c);
    }
    proof {
        assert(caps_view(caps@) =~= c0 + opt_cap(light_has_brightness(a), brightness_cap()));
    }
    let ghost c1 = caps_view(caps@);
    let mut n2: Vec<&str> = Vec::new();
    n2.push("color_temp");
    proof {
        assert(needles_view(n2@) =~= seq!["color_temp"@]);
    }
    if has(attrs, "color_temp") || has(attrs, "color_temp_kelvin") || modes_include(attrs, &n2) {
        let c = Capability {
            kind: CapabilityKind::ColorTemp,
            actions: one_action(action(
                "set_color_temp",
                "Set color temperature (mireds or kelvin via params)",
                one_param(param(
                    "color_temp",
                    "integer",
                    false,
                    None,
                    None,
                    None,
                    text::owned("Color temperature in mireds"),
                )),
            )),
        };
        push_cap(&mut caps, c);
    }
    proof {
        assert(caps_view(caps@) =~= c1 + opt_cap(light_has_color_temp(a), color_temp_cap()));
    }
    let ghost c2 = caps_view(caps@);
    let mut n3: Vec<&str> = Vec::new();
    n3.push("hs");
    n3.push("xy");
    n3.push("rgb");
    n3.push("rgbw");
    n3.push("rgbww");
    proof {
        assert(needles_view(n3@) =~= seq!["hs"@, "xy"@, "rgb"@, "rgbw"@, "rgbww"@]);
    }
    if modes_include(attrs, &n3) || has(attrs, "hs_color") || has(attrs, "rgb_color") {
        let c = Capability {
            kind: CapabilityKind::Color,
            actions: one_action(action("turn_on", "Turn on with optional rgb_color / hs_color in params", no_params())),
        };
        push_cap(&mut caps, c);
    }
    proof {
        assert(caps_view(caps@) =~= c2 + opt_cap(light_has_color(a), color_cap()));
    }
    caps
}

fn derive_climate(attrs: &Vec<(String, JsonValue)>) -> (r: Vec<Capability>)
    ensures
        caps_view(r@) == climate_caps(entries_view(attrs@)),
{
    let min_t = match number_attr(attrs, "min_temp", "min_temperature") {
        Some(f) => f,
        None => float_const(0x4030000000000000, "16"),
    };
    let max_t = match number_attr(attrs, "max_temp", "max_temperature") {
        Some(f) => f,
        None => float_const(0x403e000000000000, "30"),
    };
    let mut desc = text::concat3("Target °C (", min_t.text.as_str(), "–");
    text::push_str(&mut desc, max_t.text.as_str());
    text::push_str(&mut desc, ")");
    let ghost mv = min_t@;
    let ghost xv = max_t@;
    let thermo = Capability {
        kind: CapabilityKind::Thermostat,
        actions: one_action(action(
            "set_temperature",
            "Set target temperature",
            one_param(param("temperature", "number", true, Some(min_t), Some(max_t), None, desc)),
        )),
    };
    let mut caps = single(on_off_capability());
    push_cap(&mut caps, thermo);
    proof {
        assert(caps_view(caps@) =~= seq![on_off_cap(), thermostat_cap(mv, xv)]);
    }
    let ghost c0 = caps_view(caps@);
    let modes = string_list(attrs, "hvac_modes");
    let ghost mode_v = text::strings_view(modes@);
    if modes.len() > 0 {
        let c = Capability {
            kind: CapabilityKind::HvacMode,
            actions: one_action(action(
                "set_hvac_mode",
                "Set HVAC mode",
                one_param(param("mode", "string", true, None, None, Some(modes), text::owned("HVAC mode"))),
            )),
        };
        push_cap(&mut caps, c);
    }
    proof {
        assert(caps_view(caps@) =~= c0 + opt_cap(mode_v.len() > 0, hvac_mode_cap(mode_v)));
    }
    caps
}

fn derive_on_off_switch(entity_type: EntityType, attrs: &Vec<(String, JsonValue)>) -> (r: Vec<Capability>)
    ensures
        caps_view(r@) == switch_caps(entity_type, entries_view(attrs@)),
{
    let mut caps = single(on_off_capability());
    let ghost c0 = caps_view(caps@);
    let is_fan = match entity_type {
        EntityType::Fan => true,
        _ => false,
    };
    if is_fan && (has(attrs, "percentage") || has(attrs, "speed")) {
        let c = Capability {
            kind: CapabilityKind::FanSpeed,
            actions: one_action(action(
                "set_percentage",
                "Set fan speed percentage 0–100",
                one_param(param(
                    "percentage",
                    "integer",
                    true,
                    Some(float_const(0, "0")),
                    Some(float_const(0x4059000000000000, "100")),
                    None,
                    text::owned("Fan speed percent"),
                )),
            )),
        };
        push_cap(&mut caps, c);
    }
    proof {
        assert(caps_view(caps@) =~= c0 + opt_cap(
            entity_type == EntityType::Fan && (has_attr(entries_view(attrs@), "percentage"@) || has_attr(entries_view(attrs@), "speed"@)),
            fan_speed_cap(),
        ));
    }
    caps
}

fn derive_cover() -> (r: Vec<Capability>)
    ensures
        caps_view(r@) == seq![cover_cap()],
{
    single(Capability {
        kind: CapabilityKind::OpenClose,
        actions: three_actions(
            action("open_cover", "Open the cover", no_params()),
            action("close_cover", "Close the cover", no_params()),
            action("stop_cover", "Stop cover motion", no_params()),
        ),
    })
}

/// Infer capabilities from entity domain + HA-like attributes.
pub fn derive_capabilities(entity_type: EntityType, attributes: &Vec<(String, JsonValue)>) -> (r: Vec<Capability>)
    ensures
        caps_view(r@) == derive_spec(entity_type, entries_view(attributes@)),
{
    match entity_type {
        EntityType::Light => derive_light(attributes),
        EntityType::Climate => derive_climate(attributes),
        EntityType::Switch | EntityType::Fan => derive_on_off_switch(entity_type, attributes),
        EntityType::Cover => derive_cover(),
        EntityType::Sensor | EntityType::BinarySensor => {
            let v = Vec::new();
            proof {
                assert(actions_view(v@) =~= Seq::<ActionView>::empty());
            }
            single(Capability { kind: CapabilityKind::SensorRead, actions: v })
        },
        EntityType::Other => single(on_off_capability()),
    }
}

// ---------------------------------------------------------------------------
// Copies
// ---------------------------------------------------------------------------

fn clone_opt_string(s: &Option<String>) -> (r: Option<String>)
    ensures
        opt_str_view(r) == opt_str_view(*s),
{
    match s {
        Some(x) => Some(x.clone()),
        None => None,
    }
}

/// Copy of a list of strings.
pub fn clone_strings(v: &Vec<String>) -> (r: Vec<String>)
    ensures
        text::strings_view(r@) == text::strings_view(v@),
{
    let mut out: Vec<String> = Vec::new();
    let mut i: usize = 0;
    while i < v.len()
        invariant
            i <= v@.len(),
            out@.len() == i,
            forall|k: int| 0 <= k < i ==> (#[trigger] out@[k])@ == v@[k]@,
        decreases v.len() - i,
    {
        out.push(v[i].clone());
        i = i + 1;
    }
    proof {
        assert(text::strings_view(out@) =~= text::strings_view(v@));
    }
    out
}

impl ParamSpec {
    /// Copy of this parameter.
    pub fn duplicate(&self) -> (r: ParamSpec)
        ensures
            r@ == self@,
    {
        ParamSpec {
            name: self.name.clone(),
            param_type: self.param_type.clone(),
            required: self.required,
            minimum: match &self.minimum {
                Some(f) => Some(f.copy()),
                None => None,
            },
            maximum: match &self.maximum {
                Some(f) => Some(f.copy()),
                None => None,
            },
            enum_values: match &self.enum_values {
                Some(v) => Some(clone_strings(v)),
                None => None,
            },
            description: clone_opt_string(&self.description),
        }
    }
}

impl ActionSpec {
    /// Copy of this action.
    pub fn duplicate(&self) -> (r: ActionSpec)
        ensures
            r@ == self@,
    {
        let mut params: Vec<ParamSpec> = Vec::new();
        let mut i: usize = 0;
        while i < self.params.len()
            invariant
                i <= self.params@.len(),
                params@.len() == i,
                forall|k: int| 0 <= k < i ==> (#[trigger] params@[k])@ == self.params@[k]@,
            decreases self.params.len() - i,
        {
            params.push(self.params[i].duplicate());
            i = i + 1;
        }
        proof {
            assert(params_view(params@) =~= params_view(self.params@));
        }
        ActionSpec { name: self.name.clone(), description: clone_opt_string(&self.description), params }
    }
}

impl Capability {
    /// Copy of this capability.
    pub fn duplicate(&self) -> (r: Capability)
        ensures
            r@ == self@,
    {
        let mut actions: Vec<ActionSpec> = Vec::new();
        let mut i: usize = 0;
        while i < self.actions.len()
            invariant
                i <= self.actions@.len(),
                actions@.len() == i,
                forall|k: int| 0 <= k < i ==> (#[trigger] actions@[k])@ == self.actions@[k]@,
            decreases self.actions.len() - i,
        {
            actions.push(self.actions[i].duplicate());
            i = i + 1;
        }
        proof {
            assert(actions_view(actions@) =~= actions_view(self.actions@));
        }
        Capability { kind: self.kind, actions }
    }
}

/// Copy of a list of capabilities.
pub fn clone_caps(v: &Vec<Capability>) -> (r: Vec<Capability>)
    ensures
        caps_view(r@) == caps_view(v@),
{
    let mut out: Vec<Capability> = Vec::new();
    let mut i: usize = 0;
    while i < v.len()
        invariant
            i <= v@.len(),
            out@.len() == i,
            forall|k: int| 0 <= k < i ==> (#[trigger] out@[k])@ == v@[k]@,
        decreases v.len() - i,
    {
        out.push(v[i].duplicate());
        i = i + 1;
    }
    proof {
        assert(caps_view(out@) =~= caps_view(v@));
    }
    out
}

} // verus!
