//! In-memory faker brand devices for offline / no-HA development.
//!
//! Enabled when `SEED_FAKER_DEVICES` is truthy (`1` / `true` / `yes` / `on`), or
//! when HA is not configured at boot. These stand in for real Xiaomi / Gree /
//! ESP32 entities; entity ids use the `faker_` / `demo_` convention so they are
//! easy to find and replace.

use vstd::prelude::*;
use crate::capability::opt_str_view;
use crate::adapter::{AdapterError, AdapterErrorView, AdapterHealth, HealthView};
use crate::json::{self, Float64, FloatView, JsonValue, JsonView, NumberView, entries_view, lookup};
use crate::registry::{DeviceEntity, DeviceRegistry, EntityType, EntityView, entity_spec, entities_view, is_faker_tagged};
use crate::store::{self, Keyed};
use crate::text;

verus! {

broadcast use vstd::string::group_string_axioms;

// ---------------------------------------------------------------------------
// The catalogue
// ---------------------------------------------------------------------------

pub open spec fn str_attr(k: Seq<char>, v: Seq<char>) -> (Seq<char>, JsonView) {
    (k, JsonView::Str(v))
}

pub open spec fn uint_attr(k: Seq<char>, v: u64) -> (Seq<char>, JsonView) {
    (k, JsonView::Number(NumberView::PosInt(v, None)))
}

pub open spec fn float_attr(k: Seq<char>, bits: u64, t: Seq<char>) -> (Seq<char>, JsonView) {
    (k, JsonView::Number(NumberView::Float(FloatView { bits, text: t })))
}

pub open spec fn gree_modes() -> Seq<JsonView> {
    seq![
        JsonView::Str("off"@),
        JsonView::Str("auto"@),
        JsonView::Str("cool"@),
        JsonView::Str("heat"@),
        JsonView::Str("dry"@),
        JsonView::Str("fan_only"@),
    ]
}

/// The five faker entities, in catalogue order.
pub open spec fn catalog_spec() -> Seq<EntityView> {
    seq![
        entity_spec(
            "light.demo_esp32_light"@, EntityType::Light, "ESP32 Light [faker]"@, "on"@,
            seq![
                uint_attr("brightness"@, 180),
                str_attr("brand_note"@, "Replace with real ESP32 MQTT / firmware entity"@),
            ],
            true, "faker"@,
        ),
        entity_spec(
            "climate.demo_gree_ac"@, EntityType::Climate, "Gree AC [faker]"@, "cool"@,
            seq![
                float_attr("temperature"@, 0x403a000000000000, "26"@),
                float_attr("current_temperature"@, 0x403c800000000000, "28.5"@),
                ("hvac_modes"@, JsonView::Array(gree_modes())),
                str_attr("brand_note"@, "Replace with HA gree integration entity"@),
            ],
            true, "faker"@,
        ),
        entity_spec(
            "light.faker_xiaomi_bulb"@, EntityType::Light, "Xiaomi Bulb [faker]"@, "off"@,
            seq![
                uint_attr("brightness"@, 128),
                str_attr("brand_note"@, "Replace with xiaomi_miot / xiaomi_miio light entity"@),
            ],
            true, "faker"@,
        ),
        entity_spec(
            "switch.faker_xiaomi_plug"@, EntityType::Switch, "Xiaomi Plug [faker]"@, "on"@,
            seq![str_attr("brand_note"@, "Replace with xiaomi_miot switch / outlet entity"@)],
            true, "faker"@,
        ),
        entity_spec(
            "sensor.demo_esp32_temperature"@, EntityType::Sensor, "ESP32 Temperature [faker]"@, "26.5"@,
            seq![
                str_attr("unit_of_measurement"@, "°C"@),
                str_attr("device_class"@, "temperature"@),
                str_attr("brand_note"@, "Replace with real ESP32 sensor entity"@),
            ],
            true, "faker"@,
        ),
    ]
}

fn entry(k: &str, v: JsonValue) -> (r: (String, JsonValue))
    ensures
        r.0@ == k@,
        r.1@ == v@,
{
    (text::owned(k), v)
}

fn faker_entity(
    entity_id: &str,
    entity_type: EntityType,
    friendly_name: &str,
    state: &str,
    attributes: Vec<(String, JsonValue)>,
) -> (r: DeviceEntity)
    ensures
        r@ == entity_spec(entity_id@, entity_type, friendly_name@, state@, entries_view(attributes@), true, "faker"@),
{
    DeviceEntity::new(
        text::owned(entity_id),
        entity_type,
        text::owned(friendly_name),
        text::owned(state),
        attributes,
        true,
        text::owned("faker"),
    )
}

fn float_const(bits: u64, t: &str) -> (r: JsonValue)
    ensures
        r@ == JsonView::Number(NumberView::Float(FloatView { bits, text: t@ })),
{
    JsonValue::float(Float64 { bits, text: text::owned(t) })
}

/// Canonical faker catalogue. Ids are stable so real HA entities can replace them.
pub fn faker_catalog() -> (r: Vec<DeviceEntity>)
    ensures
        entities_view(r@) == catalog_spec(),
{
    let a0 = vec![
        entry("brightness", JsonValue::uint(180)),
        entry("brand_note", JsonValue::str("Replace with real ESP32 MQTT / firmware entity")),
    ];
    let modes = vec![
        text::owned("off"),
        text::owned("auto"),
        text::owned("cool"),
        text::owned("heat"),
        text::owned("dry"),
        text::owned("fan_only"),
    ];
    let modes_json = JsonValue::str_array(&modes);
    proof {
        if let JsonView::Array(m) = modes_json@ {
            assert(m =~= gree_modes());
        }
    }
    let a1 = vec![
        entry("temperature", float_const(0x403a000000000000, "26")),
        entry("current_temperature", float_const(0x403c800000000000, "28.5")),
        entry("hvac_modes", modes_json),
        entry("brand_note", JsonValue::str("Replace with HA gree integration entity")),
    ];
    let a2 = vec![
        entry("brightness", JsonValue::uint(128)),
        entry("brand_note", JsonValue::str("Replace with xiaomi_miot / xiaomi_miio light entity")),
    ];
    let a3 = vec![entry("brand_note", JsonValue::str("Replace with xiaomi_miot switch / outlet entity"))];
    let a4 = vec![
        entry("unit_of_measurement", JsonValue::str("°C")),
        entry("device_class", JsonValue::str("temperature")),
        entry("brand_note", JsonValue::str("Replace with real ESP32 sensor entity")),
    ];
    proof {
        assert(entries_view(a0@) =~= catalog_spec()[0].attributes);
        assert(entries_view(a1@) =~= catalog_spec()[1].attributes);
        assert(entries_view(a2@) =~= catalog_spec()[2].attributes);
        assert(entries_view(a3@) =~= catalog_spec()[3].attributes);
        assert(entries_view(a4@) =~= catalog_spec()[4].attributes);
    }
    let r = vec![
        faker_entity("light.demo_esp32_light", EntityType::Light, "ESP32 Light [faker]", "on", a0),
        faker_entity("climate.demo_gree_ac", EntityType::Climate, "Gree AC [faker]", "cool", a1),
        faker_entity("light.faker_xiaomi_bulb", EntityType::Light, "Xiaomi Bulb [faker]", "off", a2),
        faker_entity("switch.faker_xiaomi_plug", EntityType::Switch, "Xiaomi Plug [faker]", "on", a3),
        faker_entity("sensor.demo_esp32_temperature", EntityType::Sensor, "ESP32 Temperature [faker]", "26.5", a4),
    ];
    proof {
        assert(entities_view(r@) =~= catalog_spec());
    }
    r
}


// ---------------------------------------------------------------------------
// Seeding
// ---------------------------------------------------------------------------

/// One seeding step: a live HA entity with the same id is kept, anything else
/// is replaced by the faker entity.
pub open spec fn seed_one(m: Map<Seq<char>, EntityView>, e: EntityView) -> Map<Seq<char>, EntityView> {
    if m.contains_key(e.entity_id) && m[e.entity_id].source == "ha"@ {
        m
    } else {
        m.insert(e.entity_id, e)
    }
}

/// Seeding `s` in order into `m`.
pub open spec fn seed_all(m: Map<Seq<char>, EntityView>, s: Seq<EntityView>) -> Map<Seq<char>, EntityView>
    decreases s.len(),
{
    if s.len() == 0 {
        m
    } else {
        seed_one(seed_all(m, s.drop_last()), s.last())
    }
}

impl DeviceRegistry {
    /// Upsert the faker catalogue without overwriting HA-sourced entities.
    pub fn seed_faker_catalog(&mut self)
        requires
            old(self).wf(),
        ensures
            final(self).wf(),
            final(self).map() == seed_all(old(self).map(), catalog_spec()),
    {
        let catalog = faker_catalog();
        let ghost m0 = self.map();
        let ghost all = catalog_spec();
        let mut i: usize = 0;
        while i < catalog.len()
            invariant
                self.wf(),
                i <= catalog@.len(),
                entities_view(catalog@) == all,
                self.map() == seed_all(m0, all.take(i as int)),
            decreases catalog.len() - i,
        {
            let e = &catalog[i];
            proof {
                assert(all.take(i + 1).drop_last() =~= all.take(i as int));
                assert(all.take(i + 1).last() == e@);
            }
            let skip = match self.get(e.entity_id.as_str()) {
                Some(existing) => text::eq(existing.source.as_str(), "ha"),
                None => false,
            };
            if !skip {
                self.upsert(e.duplicate());
            }
            i = i + 1;
        }
        proof {
            assert(all.take(all.len() as int) =~= all);
        }
    }
}

// ---------------------------------------------------------------------------
// Actions on faker entities
// ---------------------------------------------------------------------------

/// Parameter lookup of `hvac_mode`, falling back to `mode` only when absent.
pub open spec fn hvac_param(params: Seq<(Seq<char>, JsonView)>) -> Option<Seq<char>> {
    json::as_str(
        match lookup(params, "hvac_mode"@) {
            Some(v) => Some(v),
            None => lookup(params, "mode"@),
        },
    )
}

/// State after `toggle`: `on` / `cool` turn off, anything else turns on.
pub open spec fn toggled(state: Seq<char>) -> Seq<char> {
    if state == "on"@ || state == "cool"@ { "off"@ } else { "on"@ }
}

/// What a faker action does to an entity (before `available` is set), or the error text.
pub open spec fn faker_effect(e: EntityView, action: Seq<char>, params: Seq<(Seq<char>, JsonView)>) -> Result<EntityView, Seq<char>> {
    if action == "turn_on"@ {
        Ok(match json::as_u64(lookup(params, "brightness"@)) {
            Some(b) => EntityView {
                state: "on"@,
                attributes: json::put(e.attributes, "brightness"@, JsonView::Number(NumberView::PosInt(b, None))),
                ..e
            },
            None => EntityView { state: "on"@, ..e },
        })
    } else if action == "turn_off"@ {
        Ok(EntityView { state: "off"@, ..e })
    } else if action == "toggle"@ {
        Ok(EntityView { state: toggled(e.state), ..e })
    } else if action == "set_brightness"@ {
        match json::as_u64(lookup(params, "brightness"@)) {
            Some(b) => Ok(EntityView {
                state: "on"@,
                attributes: json::put(e.attributes, "brightness"@, JsonView::Number(NumberView::PosInt(b, None))),
                ..e
            }),
            None => Err("params.brightness required"@),
        }
    } else if action == "set_temperature"@ {
        match json::as_f64(lookup(params, "temperature"@)) {
            Some(t) => Ok(EntityView {
                state: if e.state == "off"@ { "cool"@ } else { e.state },
                attributes: json::put(e.attributes, "temperature"@, JsonView::Number(NumberView::Float(t))),
                ..e
            }),
            None => Err("params.temperature required"@),
        }
    } else if action == "set_hvac_mode"@ {
        match hvac_param(params) {
            Some(m) => Ok(EntityView { state: m, ..e }),
            None => Err("params.hvac_mode required"@),
        }
    } else {
        Err("unsupported faker action: "@ + action)
    }
}

/// Outcome of a faker action on the registry map: the updated entity, or the error text.
pub open spec fn faker_apply(
    m: Map<Seq<char>, EntityView>,
    entity_id: Seq<char>,
    action: Seq<char>,
    params: Seq<(Seq<char>, JsonView)>,
) -> Result<EntityView, Seq<char>> {
    if !m.contains_key(entity_id) {
        Err("faker entity '"@ + entity_id + "' not in registry"@)
    } else if !is_faker_tagged(m[entity_id]) {
        Err("entity '"@ + entity_id + "' is not a faker stub (source="@ + m[entity_id].source + ")"@)
    } else {
        match faker_effect(m[entity_id], action, params) {
            Ok(e) => Ok(EntityView { available: true, ..e }),
            Err(msg) => Err(msg),
        }
    }
}

fn param_u64(params: &Vec<(String, JsonValue)>, key: &str) -> (r: Option<u64>)
    ensures
        r == json::as_u64(lookup(entries_view(params@), key@)),
{
    match json::entries_get(params, key) {
        Some(v) => v.as_u64(),
        None => None,
    }
}

impl DeviceRegistry {
    /// Apply a simple action to an in-memory faker entity (no HA) and store the result.
    pub fn apply_faker_action(
        &mut self,
        entity_id: &str,
        action: &str,
        params: &Vec<(String, JsonValue)>,
    ) -> (r: Result<DeviceEntity, String>)
        requires
            old(self).wf(),
        ensures
            final(self).wf(),
            match r {
                Ok(e) => faker_apply(old(self).map(), entity_id@, action@, entries_view(params@)) == Ok::<EntityView, Seq<char>>(e@)
                    && final(self).map() == old(self).map().insert(entity_id@, e@),
                Err(msg) => faker_apply(old(self).map(), entity_id@, action@, entries_view(params@)) == Err::<EntityView, Seq<char>>(msg@)
                    && final(self).map() == old(self).map(),
            },
    {
        let ghost m0 = self.map();
        let ghost pv = entries_view(params@);
        let mut entity = match self.get(entity_id) {
            Some(e) => e,
            None => {
                return Err(text::concat3("faker entity '", entity_id, "' not in registry"));
            },
        };
        proof {
            self.lemma_key_of(entity_id@);
        }
        if !text::eq(entity.source.as_str(), "faker") && !entity.is_faker {
            let mut msg = text::concat3("entity '", entity_id, "' is not a faker stub (source=");
            text::push_str(&mut msg, entity.source.as_str());
            text::push_str(&mut msg, ")");
            return Err(msg);
        }
        let ghost e0 = entity@;
        if text::eq(action, "turn_on") {
            entity.state = text::owned("on");
            match param_u64(params, "brightness") {
                Some(b) => json::put_entry(&mut entity.attributes, "brightness", JsonValue::uint(b)),
                None => {},
            }
        } else if text::eq(action, "turn_off") {
            entity.state = text::owned("off");
        } else if text::eq(action, "toggle") {
            let on = text::eq(entity.state.as_str(), "on") || text::eq(entity.state.as_str(), "cool");
            entity.state = if on { text::owned("off") } else { text::owned("on") };
        } else if text::eq(action, "set_brightness") {
            match param_u64(params, "brightness") {
                Some(b) => {
                    entity.state = text::owned("on");
                    json::put_entry(&mut entity.attributes, "brightness", JsonValue::uint(b));
                },
                None => {
                    return Err(text::owned("params.brightness required"));
                },
            }
        } else if text::eq(action, "set_temperature") {
            let t = match json::entries_get(params, "temperature") {
                Some(v) => v.as_f64(),
                None => None,
            };
            match t {
                Some(t) => {
                    if text::eq(entity.state.as_str(), "off") {
                        entity.state = text::owned("cool");
                    }
                    json::put_entry(&mut entity.attributes, "temperature", JsonValue::float(t));
                },
                None => {
                    return Err(text::owned("params.temperature required"));
                },
            }
        } else if text::eq(action, "set_hvac_mode") {
            let v = match json::entries_get(params, "hvac_mode") {
                Some(v) => Some(v),
                None => json::entries_get(params, "mode"),
            };
            let mode = match v {
                Some(v) => v.as_str(),
                None => None,
            };
            match mode {
                Some(m) => {
                    entity.state = text::owned(m);
                },
                None => {
                    return Err(text::owned("params.hvac_mode required"));
                },
            }
        } else {
            return Err(text::concat("unsupported faker action: ", action));
        }
        entity.available = true;
        proof {
            assert(faker_effect(e0, action@, pv) matches Ok(x) && entity@ == (EntityView { available: true, ..x }));
        }
        let out = entity.duplicate();
        self.upsert(entity);
        Ok(out)
    }

    /// The entity stored under a key carries that key as its id.
    pub proof fn lemma_key_of(&self, k: Seq<char>)
        requires
            self.wf(),
            self.map().contains_key(k),
        ensures
            self.map()[k].entity_id == k,
    {
        let s = self.entries();
        let i = store::key_index::<DeviceEntity>(s, k);
        assert(store::has_key::<DeviceEntity>(s, k));
    }
}

// ---------------------------------------------------------------------------
// Seeding choice and documentation snapshot
// ---------------------------------------------------------------------------

/// Whether the faker catalogue is seeded: when `SEED_FAKER_DEVICES` is truthy,
/// and always when HA is not configured.
pub fn should_seed_faker(env_value: Option<&str>, ha_configured: bool) -> (r: bool)
    ensures
        r == ((match env_value {
            Some(v) => text::is_truthy(v@),
            None => false,
        }) || !ha_configured),
{
    let truthy = match env_value {
        Some(v) => text::truthy(v),
        None => false,
    };
    truthy || !ha_configured
}

/// A string, or `null` when absent.
pub open spec fn opt_str_json(o: Option<Seq<char>>) -> JsonView {
    match o {
        Some(b) => JsonView::Str(b),
        None => JsonView::Null,
    }
}

/// The boot-time seeding choice: an explicit off value (`0` / `false` / `no` /
/// `off`) disables seeding, an explicit truthy value enables it, and otherwise
/// [`should_seed_faker`] decides.
pub open spec fn seed_at_boot_spec(env_value: Option<Seq<char>>, ha_configured: bool) -> bool {
    match env_value {
        Some(v) => {
            let t = text::lower(text::trimmed(v));
            if t == "0"@ || t == "false"@ || t == "no"@ || t == "off"@ {
                false
            } else {
                text::is_truthy(v) || !ha_configured
            }
        },
        None => !ha_configured,
    }
}

/// Whether to seed the faker catalogue at boot.
pub fn seed_faker_at_boot(env_value: Option<&str>, ha_configured: bool) -> (r: bool)
    ensures
        r == seed_at_boot_spec(match env_value { Some(v) => Some(v@), None => None }, ha_configured),
{
    match env_value {
        Some(v) => {
            let t = text::trim(v);
            let l = text::to_ascii_lowercase(t.as_str());
            let s = l.as_str();
            if text::eq(s, "0") || text::eq(s, "false") || text::eq(s, "no") || text::eq(s, "off") {
                false
            } else if text::truthy(v) {
                true
            } else {
                should_seed_faker(env_value, ha_configured)
            }
        },
        None => should_seed_faker(None, ha_configured),
    }
}

/// Summary object of one catalogue entity.
pub open spec fn catalog_item_json(e: EntityView) -> JsonView {
    JsonView::Object(seq![
        ("entity_id"@, JsonView::Str(e.entity_id)),
        ("brand"@, opt_str_json(e.brand)),
        ("is_faker"@, JsonView::Bool(e.is_faker)),
        ("friendly_name"@, JsonView::Str(e.friendly_name)),
    ])
}

/// JSON snapshot of the catalogue: id, brand, faker flag and name of each entity.
pub fn catalog_json() -> (r: JsonValue)
    ensures
        r@ == JsonView::Array(catalog_spec().map_values(|e: EntityView| catalog_item_json(e))),
{
    let cat = faker_catalog();
    let mut out: Vec<JsonValue> = Vec::new();
    let mut i: usize = 0;
    while i < cat.len()
        invariant
            i <= cat@.len(),
            entities_view(cat@) == catalog_spec(),
            out@.len() == i,
            forall|k: int| 0 <= k < i ==> json::json_view(#[trigger] out@[k]) == catalog_item_json(cat@[k]@),
        decreases cat.len() - i,
    {
        let e = &cat[i];
        let brand = match &e.brand {
            Some(b) => JsonValue::str(b.as_str()),
            None => JsonValue::Null,
        };
        proof {
            assert(brand@ == opt_str_json(e@.brand));
        }
        let item = vec![
            entry("entity_id", JsonValue::str(e.entity_id.as_str())),
            entry("brand", brand),
            entry("is_faker", JsonValue::Bool(e.is_faker)),
            entry("friendly_name", JsonValue::str(e.friendly_name.as_str())),
        ];
        let obj = JsonValue::object(item);
        proof {
            assert(entries_view(item@) =~= seq![
                ("entity_id"@, JsonView::Str(e@.entity_id)),
                ("brand"@, opt_str_json(e@.brand)),
                ("is_faker"@, JsonView::Bool(e@.is_faker)),
                ("friendly_name"@, JsonView::Str(e@.friendly_name)),
            ]);
        }
        proof {
            let lit = seq![
                ("entity_id"@, JsonView::Str(e@.entity_id)),
                ("brand"@, opt_str_json(e@.brand)),
                ("is_faker"@, JsonView::Bool(e@.is_faker)),
                ("friendly_name"@, JsonView::Str(e@.friendly_name)),
            ];
            assert(entries_view(item@) == lit);
            assert(catalog_item_json(e@) == JsonView::Object(lit));
            assert(obj@ == JsonView::Object(entries_view(item@)));
            assert(obj@ == catalog_item_json(e@));
        }
        out.push(obj);
        proof {
            assert(json::json_view(out@[i as int]) == catalog_item_json(cat@[i as int]@));
        }
        i = i + 1;
    }
    proof {
        assert(json::values_view(out@) =~= catalog_spec().map_values(|e: EntityView| catalog_item_json(e)));
    }
    JsonValue::array(out)
}

// ---------------------------------------------------------------------------
// The faker backend
// ---------------------------------------------------------------------------

/// In-memory faker backend: control and state against the seeded stubs.
pub struct FakerAdapter;

/// The faker-tagged entities of a registry, in id order.
pub open spec fn faker_entities(reg: Seq<EntityView>) -> Seq<EntityView> {
    reg.filter(|e: EntityView| is_faker_tagged(e))
}

/// What a successful faker control reports.
pub open spec fn faker_control_json(e: EntityView) -> JsonView {
    JsonView::Object(seq![
        ("faker"@, JsonView::Bool(true)),
        ("state"@, JsonView::Str(e.state)),
        ("attributes"@, JsonView::Object(e.attributes)),
        ("capabilities"@, crate::encode::capabilities_json(e.capabilities)),
    ])
}

impl FakerAdapter {
    pub fn new() -> (r: FakerAdapter) {
        FakerAdapter
    }

    /// Stable source key of this backend.
    pub fn source_id(&self) -> (r: &'static str)
        ensures
            r@ == "faker"@,
    {
        "faker"
    }

    /// Faker-tagged entities of the registry (the faker backend's "sync").
    pub fn sync(&self, registry: &DeviceRegistry) -> (r: Result<Vec<DeviceEntity>, AdapterError>)
        requires
            registry.wf(),
        ensures
            r matches Ok(v) && entities_view(v@) == faker_entities(registry.entries()),
    {
        let all = registry.list();
        let mut out: Vec<DeviceEntity> = Vec::new();
        let ghost s = registry.entries();
        let mut i: usize = 0;
        while i < all.len()
            invariant
                i <= all@.len(),
                entities_view(all@) == s,
                entities_view(out@) == faker_entities(s.take(i as int)),
            decreases all.len() - i,
        {
            let e = &all[i];
            let ghost before = out@;
            proof {
                assert(s.take(i + 1).drop_last() =~= s.take(i as int));
                assert(s.take(i + 1).last() == e@);
                reveal(Seq::filter);
            }
            if text::eq(e.source.as_str(), "faker") || e.is_faker {
                out.push(e.duplicate());
                proof {
                    assert(entities_view(out@) =~= entities_view(before).push(e@));
                }
            } else {
                proof {
                    assert(entities_view(out@) =~= entities_view(before));
                }
            }
            i = i + 1;
        }
        proof {
            assert(s.take(s.len() as int) =~= s);
        }
        Ok(out)
    }

    /// Health: always configured and ok; the detail counts the faker entities.
    pub fn health(&self, registry: &DeviceRegistry) -> (r: AdapterHealth)
        requires
            registry.wf(),
        ensures
            r@ == (HealthView {
                source: "faker"@,
                configured: true,
                ok: true,
                detail: Some(text::dec(faker_entities(registry.entries()).len()) + " faker entities in registry"@),
            }),
    {
        let n = match self.sync(registry) {
            Ok(v) => v.len(),
            Err(_) => 0,
        };
        let ns = text::u64_to_string(n as u64);
        AdapterHealth {
            source: text::owned("faker"),
            configured: true,
            ok: true,
            detail: Some(text::concat(ns.as_str(), " faker entities in registry")),
        }
    }

    /// The stub with this id; `NotFound` when absent, `Invalid` when not a faker stub.
    pub fn get_state(&self, registry: &DeviceRegistry, entity_id: &str) -> (r: Result<DeviceEntity, AdapterError>)
        requires
            registry.wf(),
        ensures
            !registry.map().contains_key(entity_id@) ==> (r matches Err(e) && e@ == AdapterErrorView::NotFound(entity_id@)),
            registry.map().contains_key(entity_id@) && !is_faker_tagged(registry.map()[entity_id@]) ==> (r matches Err(e)
                && e@ == AdapterErrorView::Invalid(
                    "entity '"@ + entity_id@ + "' is not a faker stub (source="@ + registry.map()[entity_id@].source + ")"@,
                )),
            registry.map().contains_key(entity_id@) && is_faker_tagged(registry.map()[entity_id@]) ==> (r matches Ok(e)
                && e@ == registry.map()[entity_id@]),
    {
        let entity = match registry.get(entity_id) {
            Some(e) => e,
            None => {
                return Err(AdapterError::NotFound(text::owned(entity_id)));
            },
        };
        if !text::eq(entity.source.as_str(), "faker") && !entity.is_faker {
            let mut msg = text::concat3("entity '", entity_id, "' is not a faker stub (source=");
            text::push_str(&mut msg, entity.source.as_str());
            text::push_str(&mut msg, ")");
            return Err(AdapterError::Invalid(msg));
        }
        Ok(entity)
    }

    /// Applies the action to the stub; reports its new state, or `Invalid` with the reason.
    pub fn control(
        &self,
        registry: &mut DeviceRegistry,
        entity_id: &str,
        action: &str,
        params: &Vec<(String, JsonValue)>,
    ) -> (r: Result<JsonValue, AdapterError>)
        requires
            old(registry).wf(),
        ensures
            final(registry).wf(),
            match faker_apply(old(registry).map(), entity_id@, action@, entries_view(params@)) {
                Ok(e) => (r matches Ok(j) && j@ == faker_control_json(e))
                    && final(registry).map() == old(registry).map().insert(entity_id@, e),
                Err(msg) => (r matches Err(x) && x@ == AdapterErrorView::Invalid(msg))
                    && final(registry).map() == old(registry).map(),
            },
    {
        match registry.apply_faker_action(entity_id, action, params) {
            Ok(entity) => {
                let mut e: Vec<(String, JsonValue)> = Vec::new();
                json::push_entry(&mut e, "faker", JsonValue::Bool(true));
                json::push_entry(&mut e, "state", JsonValue::str(entity.state.as_str()));
                json::push_entry(&mut e, "attributes", JsonValue::object(json::clone_entries(&entity.attributes)));
                json::push_entry(&mut e, "capabilities", crate::encode::capabilities_to_json(&entity.capabilities));
                proof {
                    assert(entries_view(e@) =~= seq![
                        ("faker"@, JsonView::Bool(true)),
                        ("state"@, JsonView::Str(entity@.state)),
                        ("attributes"@, JsonView::Object(entity@.attributes)),
                        ("capabilities"@, crate::encode::capabilities_json(entity@.capabilities)),
                    ]);
                }
                Ok(JsonValue::object(e))
            },
            Err(msg) => Err(AdapterError::Invalid(msg)),
        }
    }
}

} // verus!
