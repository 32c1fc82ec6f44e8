//! Device Registry — in-memory aggregation of HA entities (+ Companion later).

use vstd::prelude::*;
use crate::brand::{brand_of, faker_of, infer_brand_meta};
use crate::capability::{self, Capability, CapabilityView, caps_view, derive_capabilities, derive_spec};
use crate::json::{self, JsonValue, JsonView, entries_view};
use crate::store::{self, Keyed, SortedStore};
use crate::text;

verus! {

broadcast use vstd::string::group_string_axioms;

/// Domain class of an entity, from the part of its id before the first `.`.
#[derive(Clone, Copy, Debug, PartialEq, Eq, Structural)]
pub enum EntityType {
    Light,
    Climate,
    Switch,
    Sensor,
    BinarySensor,
    Cover,
    Fan,
    Other,
}

/// The domain of an entity id: the text before the first `.`, or empty when there is none.
pub open spec fn domain_of(entity_id: Seq<char>) -> Seq<char> {
    match text::first_index(entity_id, '.') {
        Some(i) => entity_id.take(i),
        None => Seq::empty(),
    }
}

/// Entity type named by a domain.
pub open spec fn type_of_domain(d: Seq<char>) -> EntityType {
    if d == "light"@ {
        EntityType::Light
    } else if d == "climate"@ {
        EntityType::Climate
    } else if d == "switch"@ {
        EntityType::Switch
    } else if d == "sensor"@ {
        EntityType::Sensor
    } else if d == "binary_sensor"@ {
        EntityType::BinarySensor
    } else if d == "cover"@ {
        EntityType::Cover
    } else if d == "fan"@ {
        EntityType::Fan
    } else {
        EntityType::Other
    }
}

impl EntityType {
    /// Type of an entity from its id (`light.x` → `Light`, unknown domains → `Other`).
    pub fn from_entity_id(entity_id: &str) -> (r: EntityType)
        ensures
            r == type_of_domain(domain_of(entity_id@)),
    {
        let d: String = match text::split_once(entity_id, '.') {
            Some((a, _)) => a,
            None => String::new(),
        };
        let ds = d.as_str();
        if text::eq(ds, "light") {
            EntityType::Light
        } else if text::eq(ds, "climate") {
            EntityType::Climate
        } else if text::eq(ds, "switch") {
            EntityType::Switch
        } else if text::eq(ds, "sensor") {
            EntityType::Sensor
        } else if text::eq(ds, "binary_sensor") {
            EntityType::BinarySensor
        } else if text::eq(ds, "cover") {
            EntityType::Cover
        } else if text::eq(ds, "fan") {
            EntityType::Fan
        } else {
            EntityType::Other
        }
    }
}

/// A device entity as the Hub lists it.
pub struct DeviceEntity {
    pub entity_id: String,
    pub entity_type: EntityType,
    pub friendly_name: String,
    pub state: String,
    pub attributes: Vec<(String, JsonValue)>,
    pub available: bool,
    /// Origin of this entity (`ha` | `faker` | …).
    pub source: String,
    /// Inferred brand label (`xiaomi`, `gree`, `esp32`, …). None if unknown.
    pub brand: Option<String>,
    /// True for stub / MQTT demo gear (`faker_*` / `demo_*`).
    pub is_faker: bool,
    /// Machine-readable capabilities for Agent / MCP (derived on upsert).
    pub capabilities: Vec<Capability>,
}

pub struct EntityView {
    pub entity_id: Seq<char>,
    pub entity_type: EntityType,
    pub friendly_name: Seq<char>,
    pub state: Seq<char>,
    pub attributes: Seq<(Seq<char>, JsonView)>,
    pub available: bool,
    pub source: Seq<char>,
    pub brand: Option<Seq<char>>,
    pub is_faker: bool,
    pub capabilities: Seq<CapabilityView>,
}

impl View for DeviceEntity {
    type V = EntityView;

    open spec fn view(&self) -> EntityView {
        EntityView {
            entity_id: self.entity_id@,
            entity_type: self.entity_type,
            friendly_name: self.friendly_name@,
            state: self.state@,
            attributes: entries_view(self.attributes@),
            available: self.available,
            source: self.source@,
            brand: capability::opt_str_view(self.brand),
            is_faker: self.is_faker,
            capabilities: caps_view(self.capabilities@),
        }
    }
}

/// The entity a constructor call describes: brand, faker flag and capabilities
/// are derived from the id, the name, the type and the attributes.
pub open spec fn entity_spec(
    entity_id: Seq<char>,
    entity_type: EntityType,
    friendly_name: Seq<char>,
    state: Seq<char>,
    attributes: Seq<(Seq<char>, JsonView)>,
    available: bool,
    source: Seq<char>,
) -> EntityView {
    EntityView {
        entity_id,
        entity_type,
        friendly_name,
        state,
        attributes,
        available,
        source,
        brand: brand_of(entity_id, friendly_name),
        is_faker: faker_of(entity_id, friendly_name),
        capabilities: derive_spec(entity_type, attributes),
    }
}

/// Entity routed to the faker backend: `source == "faker"` or tagged as faker.
pub open spec fn is_faker_tagged(e: EntityView) -> bool {
    e.source == "faker"@ || e.is_faker
}

impl DeviceEntity {
    /// Build a registry entity and fill brand / faker / capability metadata.
    pub fn new(
        entity_id: String,
        entity_type: EntityType,
        friendly_name: String,
        state: String,
        attributes: Vec<(String, JsonValue)>,
        available: bool,
        source: String,
    ) -> (r: DeviceEntity)
        ensures
            r@ == entity_spec(entity_id@, entity_type, friendly_name@, state@, entries_view(attributes@), available, source@),
    {
        let (brand, is_faker) = infer_brand_meta(entity_id.as_str(), friendly_name.as_str());
        let capabilities = derive_capabilities(entity_type, &attributes);
        DeviceEntity {
            entity_id,
            entity_type,
            friendly_name,
            state,
            attributes,
            available,
            source,
            brand,
            is_faker,
            capabilities,
        }
    }

    /// Recompute capabilities from current attributes (after faker mutation).
    pub fn refresh_capabilities(&mut self)
        ensures
            final(self)@ == (EntityView { capabilities: derive_spec(old(self).entity_type, entries_view(old(self).attributes@)), ..old(self)@ }),
    {
        self.capabilities = derive_capabilities(self.entity_type, &self.attributes);
    }
}

impl Keyed for DeviceEntity {
    open spec fn spec_key(v: EntityView) -> Seq<char> {
        v.entity_id
    }

    fn key(&self) -> (r: &str) {
        self.entity_id.as_str()
    }

    fn duplicate(&self) -> (r: DeviceEntity) {
        DeviceEntity {
            entity_id: self.entity_id.clone(),
            entity_type: self.entity_type,
            friendly_name: self.friendly_name.clone(),
            state: self.state.clone(),
            attributes: json::clone_entries(&self.attributes),
            available: self.available,
            source: self.source.clone(),
            brand: match &self.brand {
                Some(b) => Some(b.clone()),
                None => None,
            },
            is_faker: self.is_faker,
            capabilities: capability::clone_caps(&self.capabilities),
        }
    }
}

/// Entities keyed by entity id.
pub struct DeviceRegistry {
    entities: SortedStore<DeviceEntity>,
}

/// Domains that the device API lists (everything but `Other`).
pub open spec fn is_device_type(t: EntityType) -> bool {
    t != EntityType::Other
}

/// The entries of `m` whose source is not `ha`.
pub open spec fn without_ha(m: Map<Seq<char>, EntityView>) -> Map<Seq<char>, EntityView> {
    Map::new(|k: Seq<char>| m.contains_key(k) && m[k].source != "ha"@, |k: Seq<char>| m[k])
}

pub open spec fn entities_view(v: Seq<DeviceEntity>) -> Seq<EntityView> {
    v.map_values(|e: DeviceEntity| e@)
}

impl DeviceRegistry {
    pub closed spec fn wf(&self) -> bool {
        self.entities.wf()
    }

    /// Entities in entity-id order.
    pub closed spec fn entries(&self) -> Seq<EntityView> {
        self.entities@
    }

    /// The registry as a map from entity id to entity.
    pub open spec fn map(&self) -> Map<Seq<char>, EntityView> {
        store::key_map::<DeviceEntity>(self.entries())
    }

    /// Entity ids strictly increase along `entries()`.
    pub proof fn lemma_sorted(&self)
        requires
            self.wf(),
        ensures
            store::sorted_by_key::<DeviceEntity>(self.entries()),
    {
        self.entities.lemma_wf();
    }

    /// An empty registry.
    pub fn new() -> (r: DeviceRegistry)
        ensures
            r.wf(),
            r.entries() == Seq::<EntityView>::empty(),
            r.map() == Map::<Seq<char>, EntityView>::empty(),
    {
        DeviceRegistry { entities: SortedStore::new() }
    }

    /// All entities, ordered by entity id.
    pub fn list(&self) -> (r: Vec<DeviceEntity>)
        requires
            self.wf(),
        ensures
            entities_view(r@) == self.entries(),
    {
        self.entities.list()
    }

    /// Controllable / interesting domains for the Hub device API (filters `Other`).
    pub fn list_devices(&self) -> (r: Vec<DeviceEntity>)
        requires
            self.wf(),
        ensures
            entities_view(r@) == self.entries().filter(|e: EntityView| is_device_type(e.entity_type)),
    {
        let mut out: Vec<DeviceEntity> = Vec::new();
        let mut i: usize = 0;
        let ghost s = self.entries();
        while i < self.entities.len()
            invariant
                i <= s.len(),
                s == self.entries(),
                s == self.entities@,
                entities_view(out@) == s.take(i as int).filter(|e: EntityView| is_device_type(e.entity_type)),
            decreases s.len() - i,
        {
            let e = self.entities.at(i);
            let ghost before = out@;
            proof {
                assert(s.take(i + 1).drop_last() =~= s.take(i as int));
                assert(s.take(i + 1).last() == s[i as int]);
                reveal(Seq::filter);
            }
            let keep = match e.entity_type {
                EntityType::Other => false,
                _ => true,
            };
            if keep {
                out.push(e.duplicate());
                proof {
                    assert(entities_view(out@) =~= entities_view(before).push(e@));
                }
            } else {
                proof {
                    assert(entities_view(out@) =~= entities_view(before));
                }
            }
            i = i + 1;
        }
        proof {
            assert(s.take(s.len() as int) =~= s);
        }
        out
    }

    /// Copy of the entity with this id.
    pub fn get(&self, entity_id: &str) -> (r: Option<DeviceEntity>)
        requires
            self.wf(),
        ensures
            match r {
                Some(e) => self.map().contains_key(entity_id@) && self.map()[entity_id@] == e@,
                None => !self.map().contains_key(entity_id@),
            },
    {
        match self.entities.get(entity_id) {
            Some(e) => Some(e.duplicate()),
            None => None,
        }
    }

    /// Whether an entity with this id is present.
    pub fn contains(&self, entity_id: &str) -> (r: bool)
        requires
            self.wf(),
        ensures
            r == self.map().contains_key(entity_id@),
    {
        self.entities.contains(entity_id)
    }

    /// Insert or replace the entity stored under its id.
    pub fn upsert(&mut self, entity: DeviceEntity)
        requires
            old(self).wf(),
        ensures
            final(self).wf(),
            final(self).map() == old(self).map().insert(entity@.entity_id, entity@),
    {
        self.entities.upsert(entity);
    }

    /// Replace all HA-sourced entities; keep non-HA (e.g. companion) entries.
    pub fn replace_ha_entities(&mut self, entities: Vec<DeviceEntity>)
        requires
            old(self).wf(),
        ensures
            final(self).wf(),
            final(self).map() == store::fold_insert::<DeviceEntity>(without_ha(old(self).map()), entities_view(entities@)),
    {
        let ghost m0 = self.map();
        proof {
            self.entities.lemma_wf();
        }
        let snapshot = self.entities.list();
        let ghost s = self.entries();
        let mut i: usize = 0;
        while i < snapshot.len()
            invariant
                self.wf(),
                i <= snapshot@.len(),
                entities_view(snapshot@) == s,
                store::sorted_by_key::<DeviceEntity>(s),
                m0 == store::key_map::<DeviceEntity>(s),
                self.map() == Map::new(
                    |k: Seq<char>| m0.contains_key(k) && !(exists|j: int| 0 <= j < i && s[j].entity_id == k && s[j].source == "ha"@),
                    |k: Seq<char>| m0[k],
                ),
            decreases snapshot@.len() - i,
        {
            let e = &snapshot[i];
            let ghost ev = s[i as int];
            proof {
                assert(e@ == ev);
            }
            if text::eq(e.source.as_str(), "ha") {
                self.entities.remove(e.entity_id.as_str());
            }
            proof {
                let mnew = Map::new(
                    |k: Seq<char>| m0.contains_key(k) && !(exists|j: int| 0 <= j < i + 1 && s[j].entity_id == k && s[j].source == "ha"@),
                    |k: Seq<char>| m0[k],
                );
                assert forall|k: Seq<char>| #![auto] self.map().contains_key(k) <==> mnew.contains_key(k) by {
                    if exists|j: int| 0 <= j < i + 1 && s[j].entity_id == k && s[j].source == "ha"@ {
                        let j = choose|j: int| 0 <= j < i + 1 && s[j].entity_id == k && s[j].source == "ha"@;
                        if j < i {
                            assert(exists|j: int| 0 <= j < i && s[j].entity_id == k && s[j].source == "ha"@);
                        }
                    }
                }
                assert(self.map() =~= mnew);
            }
            i = i + 1;
        }
        proof {
            assert forall|k: Seq<char>| #![auto] self.map().contains_key(k) <==> without_ha(m0).contains_key(k) by {
                if m0.contains_key(k) {
                    let j = store::key_index::<DeviceEntity>(s, k);
                    store::lemma_key_map_at::<DeviceEntity>(s, j);
                    if m0[k].source == "ha"@ {
                        assert(s[j].entity_id == k && s[j].source == "ha"@);
                    } else {
                        if exists|j2: int| 0 <= j2 < s.len() && s[j2].entity_id == k && s[j2].source == "ha"@ {
                            let j2 = choose|j2: int| 0 <= j2 < s.len() && s[j2].entity_id == k && s[j2].source == "ha"@;
                            store::lemma_key_map_at::<DeviceEntity>(s, j2);
                        }
                    }
                }
            }
            assert(self.map() =~= without_ha(m0));
        }
        let mut entities = entities;
        let ghost all = entities_view(entities@);
        let ghost n = all.len();
        while entities.len() > 0
            invariant
                self.wf(),
                n == all.len(),
                entities@.len() <= n,
                entities_view(entities@) == all.skip(n - entities@.len()),
                self.map() == store::fold_insert::<DeviceEntity>(without_ha(m0), all.take(n - entities@.len())),
            decreases entities.len(),
        {
            let ghost before = entities@;
            let ghost j = n - before.len();
            let x = entities.remove(0);
            proof {
                assert(entities_view(before) == all.skip(j));
                assert(entities_view(before)[0] == x@);
                assert(all[j] == x@);
                assert(entities@ =~= before.drop_first());
                assert(entities_view(entities@) =~= entities_view(before).drop_first());
                assert(all.skip(j).drop_first() =~= all.skip(j + 1));
                assert(all.take(j + 1) =~= all.take(j).push(x@));
                store::lemma_fold_insert_push::<DeviceEntity>(without_ha(m0), all.take(j), x@);
            }
            self.entities.upsert(x);
        }
        proof {
            assert(all.take(n as int) =~= all);
        }
    }

    /// Number of entities.
    pub fn len(&self) -> (r: usize)
        ensures
            r == self.entries().len(),
    {
        self.entities.len()
    }
}

} // verus!
