//! Route device control / state by `DeviceEntity.source`.
//!
//! The router knows which backends are registered and decides, around each
//! backend call, which backend serves an entity, when a failed HA control
//! degrades to the faker stub, and what the caller is told.

use vstd::prelude::*;
use crate::adapter::{AdapterError, AdapterErrorView, AdapterHealth, HealthView, adapter_error_text};
use crate::encode::{self, entity_json};
use crate::json::{self, JsonValue, JsonView, entries_view};
use crate::registry::{DeviceEntity, DeviceRegistry, EntityView, is_faker_tagged};
use crate::store::{self, Keyed};
use crate::text;

verus! {

broadcast use vstd::string::group_string_axioms;

// ---------------------------------------------------------------------------
// Formatting of source lists (std `Debug`)
// ---------------------------------------------------------------------------

/// What `format!("{:?}", v)` gives for a list of strings.
pub uninterp spec fn spec_debug_strings(v: Seq<Seq<char>>) -> Seq<char>;

/// `Debug` rendering of a list of strings (`["faker", "ha"]`).
#[verifier::external_body]
fn debug_strings(v: &Vec<String>) -> (r: String)
    ensures
        r@ == spec_debug_strings(text::strings_view(v@)),
{
    format!("{:?}", v)
}

// ---------------------------------------------------------------------------
// Registered backends
// ---------------------------------------------------------------------------

/// The registered backend source ids, and which of them are configured.
pub struct AdapterRouter {
    sources: Vec<String>,
    configured: Vec<String>,
}

/// A copy of `v` with `x` pushed.
fn pushed(v: &Vec<String>, x: &str) -> (r: Vec<String>)
    ensures
        text::strings_view(r@) == text::strings_view(v@).push(x@),
{
    let mut out: Vec<String> = Vec::new();
    let mut i: usize = 0;
    while i < v.len()
        invariant
            i <= v@.len(),
            text::strings_view(out@) == text::strings_view(v@).take(i as int),
        decreases v.len() - i,
    {
        let ghost before = out@;
        out.push(v[i].clone());
        proof {
            assert(text::strings_view(out@) =~= text::strings_view(before).push(v@[i as int]@));
            assert(text::strings_view(v@).take(i + 1) =~= text::strings_view(v@).take(i as int).push(v@[i as int]@));
        }
        i = i + 1;
    }
    out.push(text::owned(x));
    proof {
        assert(text::strings_view(v@).take(v@.len() as int) =~= text::strings_view(v@));
        assert(text::strings_view(out@) =~= text::strings_view(v@).push(x@));
    }
    out
}

/// The strings of `v` other than `x`.
fn without(v: &Vec<String>, x: &str) -> (r: Vec<String>)
    ensures
        text::strings_view(r@).to_set() == text::strings_view(v@).to_set().remove(x@),
{
    let mut out: Vec<String> = Vec::new();
    let mut i: usize = 0;
    while i < v.len()
        invariant
            i <= v@.len(),
            forall|s: Seq<char>| text::strings_view(out@).contains(s) <==> (s != x@ && exists|j: int| 0 <= j < i && v@[j]@ == s),
        decreases v.len() - i,
    {
        let ghost before = text::strings_view(out@);
        if !text::eq(v[i].as_str(), x) {
            out.push(v[i].clone());
            proof {
                assert(text::strings_view(out@) =~= before.push(v@[i as int]@));
            }
        }
        proof {
            assert forall|s: Seq<char>| text::strings_view(out@).contains(s) <==> (s != x@ && exists|j: int| 0 <= j < i + 1 && v@[j]@ == s) by {
                if text::strings_view(out@).contains(s) {
                    let k = choose|k: int| 0 <= k < text::strings_view(out@).len() && text::strings_view(out@)[k] == s;
                    if k < before.len() {
                        assert(before.contains(s));
                    }
                }
                if s != x@ && exists|j: int| 0 <= j < i + 1 && v@[j]@ == s {
                    let j = choose|j: int| 0 <= j < i + 1 && v@[j]@ == s;
                    if j < i {
                        assert(before.contains(s));
                        let k = choose|k: int| 0 <= k < before.len() && before[k] == s;
                        assert(text::strings_view(out@)[k] == s);
                    } else {
                        assert(text::strings_view(out@)[before.len() as int] == s);
                    }
                }
            }
        }
        i = i + 1;
    }
    proof {
        assert forall|s: Seq<char>| text::strings_view(out@).to_set().contains(s) <==> text::strings_view(v@).to_set().remove(x@).contains(s) by {
            if text::strings_view(v@).contains(s) {
                let j = choose|j: int| 0 <= j < text::strings_view(v@).len() && text::strings_view(v@)[j] == s;
                assert(v@[j]@ == s);
            }
            if s != x@ && exists|j: int| 0 <= j < v@.len() && v@[j]@ == s {
                let j = choose|j: int| 0 <= j < v@.len() && v@[j]@ == s;
                assert(text::strings_view(v@)[j] == s);
            }
        }
        assert(text::strings_view(out@).to_set() =~= text::strings_view(v@).to_set().remove(x@));
    }
    out
}

impl AdapterRouter {
    /// Registered ids, increasing.
    pub closed spec fn ids(&self) -> Seq<Seq<char>> {
        text::strings_view(self.sources@)
    }

    pub closed spec fn wf(&self) -> bool {
        store::strictly_sorted(self.ids())
    }

    /// Registered ids as a set.
    pub open spec fn source_set(&self) -> Set<Seq<char>> {
        self.ids().to_set()
    }

    /// Ids of the registered backends that report themselves configured.
    pub closed spec fn configured_set(&self) -> Set<Seq<char>> {
        text::strings_view(self.configured@).to_set()
    }

    pub proof fn lemma_wf(&self)
        requires
            self.wf(),
        ensures
            store::strictly_sorted(self.ids()),
    {
    }

    /// No backend registered.
    pub fn new() -> (r: AdapterRouter)
        ensures
            r.wf(),
            r.ids() == Seq::<Seq<char>>::empty(),
            r.source_set() == Set::<Seq<char>>::empty(),
            r.configured_set() == Set::<Seq<char>>::empty(),
    {
        let r = AdapterRouter { sources: Vec::new(), configured: Vec::new() };
        proof {
            assert(r.ids() =~= Seq::<Seq<char>>::empty());
            assert(r.source_set() =~= Set::<Seq<char>>::empty());
            assert(r.configured_set() =~= Set::<Seq<char>>::empty());
        }
        r
    }

    /// Registers a backend under its source id (re-registering keeps one entry),
    /// with whether it is configured.
    pub fn register(&mut self, source_id: &str, configured: bool)
        requires
            old(self).wf(),
        ensures
            final(self).wf(),
            final(self).source_set() == old(self).source_set().insert(source_id@),
            final(self).configured_set() == if configured {
                old(self).configured_set().insert(source_id@)
            } else {
                old(self).configured_set().remove(source_id@)
            },
    {
        let v = pushed(&self.sources, source_id);
        proof {
            self.ids().lemma_push_to_set_commute(source_id@);
        }
        self.sources = store::sorted_unique(v);
        if configured {
            let c = pushed(&self.configured, source_id);
            proof {
                text::strings_view(self.configured@).lemma_push_to_set_commute(source_id@);
            }
            self.configured = store::sorted_unique(c);
        } else {
            self.configured = without(&self.configured, source_id);
        }
    }

    /// Whether the backend registered under `source` is configured.
    pub fn is_configured(&self, source: &str) -> (r: bool)
        ensures
            r == self.configured_set().contains(source@),
    {
        let mut i: usize = 0;
        while i < self.configured.len()
            invariant
                i <= self.configured@.len(),
                forall|j: int| 0 <= j < i ==> self.configured@[j]@ != source@,
            decreases self.configured.len() - i,
        {
            if text::eq(self.configured[i].as_str(), source) {
                proof {
                    assert(text::strings_view(self.configured@)[i as int] == source@);
                }
                return true;
            }
            i = i + 1;
        }
        proof {
            if text::strings_view(self.configured@).contains(source@) {
                let j = choose|j: int| 0 <= j < self.configured@.len() && text::strings_view(self.configured@)[j] == source@;
                assert(self.configured@[j]@ == source@);
            }
        }
        false
    }

    /// Whether a backend is registered under `source`.
    pub fn contains(&self, source: &str) -> (r: bool)
        ensures
            r == self.source_set().contains(source@),
    {
        let mut i: usize = 0;
        while i < self.sources.len()
            invariant
                i <= self.sources@.len(),
                forall|j: int| 0 <= j < i ==> self.sources@[j]@ != source@,
            decreases self.sources.len() - i,
        {
            if text::eq(self.sources[i].as_str(), source) {
                proof {
                    assert(self.ids()[i as int] == source@);
                }
                return true;
            }
            i = i + 1;
        }
        proof {
            if self.ids().contains(source@) {
                let j = choose|j: int| 0 <= j < self.ids().len() && self.ids()[j] == source@;
                assert(self.sources@[j]@ == source@);
            }
        }
        false
    }

    /// Registered source ids, sorted.
    pub fn sources(&self) -> (r: Vec<String>)
        ensures
            text::strings_view(r@) == self.ids(),
    {
        let mut v: Vec<String> = Vec::new();
        let mut i: usize = 0;
        while i < self.sources.len()
            invariant
                i <= self.sources@.len(),
                text::strings_view(v@) == self.ids().take(i as int),
            decreases self.sources.len() - i,
        {
            let ghost before = v@;
            v.push(self.sources[i].clone());
            proof {
                assert(text::strings_view(v@) =~= text::strings_view(before).push(self.sources@[i as int]@));
                assert(self.ids().take(i + 1) =~= self.ids().take(i as int).push(self.ids()[i as int]));
            }
            i = i + 1;
        }
        proof {
            assert(self.ids().take(self.ids().len() as int) =~= self.ids());
        }
        v
    }
}

// ---------------------------------------------------------------------------
// Health listing
// ---------------------------------------------------------------------------

pub open spec fn healths_view(v: Seq<AdapterHealth>) -> Seq<HealthView> {
    v.map_values(|h: AdapterHealth| h@)
}

/// Sources do not decrease along `s`.
pub open spec fn sorted_by_source(s: Seq<HealthView>) -> bool {
    forall|i: int, j: int| 0 <= i < j < s.len() ==> !text::seq_lt(#[trigger] s[j].source, #[trigger] s[i].source)
}

impl AdapterRouter {
    /// The backends' health records ordered by source (same records, stable order for ties).
    pub fn health_all(healths: Vec<AdapterHealth>) -> (r: Vec<AdapterHealth>)
        ensures
            sorted_by_source(healths_view(r@)),
            healths_view(r@).to_multiset() == healths_view(healths@).to_multiset(),
    {
        broadcast use vstd::seq_lib::to_multiset_build, vstd::seq_lib::to_multiset_insert;

        let mut out: Vec<AdapterHealth> = Vec::new();
        let mut i: usize = 0;
        let ghost input = healths_view(healths@);
        proof {
            assert(healths_view(out@) =~= Seq::<HealthView>::empty());
            assert(input.take(0) =~= Seq::<HealthView>::empty());
        }
        while i < healths.len()
            invariant
                i <= healths@.len(),
                input == healths_view(healths@),
                sorted_by_source(healths_view(out@)),
                healths_view(out@).to_multiset() == input.take(i as int).to_multiset(),
            decreases healths.len() - i,
        {
            let h = healths[i].duplicate();
            let ghost hv = h@;
            let ghost o = healths_view(out@);
            // first position whose source is strictly greater
            let mut p: usize = 0;
            while p < out.len() && !text::str_lt(h.source.as_str(), out[p].source.as_str())
                invariant
                    p <= out@.len(),
                    o == healths_view(out@),
                    hv == h@,
                    forall|j: int| 0 <= j < p ==> !text::seq_lt(hv.source, #[trigger] o[j].source),
                decreases out.len() - p,
            {
                p = p + 1;
            }
            out.insert(p, h);
            proof {
                let n = healths_view(out@);
                assert(n =~= o.insert(p as int, hv));
                assert(input[i as int] == hv);
                assert(input.take(i + 1) =~= input.take(i as int).push(input[i as int]));
                vstd::seq_lib::to_multiset_insert(o, p as int, hv);
                vstd::seq_lib::to_multiset_build(input.take(i as int), hv);
                assert(sorted_by_source(n)) by {
                    assert forall|a: int, b: int| 0 <= a < b < n.len() implies !text::seq_lt(#[trigger] n[b].source, #[trigger] n[a].source) by {
                        if a < p && b == p {
                            if hv.source == o[a].source {
                                text::lemma_lt_irreflexive(hv.source);
                            } else {
                                text::lemma_lt_total(hv.source, o[a].source);
                                if text::seq_lt(o[a].source, hv.source) {
                                    text::lemma_lt_asymmetric(o[a].source, hv.source);
                                }
                            }
                        } else if a < p && b > p {
                            assert(!text::seq_lt(o[b - 1].source, o[a].source));
                        } else if a == p && b > p {
                            if p < o.len() {
                                assert(p < out@.len());
                                assert(text::seq_lt(hv.source, o[p as int].source));
                                if b - 1 > p {
                                    assert(!text::seq_lt(o[b - 1].source, o[p as int].source));
                                    if text::seq_lt(o[b - 1].source, hv.source) {
                                        text::lemma_lt_transitive(o[b - 1].source, hv.source, o[p as int].source);
                                    }
                                } else {
                                    text::lemma_lt_asymmetric(hv.source, o[p as int].source);
                                }
                            }
                        } else if a > p {
                            assert(!text::seq_lt(o[b - 1].source, o[a - 1].source));
                        }
                    }
                }
            }
            i = i + 1;
        }
        proof {
            assert(input.take(healths@.len() as int) =~= input);
        }
        out
    }
}

// ---------------------------------------------------------------------------
// Resolution
// ---------------------------------------------------------------------------

/// Backend an entity is routed to by its record: `faker` for faker-tagged
/// entities, else its `source`.
pub open spec fn routed_source(e: EntityView) -> Seq<char> {
    if is_faker_tagged(e) { "faker"@ } else { e.source }
}

/// The faker backend may serve a faker-tagged entity when no other backend does.
pub open spec fn faker_fallback(srcs: Set<Seq<char>>, entity: Option<EntityView>) -> bool {
    srcs.contains("faker"@) && (entity matches Some(e) && is_faker_tagged(e))
}

pub open spec fn no_adapter_text(entity_id: Seq<char>, ids: Seq<Seq<char>>) -> Seq<char> {
    "no adapter for entity '"@ + entity_id + "' (known sources: "@ + spec_debug_strings(ids) + ")"@
}

pub open spec fn opt_entity_view(e: Option<DeviceEntity>) -> Option<EntityView> {
    match e {
        Some(x) => Some(x@),
        None => None,
    }
}

/// First step of resolving a backend for an entity.
pub enum ResolveStep {
    /// Use this backend.
    Resolved(String),
    /// Ask the HA backend for its health, then call `resolve_after_ha_health`.
    CheckHaHealth,
    /// No backend can serve the entity.
    Failed(AdapterError),
}

pub enum ResolveStepView {
    Resolved(Seq<char>),
    CheckHaHealth,
    Failed(AdapterErrorView),
}

impl View for ResolveStep {
    type V = ResolveStepView;

    open spec fn view(&self) -> ResolveStepView {
        match self {
            ResolveStep::Resolved(s) => ResolveStepView::Resolved(s@),
            ResolveStep::CheckHaHealth => ResolveStepView::CheckHaHealth,
            ResolveStep::Failed(e) => ResolveStepView::Failed(e@),
        }
    }
}

/// The backend chosen after HA reported whether it is configured.
pub open spec fn resolve_fallback_spec(srcs: Set<Seq<char>>, ids: Seq<Seq<char>>, entity: Option<EntityView>, entity_id: Seq<char>) -> Result<Seq<char>, AdapterErrorView> {
    if faker_fallback(srcs, entity) {
        Ok("faker"@)
    } else {
        Err(AdapterErrorView::NoAdapter(no_adapter_text(entity_id, ids)))
    }
}

pub open spec fn resolve_start_spec(srcs: Set<Seq<char>>, ids: Seq<Seq<char>>, entity: Option<EntityView>, entity_id: Seq<char>) -> ResolveStepView {
    if entity matches Some(e) && srcs.contains(routed_source(e)) {
        ResolveStepView::Resolved(routed_source(entity->0))
    } else if srcs.contains("ha"@) {
        ResolveStepView::CheckHaHealth
    } else {
        match resolve_fallback_spec(srcs, ids, entity, entity_id) {
            Ok(s) => ResolveStepView::Resolved(s),
            Err(e) => ResolveStepView::Failed(e),
        }
    }
}

impl AdapterRouter {
    fn no_adapter(&self, entity_id: &str) -> (r: AdapterError)
        ensures
            r@ == AdapterErrorView::NoAdapter(no_adapter_text(entity_id@, self.ids())),
    {
        let list = self.sources();
        let d = debug_strings(&list);
        let mut msg = text::concat3("no adapter for entity '", entity_id, "' (known sources: ");
        text::push_str(&mut msg, d.as_str());
        text::push_str(&mut msg, ")");
        AdapterError::NoAdapter(msg)
    }

    fn faker_may_serve(&self, entity: &Option<DeviceEntity>) -> (r: bool)
        ensures
            r == faker_fallback(self.source_set(), opt_entity_view(*entity)),
    {
        self.contains("faker") && match entity {
            Some(e) => text::eq(e.source.as_str(), "faker") || e.is_faker,
            None => false,
        }
    }

    /// Picks the backend for an entity from its registry record (`entity`, as
    /// looked up by `entity_id`): its routed source when registered; otherwise HA
    /// if HA is registered and configured (asked for in a second step); otherwise
    /// the faker backend for a faker-tagged entity.
    pub fn resolve_start(&self, entity: &Option<DeviceEntity>, entity_id: &str) -> (r: ResolveStep)
        ensures
            r@ == resolve_start_spec(self.source_set(), self.ids(), opt_entity_view(*entity), entity_id@),
    {
        match entity {
            Some(e) => {
                let src = if text::eq(e.source.as_str(), "faker") || e.is_faker {
                    text::owned("faker")
                } else {
                    e.source.clone()
                };
                if self.contains(src.as_str()) {
                    return ResolveStep::Resolved(src);
                }
            },
            None => {},
        }
        if self.contains("ha") {
            return ResolveStep::CheckHaHealth;
        }
        if self.faker_may_serve(entity) {
            ResolveStep::Resolved(text::owned("faker"))
        } else {
            ResolveStep::Failed(self.no_adapter(entity_id))
        }
    }

    /// Second resolution step: HA when it reports itself configured, else the
    /// faker fallback, else `NoAdapter`.
    pub fn resolve_after_ha_health(&self, entity: &Option<DeviceEntity>, entity_id: &str, ha_configured: bool) -> (r: Result<String, AdapterError>)
        ensures
            ha_configured ==> (r matches Ok(s) && s@ == "ha"@),
            !ha_configured ==> match resolve_fallback_spec(self.source_set(), self.ids(), opt_entity_view(*entity), entity_id@) {
                Ok(s) => r matches Ok(x) && x@ == s,
                Err(e) => r matches Err(x) && x@ == e,
            },
    {
        if ha_configured {
            Ok(text::owned("ha"))
        } else if self.faker_may_serve(entity) {
            Ok(text::owned("faker"))
        } else {
            Err(self.no_adapter(entity_id))
        }
    }
}

// ---------------------------------------------------------------------------
// Control
// ---------------------------------------------------------------------------

/// Result of a control request routed to a backend.
pub struct ControlOutcome {
    pub ok: bool,
    pub source: String,
    pub entity_id: String,
    pub action: String,
    pub result: JsonValue,
    pub device: Option<DeviceEntity>,
    pub degraded_from: Option<String>,
}

pub struct OutcomeView {
    pub ok: bool,
    pub source: Seq<char>,
    pub entity_id: Seq<char>,
    pub action: Seq<char>,
    pub result: JsonView,
    pub device: Option<EntityView>,
    pub degraded_from: Option<Seq<char>>,
}

impl View for ControlOutcome {
    type V = OutcomeView;

    open spec fn view(&self) -> OutcomeView {
        OutcomeView {
            ok: self.ok,
            source: self.source@,
            entity_id: self.entity_id@,
            action: self.action@,
            result: self.result@,
            device: opt_entity_view(self.device),
            degraded_from: crate::capability::opt_str_view(self.degraded_from),
        }
    }
}

/// Serialized outcome: `ok`, `entity_id`, `action`, `source`, `result`, `device`
/// (or `null`); `faker: true` for the faker backend; `ha_error` and
/// `degraded: true` when HA failed and the faker stub answered.
pub open spec fn outcome_json(o: OutcomeView) -> JsonView {
    JsonView::Object(with_degraded(with_faker_flag(outcome_base(o), o.source), o.degraded_from))
}

pub open spec fn device_json(d: Option<EntityView>) -> JsonView {
    match d {
        Some(x) => entity_json(x),
        None => JsonView::Null,
    }
}

pub open spec fn outcome_base(o: OutcomeView) -> Seq<(Seq<char>, JsonView)> {
    seq![
        ("ok"@, JsonView::Bool(o.ok)),
        ("entity_id"@, JsonView::Str(o.entity_id)),
        ("action"@, JsonView::Str(o.action)),
        ("source"@, JsonView::Str(o.source)),
        ("result"@, o.result),
        ("device"@, device_json(o.device)),
    ]
}

pub open spec fn with_faker_flag(e: Seq<(Seq<char>, JsonView)>, source: Seq<char>) -> Seq<(Seq<char>, JsonView)> {
    if source == "faker"@ { e.push(("faker"@, JsonView::Bool(true))) } else { e }
}

pub open spec fn with_degraded(e: Seq<(Seq<char>, JsonView)>, d: Option<Seq<char>>) -> Seq<(Seq<char>, JsonView)> {
    match d {
        Some(t) => e.push(("ha_error"@, JsonView::Str(t))).push(("degraded"@, JsonView::Bool(true))),
        None => e,
    }
}

impl ControlOutcome {
    /// The outcome as the API returns it.
    pub fn to_json(&self) -> (r: JsonValue)
        ensures
            r@ == outcome_json(self@),
    {
        let mut e: Vec<(String, JsonValue)> = Vec::new();
        json::push_entry(&mut e, "ok", JsonValue::Bool(self.ok));
        json::push_entry(&mut e, "entity_id", JsonValue::str(self.entity_id.as_str()));
        json::push_entry(&mut e, "action", JsonValue::str(self.action.as_str()));
        json::push_entry(&mut e, "source", JsonValue::str(self.source.as_str()));
        json::push_entry(&mut e, "result", self.result.deep_clone());
        json::push_entry(&mut e, "device", encode::opt_entity_to_json(&self.device));
        proof {
            assert(entries_view(e@) =~= outcome_base(self@));
        }
        let ghost base = entries_view(e@);
        if text::eq(self.source.as_str(), "faker") {
            json::push_entry(&mut e, "faker", JsonValue::Bool(true));
        }
        let ghost wf = entries_view(e@);
        proof {
            assert(wf == with_faker_flag(base, self@.source));
        }
        match &self.degraded_from {
            Some(d) => {
                json::push_entry(&mut e, "ha_error", JsonValue::str(d.as_str()));
                json::push_entry(&mut e, "degraded", JsonValue::Bool(true));
                proof {
                    assert(entries_view(e@) =~= wf.push(("ha_error"@, JsonView::Str(d@))).push(("degraded"@, JsonView::Bool(true))));
                }
            },
            None => {},
        }
        JsonValue::object(e)
    }
}

/// What to do after the resolved backend's control call.
pub enum ControlNext {
    /// It succeeded: fetch the entity's state from the same backend, then `finish_control`.
    FetchState(JsonValue),
    /// HA failed on a faker-tagged entity: run the faker backend's control, then
    /// `degraded_outcome` with this error text.
    Degrade(String),
    /// Report this error.
    Fail(AdapterError),
}

impl AdapterRouter {
    /// Decision after the backend's control call. `entity` is the registry
    /// record read after the call.
    pub fn after_control(&self, source: &str, control: Result<JsonValue, AdapterError>, entity: &Option<DeviceEntity>) -> (r: ControlNext)
        ensures
            match control {
                Ok(v) => r matches ControlNext::FetchState(x) && x@ == v@,
                Err(e) => if source@ == "ha"@ && faker_fallback(self.source_set(), opt_entity_view(*entity)) {
                    r matches ControlNext::Degrade(t) && t@ == adapter_error_text(e@)
                } else {
                    r matches ControlNext::Fail(x) && x@ == e@
                },
            },
    {
        match control {
            Ok(v) => ControlNext::FetchState(v),
            Err(e) => {
                if text::eq(source, "ha") && self.faker_may_serve(entity) {
                    ControlNext::Degrade(e.to_string())
                } else {
                    ControlNext::Fail(e)
                }
            },
        }
    }
}

/// Outcome of a control answered by the faker stub after HA failed: the faker
/// error when it failed too, else `ok` from `faker` with the registry's record.
pub fn degraded_outcome(
    registry: &DeviceRegistry,
    entity_id: &str,
    action: &str,
    faker_result: Result<JsonValue, AdapterError>,
    ha_error: String,
) -> (r: Result<ControlOutcome, AdapterError>)
    requires
        registry.wf(),
    ensures
        match faker_result {
            Err(e) => r matches Err(x) && x@ == e@,
            Ok(v) => r matches Ok(o) && o@ == (OutcomeView {
                ok: true,
                source: "faker"@,
                entity_id: entity_id@,
                action: action@,
                result: v@,
                device: if registry.map().contains_key(entity_id@) { Some(registry.map()[entity_id@]) } else { None },
                degraded_from: Some(ha_error@),
            }),
        },
{
    let result = faker_result?;
    let device = registry.get(entity_id);
    Ok(ControlOutcome {
        ok: true,
        source: text::owned("faker"),
        entity_id: text::owned(entity_id),
        action: text::owned(action),
        result,
        device,
        degraded_from: Some(ha_error),
    })
}

/// Completes a successful control: a fetched state is stored and reported;
/// otherwise the registry's record (if any) is reported.
pub fn finish_control(
    registry: &mut DeviceRegistry,
    source: String,
    entity_id: &str,
    action: &str,
    result: JsonValue,
    fetched: Result<DeviceEntity, AdapterError>,
) -> (r: ControlOutcome)
    requires
        old(registry).wf(),
    ensures
        final(registry).wf(),
        r@.ok && r@.source == source@ && r@.entity_id == entity_id@ && r@.action == action@,
        r@.result == result@ && r@.degraded_from is None,
        match fetched {
            Ok(e) => r@.device == Some(e@) && final(registry).map() == old(registry).map().insert(e@.entity_id, e@),
            Err(_) => final(registry).map() == old(registry).map()
                && r@.device == (if old(registry).map().contains_key(entity_id@) { Some(old(registry).map()[entity_id@]) } else { None }),
        },
{
    let device = match fetched {
        Ok(e) => {
            let d = e.duplicate();
            registry.upsert(e);
            Some(d)
        },
        Err(_) => registry.get(entity_id),
    };
    ControlOutcome {
        ok: true,
        source,
        entity_id: text::owned(entity_id),
        action: text::owned(action),
        result,
        device,
        degraded_from: None,
    }
}

/// Live state via the resolved backend when possible, else the registry record.
/// `fetched` is `None` when no backend could be resolved.
pub fn get_state_result(
    registry: &mut DeviceRegistry,
    entity_id: &str,
    fetched: Option<Result<DeviceEntity, AdapterError>>,
) -> (r: Result<DeviceEntity, AdapterError>)
    requires
        old(registry).wf(),
    ensures
        final(registry).wf(),
        match fetched {
            Some(Ok(e)) => (r matches Ok(x) && x@ == e@) && final(registry).map() == old(registry).map().insert(e@.entity_id, e@),
            Some(Err(e)) => final(registry).map() == old(registry).map() && if old(registry).map().contains_key(entity_id@) {
                r matches Ok(x) && x@ == old(registry).map()[entity_id@]
            } else {
                r matches Err(x) && x@ == (if e@ is NotFound { AdapterErrorView::NotFound(entity_id@) } else { e@ })
            },
            None => final(registry).map() == old(registry).map() && if old(registry).map().contains_key(entity_id@) {
                r matches Ok(x) && x@ == old(registry).map()[entity_id@]
            } else {
                r matches Err(x) && x@ == AdapterErrorView::NotFound(entity_id@)
            },
        },
{
    match fetched {
        Some(Ok(e)) => {
            let d = e.duplicate();
            registry.upsert(e);
            Ok(d)
        },
        Some(Err(AdapterError::NotFound(_))) | None => match registry.get(entity_id) {
            Some(c) => Ok(c),
            None => Err(AdapterError::NotFound(text::owned(entity_id))),
        },
        Some(Err(e)) => match registry.get(entity_id) {
            Some(c) => Ok(c),
            None => Err(e),
        },
    }
}

} // verus!
