//! Scene engine: named, ordered lists of device actions, kept by id.
//!
//! Scenes are seeded from a scenes file or the built-in demos (`sleep_mode`,
//! `away_mode`) and may be persisted by the caller. Running a scene executes
//! its actions in order through the router; missing entities are skipped as a
//! graceful no-op, and a failed step does not stop the run.

use vstd::prelude::*;
use crate::adapter::{AdapterError, AdapterErrorView, adapter_error_text};
use crate::encode::{push_opt, str_json};
use crate::json::{self, Float64, FloatView, JsonValue, JsonView, NumberView, entries_view};
use crate::router::{ControlOutcome, OutcomeView, outcome_json};
use crate::store::{self, Keyed, SortedStore};
use crate::text;

verus! {

broadcast use vstd::string::group_string_axioms;

// ---------------------------------------------------------------------------
// Records
// ---------------------------------------------------------------------------

/// One device action inside a scene.
pub struct SceneAction {
    pub entity_id: String,
    pub action: String,
    pub params: Vec<(String, JsonValue)>,
}

/// A named scene: ordered list of actions.
pub struct Scene {
    pub id: String,
    pub name: String,
    pub description: Option<String>,
    pub actions: Vec<SceneAction>,
}

pub struct SceneActionView {
    pub entity_id: Seq<char>,
    pub action: Seq<char>,
    pub params: Seq<(Seq<char>, JsonView)>,
}

pub struct SceneView {
    pub id: Seq<char>,
    pub name: Seq<char>,
    pub description: Option<Seq<char>>,
    pub actions: Seq<SceneActionView>,
}

impl View for SceneAction {
    type V = SceneActionView;

    open spec fn view(&self) -> SceneActionView {
        SceneActionView { entity_id: self.entity_id@, action: self.action@, params: entries_view(self.params@) }
    }
}

pub open spec fn actions_view(v: Seq<SceneAction>) -> Seq<SceneActionView> {
    v.map_values(|a: SceneAction| a@)
}

impl View for Scene {
    type V = SceneView;

    open spec fn view(&self) -> SceneView {
        SceneView {
            id: self.id@,
            name: self.name@,
            description: crate::capability::opt_str_view(self.description),
            actions: actions_view(self.actions@),
        }
    }
}

pub open spec fn scenes_view(v: Seq<Scene>) -> Seq<SceneView> {
    v.map_values(|s: Scene| s@)
}

impl SceneAction {
    /// Copy of the action.
    pub fn duplicate(&self) -> (r: SceneAction)
        ensures
            r@ == self@,
    {
        SceneAction {
            entity_id: self.entity_id.clone(),
            action: self.action.clone(),
            params: json::clone_entries(&self.params),
        }
    }
}

impl Keyed for Scene {
    open spec fn spec_key(v: SceneView) -> Seq<char> {
        v.id
    }

    fn key(&self) -> (r: &str) {
        self.id.as_str()
    }

    fn duplicate(&self) -> (r: Scene) {
        let mut actions: Vec<SceneAction> = Vec::new();
        let mut i: usize = 0;
        while i < self.actions.len()
            invariant
                i <= self.actions@.len(),
                actions@.len() == i,
                forall|k: int| 0 <= k < i ==> (#[trigger] actions@[k])@ == self.actions@[k]@,
            decreases self.actions.len() - i,
        {
            actions.push(self.actions[i].duplicate());
            i = i + 1;
        }
        proof {
            assert(actions_view(actions@) =~= actions_view(self.actions@));
        }
        Scene {
            id: self.id.clone(),
            name: self.name.clone(),
            description: match &self.description {
                Some(d) => Some(d.clone()),
                None => None,
            },
            actions,
        }
    }
}

/// Why a scene request failed.
pub enum SceneError {
    NotFound(String),
    Invalid(String),
    Unavailable,
}

pub enum SceneErrorView {
    NotFound(Seq<char>),
    Invalid(Seq<char>),
    Unavailable,
}

impl View for SceneError {
    type V = SceneErrorView;

    open spec fn view(&self) -> SceneErrorView {
        match self {
            SceneError::NotFound(s) => SceneErrorView::NotFound(s@),
            SceneError::Invalid(s) => SceneErrorView::Invalid(s@),
            SceneError::Unavailable => SceneErrorView::Unavailable,
        }
    }
}

pub open spec fn scene_error_text(e: SceneErrorView) -> Seq<char> {
    match e {
        SceneErrorView::NotFound(s) => "scene not found: "@ + s,
        SceneErrorView::Invalid(s) => "invalid scene: "@ + s,
        SceneErrorView::Unavailable => "scene store unavailable (MongoDB)"@,
    }
}

impl SceneError {
    /// Display text of the error.
    pub fn to_string(&self) -> (r: String)
        ensures
            r@ == scene_error_text(self@),
    {
        match self {
            SceneError::NotFound(s) => text::concat("scene not found: ", s.as_str()),
            SceneError::Invalid(s) => text::concat("invalid scene: ", s.as_str()),
            SceneError::Unavailable => text::owned("scene store unavailable (MongoDB)"),
        }
    }
}

// ---------------------------------------------------------------------------
// Serialization
// ---------------------------------------------------------------------------

pub open spec fn scene_action_json(a: SceneActionView) -> JsonView {
    JsonView::Object(seq![
        ("entity_id"@, JsonView::Str(a.entity_id)),
        ("action"@, JsonView::Str(a.action)),
        ("params"@, JsonView::Object(a.params)),
    ])
}

/// A scene as serialized (`description` only when present).
pub open spec fn scene_json(s: SceneView) -> JsonView {
    JsonView::Object(
        push_opt(seq![("id"@, JsonView::Str(s.id)), ("name"@, JsonView::Str(s.name))], "description"@, str_json(s.description))
            .push(("actions"@, JsonView::Array(s.actions.map_values(|a: SceneActionView| scene_action_json(a))))),
    )
}

impl Scene {
    /// The scene as serialized.
    pub fn to_json(&self) -> (r: JsonValue)
        ensures
            r@ == scene_json(self@),
    {
        let mut acts: Vec<JsonValue> = Vec::new();
        let mut i: usize = 0;
        while i < self.actions.len()
            invariant
                i <= self.actions@.len(),
                acts@.len() == i,
                forall|k: int| 0 <= k < i ==> json::json_view(#[trigger] acts@[k]) == scene_action_json(self.actions@[k]@),
            decreases self.actions.len() - i,
        {
            let a = &self.actions[i];
            let mut e: Vec<(String, JsonValue)> = Vec::new();
            json::push_entry(&mut e, "entity_id", JsonValue::str(a.entity_id.as_str()));
            json::push_entry(&mut e, "action", JsonValue::str(a.action.as_str()));
            json::push_entry(&mut e, "params", JsonValue::object(json::clone_entries(&a.params)));
            proof {
                assert(entries_view(e@) =~= seq![
                    ("entity_id"@, JsonView::Str(a@.entity_id)),
                    ("action"@, JsonView::Str(a@.action)),
                    ("params"@, JsonView::Object(a@.params)),
                ]);
            }
            acts.push(JsonValue::object(e));
            i = i + 1;
        }
        proof {
            assert(json::values_view(acts@) =~= self@.actions.map_values(|a: SceneActionView| scene_action_json(a)));
        }
        let mut e: Vec<(String, JsonValue)> = Vec::new();
        json::push_entry(&mut e, "id", JsonValue::str(self.id.as_str()));
        json::push_entry(&mut e, "name", JsonValue::str(self.name.as_str()));
        proof {
            assert(entries_view(e@) =~= seq![("id"@, JsonView::Str(self@.id)), ("name"@, JsonView::Str(self@.name))]);
        }
        match &self.description {
            Some(d) => json::push_entry(&mut e, "description", JsonValue::str(d.as_str())),
            None => {},
        }
        json::push_entry(&mut e, "actions", JsonValue::array(acts));
        JsonValue::object(e)
    }
}

// ---------------------------------------------------------------------------
// Built-in demo scenes
// ---------------------------------------------------------------------------

pub open spec fn off_step(entity_id: Seq<char>) -> SceneActionView {
    SceneActionView { entity_id, action: "turn_off"@, params: Seq::empty() }
}

/// Lights / plug shared by both demo scenes, in both id families (`faker_` stubs
/// and `demo_` HA fixtures; usually only one family is present).
pub open spec fn demo_off_spec() -> Seq<SceneActionView> {
    seq![
        off_step("light.faker_esp32_light"@),
        off_step("light.demo_esp32_light"@),
        off_step("light.faker_xiaomi_bulb"@),
        off_step("light.demo_xiaomi_bulb"@),
        off_step("switch.faker_xiaomi_plug"@),
        off_step("switch.demo_xiaomi_plug"@),
    ]
}

pub open spec fn climate_steps_spec(action: Seq<char>, params: Seq<(Seq<char>, JsonView)>) -> Seq<SceneActionView> {
    seq![
        SceneActionView { entity_id: "climate.faker_gree_ac"@, action, params },
        SceneActionView { entity_id: "climate.demo_gree_ac"@, action, params },
    ]
}

/// `sleep_mode` (everything off, AC mode off) and `away_mode` (everything off,
/// AC at 26 °C).
pub open spec fn demo_scenes_spec() -> Seq<SceneView> {
    seq![
        SceneView {
            id: "sleep_mode"@,
            name: "Sleep Mode"@,
            description: Some("Multi-brand bedtime: ESP32 + Xiaomi lights off, Gree AC off"@),
            actions: demo_off_spec() + climate_steps_spec("set_hvac_mode"@, seq![("hvac_mode"@, JsonView::Str("off"@))]),
        },
        SceneView {
            id: "away_mode"@,
            name: "Away Mode"@,
            description: Some("Leaving home: turn off lights/plug and set Gree cool 26°C"@),
            actions: demo_off_spec() + climate_steps_spec(
                "set_temperature"@,
                seq![("temperature"@, JsonView::Number(NumberView::Float(FloatView { bits: 0x403a000000000000, text: "26"@ })))],
            ),
        },
    ]
}

fn step(entity_id: &str, action: &str, params: Vec<(String, JsonValue)>) -> (r: SceneAction)
    ensures
        r@ == (SceneActionView { entity_id: entity_id@, action: action@, params: entries_view(params@) }),
{
    SceneAction { entity_id: text::owned(entity_id), action: text::owned(action), params }
}

fn off(entity_id: &str) -> (r: SceneAction)
    ensures
        r@ == off_step(entity_id@),
{
    let p: Vec<(String, JsonValue)> = Vec::new();
    proof {
        assert(entries_view(p@) =~= Seq::<(Seq<char>, JsonView)>::empty());
    }
    step(entity_id, "turn_off", p)
}

fn demo_off_steps() -> (r: Vec<SceneAction>)
    ensures
        actions_view(r@) == demo_off_spec(),
{
    let r = vec![
        off("light.faker_esp32_light"),
        off("light.demo_esp32_light"),
        off("light.faker_xiaomi_bulb"),
        off("light.demo_xiaomi_bulb"),
        off("switch.faker_xiaomi_plug"),
        off("switch.demo_xiaomi_plug"),
    ];
    proof {
        assert(actions_view(r@) =~= demo_off_spec());
    }
    r
}

fn demo_climate_steps(action: &str, params: &Vec<(String, JsonValue)>) -> (r: Vec<SceneAction>)
    ensures
        actions_view(r@) == climate_steps_spec(action@, entries_view(params@)),
{
    let r = vec![
        step("climate.faker_gree_ac", action, json::clone_entries(params)),
        step("climate.demo_gree_ac", action, json::clone_entries(params)),
    ];
    proof {
        assert(actions_view(r@) =~= climate_steps_spec(action@, entries_view(params@)));
    }
    r
}

fn append_actions(a: &mut Vec<SceneAction>, b: Vec<SceneAction>)
    ensures
        actions_view(final(a)@) == actions_view(old(a)@) + actions_view(b@),
{
    let mut b = b;
    let ghost a0 = actions_view(a@);
    let ghost b0 = actions_view(b@);
    a.append(&mut b);
    proof {
        assert(actions_view(a@) =~= a0 + b0);
    }
}

/// The built-in demo scenes.
pub fn demo_scenes() -> (r: Vec<Scene>)
    ensures
        scenes_view(r@) == demo_scenes_spec(),
{
    let mut sleep = demo_off_steps();
    let mut off = Vec::new();
    json::push_entry(&mut off, "hvac_mode", JsonValue::str("off"));
    proof {
        assert(entries_view(off@) =~= seq![("hvac_mode"@, JsonView::Str("off"@))]);
    }
    append_actions(&mut sleep, demo_climate_steps("set_hvac_mode", &off));

    let mut away = demo_off_steps();
    let mut temp = Vec::new();
    json::push_entry(&mut temp, "temperature", JsonValue::float(Float64 { bits: 0x403a000000000000, text: text::owned("26") }));
    proof {
        assert(entries_view(temp@) =~= seq![("temperature"@, JsonView::Number(NumberView::Float(FloatView { bits: 0x403a000000000000, text: "26"@ })))]);
    }
    append_actions(&mut away, demo_climate_steps("set_temperature", &temp));

    let r = vec![
        Scene {
            id: text::owned("sleep_mode"),
            name: text::owned("Sleep Mode"),
            description: Some(text::owned("Multi-brand bedtime: ESP32 + Xiaomi lights off, Gree AC off")),
            actions: sleep,
        },
        Scene {
            id: text::owned("away_mode"),
            name: text::owned("Away Mode"),
            description: Some(text::owned("Leaving home: turn off lights/plug and set Gree cool 26°C")),
            actions: away,
        },
    ];
    proof {
        assert(scenes_view(r@) =~= demo_scenes_spec());
    }
    r
}

// ---------------------------------------------------------------------------
// Seeding choices
// ---------------------------------------------------------------------------

/// Scene files to try, in order: `SCENES_CONFIG` when set and non-empty, then
/// the repository, working-directory and system locations.
pub open spec fn seed_candidates_spec(env_value: Option<Seq<char>>) -> Seq<Seq<char>> {
    let fixed = seq!["../../config/scenes.toml"@, "config/scenes.toml"@, "/etc/lan-iot/scenes.toml"@];
    match env_value {
        Some(p) => if p.len() > 0 { seq![p] + fixed } else { fixed },
        None => fixed,
    }
}

/// Candidate scene file paths.
pub fn seed_candidates(env_value: Option<&str>) -> (r: Vec<String>)
    ensures
        text::strings_view(r@) == seed_candidates_spec(match env_value { Some(p) => Some(p@), None => None }),
{
    let mut v: Vec<String> = Vec::new();
    match env_value {
        Some(p) => {
            if !text::is_empty(p) {
                v.push(text::owned(p));
            }
        },
        None => {},
    }
    v.push(text::owned("../../config/scenes.toml"));
    v.push(text::owned("config/scenes.toml"));
    v.push(text::owned("/etc/lan-iot/scenes.toml"));
    proof {
        assert(text::strings_view(v@) =~= seed_candidates_spec(match env_value { Some(p) => Some(p@), None => None }));
    }
    v
}

/// The seed: the first non-empty scene list read from the candidate files (in
/// order), else the demo scenes.
pub open spec fn pick_seed_spec(files: Seq<Seq<SceneView>>) -> Seq<SceneView>
    decreases files.len(),
{
    if files.len() == 0 {
        demo_scenes_spec()
    } else if files[0].len() > 0 {
        files[0]
    } else {
        pick_seed_spec(files.drop_first())
    }
}

/// Chooses the seed scenes from the lists parsed from the readable candidate files.
pub fn pick_seed(files: Vec<Vec<Scene>>) -> (r: Vec<Scene>)
    ensures
        scenes_view(r@) == pick_seed_spec(files@.map_values(|f: Vec<Scene>| scenes_view(f@))),
    decreases files@.len(),
{
    let mut files = files;
    if files.len() == 0 {
        return demo_scenes();
    }
    let ghost fv = files@.map_values(|f: Vec<Scene>| scenes_view(f@));
    let first = files.remove(0);
    proof {
        assert(fv[0] == scenes_view(first@));
        assert(files@.map_values(|f: Vec<Scene>| scenes_view(f@)) =~= fv.drop_first());
    }
    if first.len() > 0 {
        first
    } else {
        pick_seed(files)
    }
}

/// `SCENES_RESEED` truthy → overwrite the seeded scene ids in the store at boot.
pub fn reseed_requested(env_value: Option<&str>) -> (r: bool)
    ensures
        r == match env_value {
            Some(v) => text::is_truthy(v@),
            None => false,
        },
{
    match env_value {
        Some(v) => text::truthy(v),
        None => false,
    }
}

/// What loading from the store does, given its document count and the reseed flag.
pub enum StoreLoadPlan {
    /// Write the seed, then serve exactly the seed.
    SeedOnly,
    /// Overwrite the seeded ids, then load every stored scene.
    SeedThenLoad,
    /// Load every stored scene.
    Load,
}

/// An empty store is seeded and served from the seed; a reseed over a non-empty
/// store writes the seed and then loads everything; otherwise everything is loaded.
pub fn store_load_plan(count: u64, reseed: bool) -> (r: StoreLoadPlan)
    ensures
        count == 0 ==> r is SeedOnly,
        count > 0 && reseed ==> r is SeedThenLoad,
        count > 0 && !reseed ==> r is Load,
{
    if count == 0 {
        StoreLoadPlan::SeedOnly
    } else if reseed {
        StoreLoadPlan::SeedThenLoad
    } else {
        StoreLoadPlan::Load
    }
}

// ---------------------------------------------------------------------------
// The engine
// ---------------------------------------------------------------------------

/// Scenes by id, and whether they are persisted by a store.
pub struct SceneEngine {
    scenes: SortedStore<Scene>,
    mongo_backed: bool,
}

impl SceneEngine {
    pub closed spec fn wf(&self) -> bool {
        self.scenes.wf()
    }

    /// Scenes in id order.
    pub closed spec fn entries(&self) -> Seq<SceneView> {
        self.scenes@
    }

    /// Scenes by id.
    pub open spec fn map(&self) -> Map<Seq<char>, SceneView> {
        store::key_map::<Scene>(self.entries())
    }

    pub closed spec fn backed(&self) -> bool {
        self.mongo_backed
    }

    pub proof fn lemma_sorted(&self)
        requires
            self.wf(),
        ensures
            store::sorted_by_key::<Scene>(self.entries()),
    {
        self.scenes.lemma_wf();
    }

    /// No scenes, not persisted.
    pub fn new() -> (r: SceneEngine)
        ensures
            r.wf(),
            r.map() == Map::<Seq<char>, SceneView>::empty(),
            !r.backed(),
    {
        SceneEngine { scenes: SortedStore::new(), mongo_backed: false }
    }

    /// Engine holding `scenes` (a later scene replaces an earlier one with the same id).
    pub fn from_scenes(scenes: Vec<Scene>, mongo_backed: bool) -> (r: SceneEngine)
        ensures
            r.wf(),
            r.map() == store::fold_insert::<Scene>(Map::empty(), scenes_view(scenes@)),
            r.backed() == mongo_backed,
    {
        let s = SortedStore::from_vec(scenes);
        proof {
            assert(scenes_view(scenes@) =~= scenes@.map_values(|x: Scene| x@));
        }
        SceneEngine { scenes: s, mongo_backed }
    }

    /// The demo scenes, not persisted.
    pub fn default() -> (r: SceneEngine)
        ensures
            r.wf(),
            r.map() == store::fold_insert::<Scene>(Map::empty(), demo_scenes_spec()),
            !r.backed(),
    {
        SceneEngine::from_scenes(demo_scenes(), false)
    }

    /// True when scenes are persisted by a store.
    pub fn mongo_backed(&self) -> (r: bool)
        ensures
            r == self.backed(),
    {
        self.mongo_backed
    }

    /// All scenes, ordered by id.
    pub fn list(&self) -> (r: Vec<Scene>)
        requires
            self.wf(),
        ensures
            scenes_view(r@) == self.entries(),
    {
        let r = self.scenes.list();
        proof {
            assert(scenes_view(r@) =~= r@.map_values(|x: Scene| x@));
        }
        r
    }

    /// Scene ids, ordered.
    pub fn list_ids(&self) -> (r: Vec<String>)
        requires
            self.wf(),
        ensures
            text::strings_view(r@) == self.entries().map_values(|s: SceneView| s.id),
    {
        let all = self.list();
        let mut out: Vec<String> = Vec::new();
        let mut i: usize = 0;
        while i < all.len()
            invariant
                i <= all@.len(),
                scenes_view(all@) == self.entries(),
                out@.len() == i,
                forall|k: int| 0 <= k < i ==> (#[trigger] out@[k])@ == all@[k]@.id,
            decreases all.len() - i,
        {
            out.push(all[i].id.clone());
            i = i + 1;
        }
        proof {
            assert(text::strings_view(out@) =~= self.entries().map_values(|s: SceneView| s.id));
        }
        out
    }

    /// Copy of the scene with this id.
    pub fn get(&self, id: &str) -> (r: Option<Scene>)
        requires
            self.wf(),
        ensures
            match r {
                Some(s) => self.map().contains_key(id@) && self.map()[id@] == s@,
                None => !self.map().contains_key(id@),
            },
    {
        match self.scenes.get(id) {
            Some(s) => Some(s.duplicate()),
            None => None,
        }
    }

    /// A scene needs a non-blank id.
    pub fn validate(scene: &Scene) -> (r: Result<(), SceneError>)
        ensures
            text::trimmed(scene.id@).len() == 0 ==> (r matches Err(e) && e@ == SceneErrorView::Invalid("scene id required"@)),
            text::trimmed(scene.id@).len() > 0 ==> r is Ok,
    {
        let t = text::trim(scene.id.as_str());
        if text::is_empty(t.as_str()) {
            Err(SceneError::Invalid(text::owned("scene id required")))
        } else {
            Ok(())
        }
    }

    /// Create or update a scene. `persisted` tells whether the store accepted the
    /// write (pass `true` when the engine is not persisted).
    pub fn upsert(&mut self, scene: Scene, persisted: bool) -> (r: Result<(), SceneError>)
        requires
            old(self).wf(),
        ensures
            final(self).wf(),
            final(self).backed() == old(self).backed(),
            text::trimmed(scene@.id).len() == 0 ==> (r matches Err(e) && e@ == SceneErrorView::Invalid("scene id required"@))
                && final(self).map() == old(self).map(),
            text::trimmed(scene@.id).len() > 0 && old(self).backed() && !persisted ==> (r matches Err(e) && e@ == SceneErrorView::Unavailable)
                && final(self).map() == old(self).map(),
            text::trimmed(scene@.id).len() > 0 && (!old(self).backed() || persisted) ==> r is Ok
                && final(self).map() == old(self).map().insert(scene@.id, scene@),
    {
        SceneEngine::validate(&scene)?;
        if self.mongo_backed && !persisted {
            return Err(SceneError::Unavailable);
        }
        self.scenes.upsert(scene);
        Ok(())
    }

    /// The scene to run, or `NotFound`.
    pub fn run_start(&self, id: &str) -> (r: Result<Scene, SceneError>)
        requires
            self.wf(),
        ensures
            match r {
                Ok(s) => self.map().contains_key(id@) && self.map()[id@] == s@,
                Err(e) => !self.map().contains_key(id@) && e@ == SceneErrorView::NotFound(id@),
            },
    {
        match self.get(id) {
            Some(s) => Ok(s),
            None => Err(SceneError::NotFound(text::owned(id))),
        }
    }
}

// ---------------------------------------------------------------------------
// Steps and runs
// ---------------------------------------------------------------------------

/// Result of a single step of a scene run.
pub struct StepResult {
    pub index: usize,
    pub entity_id: String,
    pub action: String,
    pub ok: bool,
    /// Entity missing from the backends and the registry — a graceful no-op.
    pub skipped: bool,
    pub error: Option<String>,
    pub result: Option<JsonValue>,
}

pub struct StepView {
    pub index: usize,
    pub entity_id: Seq<char>,
    pub action: Seq<char>,
    pub ok: bool,
    pub skipped: bool,
    pub error: Option<Seq<char>>,
    pub result: Option<JsonView>,
}

impl View for StepResult {
    type V = StepView;

    open spec fn view(&self) -> StepView {
        StepView {
            index: self.index,
            entity_id: self.entity_id@,
            action: self.action@,
            ok: self.ok,
            skipped: self.skipped,
            error: crate::capability::opt_str_view(self.error),
            result: match self.result {
                Some(j) => Some(j@),
                None => None,
            },
        }
    }
}

pub open spec fn steps_view(v: Seq<StepResult>) -> Seq<StepView> {
    v.map_values(|s: StepResult| s@)
}

/// Aggregate result of running a scene.
pub struct RunResult {
    pub scene_id: String,
    /// True when every non-skipped step succeeded.
    pub ok: bool,
    pub steps: Vec<StepResult>,
    /// Indices of steps that failed (not skipped).
    pub failed: Vec<usize>,
    pub skipped_count: usize,
}

/// A step is missing its entity: `NotFound`, or an API 404.
pub open spec fn is_missing(e: AdapterErrorView) -> bool {
    e is NotFound || (e matches AdapterErrorView::Api { status, .. } && status == 404)
}

/// `{"skipped": true}`.
pub open spec fn skipped_json() -> JsonView {
    JsonView::Object(seq![("skipped"@, JsonView::Bool(true))])
}

/// The step record for a skipped step.
pub open spec fn skipped_step_spec(index: usize, entity_id: Seq<char>, action: Seq<char>) -> StepView {
    StepView {
        index,
        entity_id,
        action,
        ok: true,
        skipped: true,
        error: Some("entity '"@ + entity_id + "' not found — skipped"@),
        result: Some(skipped_json()),
    }
}

pub open spec fn degraded_note(d: Option<Seq<char>>) -> Option<Seq<char>> {
    match d {
        Some(e) => Some("degraded: "@ + e),
        None => None,
    }
}

/// The step record after the control request.
pub open spec fn control_step_spec(index: usize, entity_id: Seq<char>, action: Seq<char>, r: Result<OutcomeView, AdapterErrorView>) -> StepView {
    match r {
        Ok(o) => StepView {
            index,
            entity_id,
            action,
            ok: true,
            skipped: false,
            error: degraded_note(o.degraded_from),
            result: Some(outcome_json(o)),
        },
        Err(e) => if is_missing(e) {
            skipped_step_spec(index, entity_id, action)
        } else {
            StepView { index, entity_id, action, ok: false, skipped: false, error: Some(adapter_error_text(e)), result: None }
        },
    }
}

/// Whether an error reports a missing entity.
pub fn is_missing_error(e: &AdapterError) -> (r: bool)
    ensures
        r == is_missing(e@),
{
    match e {
        AdapterError::NotFound(_) => true,
        AdapterError::Api { status, .. } => *status == 404,
        _ => false,
    }
}

/// Presence of an entity absent from the registry, judged from a live state
/// lookup: found, or an inconclusive failure, counts as present; a missing
/// entity does not.
pub fn entity_present_after(state: &Result<crate::registry::DeviceEntity, AdapterError>) -> (r: bool)
    ensures
        match state {
            Ok(_) => r,
            Err(e) => r == !is_missing(e@),
        },
{
    match state {
        Ok(_) => true,
        Err(e) => !is_missing_error(e),
    }
}

fn skipped_json_exec() -> (r: JsonValue)
    ensures
        r@ == skipped_json(),
{
    let mut e: Vec<(String, JsonValue)> = Vec::new();
    json::push_entry(&mut e, "skipped", JsonValue::Bool(true));
    proof {
        assert(entries_view(e@) =~= seq![("skipped"@, JsonView::Bool(true))]);
    }
    JsonValue::object(e)
}

/// The record of a step skipped because its entity is absent.
pub fn skipped_step(index: usize, entity_id: &str, action: &str) -> (r: StepResult)
    ensures
        r@ == skipped_step_spec(index, entity_id@, action@),
{
    StepResult {
        index,
        entity_id: text::owned(entity_id),
        action: text::owned(action),
        ok: true,
        skipped: true,
        error: Some(text::concat3("entity '", entity_id, "' not found — skipped")),
        result: Some(skipped_json_exec()),
    }
}

/// The record of a step from its control outcome: success (noting a
/// degradation), a skip for a missing entity, or a failure with the error text.
pub fn step_from_control(index: usize, entity_id: &str, action: &str, r: Result<ControlOutcome, AdapterError>) -> (s: StepResult)
    ensures
        s@ == control_step_spec(index, entity_id@, action@, match r { Ok(o) => Ok(o@), Err(e) => Err(e@) }),
{
    match r {
        Ok(outcome) => {
            let error = match &outcome.degraded_from {
                Some(e) => Some(text::concat("degraded: ", e.as_str())),
                None => None,
            };
            StepResult {
                index,
                entity_id: text::owned(entity_id),
                action: text::owned(action),
                ok: true,
                skipped: false,
                error,
                result: Some(outcome.to_json()),
            }
        },
        Err(e) => {
            if is_missing_error(&e) {
                skipped_step(index, entity_id, action)
            } else {
                StepResult {
                    index,
                    entity_id: text::owned(entity_id),
                    action: text::owned(action),
                    ok: false,
                    skipped: false,
                    error: Some(e.to_string()),
                    result: None,
                }
            }
        },
    }
}

/// Indices of the failed (not skipped) steps, in order.
pub open spec fn failed_indices(steps: Seq<StepView>) -> Seq<usize> {
    steps.filter(|s: StepView| !s.skipped && !s.ok).map_values(|s: StepView| s.index)
}

/// Number of skipped steps.
pub open spec fn skipped_count_spec(steps: Seq<StepView>) -> nat {
    steps.filter(|s: StepView| s.skipped).len()
}

impl RunResult {
    /// Aggregates the step records of a run.
    pub fn from_steps(scene_id: String, steps: Vec<StepResult>) -> (r: RunResult)
        ensures
            r.scene_id@ == scene_id@,
            steps_view(r.steps@) == steps_view(steps@),
            r.failed@ == failed_indices(steps_view(steps@)),
            r.skipped_count == skipped_count_spec(steps_view(steps@)),
            r.ok == (failed_indices(steps_view(steps@)).len() == 0),
    {
        let ghost sv = steps_view(steps@);
        let mut failed: Vec<usize> = Vec::new();
        let mut skipped: usize = 0;
        let mut i: usize = 0;
        while i < steps.len()
            invariant
                i <= steps@.len(),
                sv == steps_view(steps@),
                failed@ == failed_indices(sv.take(i as int)),
                skipped == skipped_count_spec(sv.take(i as int)),
                skipped <= i,
            decreases steps.len() - i,
        {
            let s = &steps[i];
            proof {
                let t = sv.take(i + 1);
                assert(t.drop_last() =~= sv.take(i as int));
                assert(t.last() == s@);
                reveal(Seq::filter);
            }
            if s.skipped {
                skipped = skipped + 1;
            } else if !s.ok {
                failed.push(s.index);
                proof {
                    assert(failed_indices(sv.take(i + 1)) =~= failed_indices(sv.take(i as int)).push(s.index));
                }
            }
            proof {
                if s.skipped || s.ok {
                    assert(failed_indices(sv.take(i + 1)) =~= failed_indices(sv.take(i as int)));
                }
            }
            i = i + 1;
        }
        proof {
            assert(sv.take(steps@.len() as int) =~= sv);
        }
        let ok = failed.len() == 0;
        RunResult { scene_id, ok, steps, failed, skipped_count: skipped }
    }
}

// ---------------------------------------------------------------------------
// Running a scene
// ---------------------------------------------------------------------------

/// Why a step of a run came out as it did: its entity was found absent, or the
/// control request gave this outcome.
pub enum StepCause {
    Absent,
    Controlled(Result<OutcomeView, AdapterErrorView>),
}

/// The record of step `i` for action `a`, given why it came out so.
pub open spec fn step_for(i: usize, a: SceneActionView, c: StepCause) -> StepView {
    match c {
        StepCause::Absent => skipped_step_spec(i, a.entity_id, a.action),
        StepCause::Controlled(r) => control_step_spec(i, a.entity_id, a.action, r),
    }
}

/// Whether a state lookup shows the entity present: found, or an inconclusive
/// failure; a missing entity is not present.
pub open spec fn present_after(state: Result<crate::registry::EntityView, AdapterErrorView>) -> bool {
    match state {
        Ok(_) => true,
        Err(e) => !is_missing(e),
    }
}

pub open spec fn outcome_view(r: Result<ControlOutcome, AdapterError>) -> Result<OutcomeView, AdapterErrorView> {
    match r {
        Ok(o) => Ok(o@),
        Err(e) => Err(e@),
    }
}

/// What the caller does next in a scene run.
pub enum RunNext {
    /// The entity is not in the registry: look its state up, then `on_presence`.
    CheckPresence(String),
    /// Route this control, then `on_control`.
    Control { entity_id: String, action: String, params: Vec<(String, JsonValue)> },
    /// Every action has its step: `finish`.
    Finished,
}

/// A scene run in progress: the scene, the steps recorded so far (one per
/// action, in order), and whether the current action's entity is known present.
pub struct SceneRun {
    scene: Scene,
    steps: Vec<StepResult>,
    confirmed: bool,
    causes: Ghost<Seq<StepCause>>,
}

impl SceneRun {
    /// The scene's actions.
    pub closed spec fn actions(&self) -> Seq<SceneActionView> {
        actions_view(self.scene.actions@)
    }

    /// The scene's id.
    pub closed spec fn scene_id(&self) -> Seq<char> {
        self.scene.id@
    }

    /// The steps recorded so far.
    pub closed spec fn steps(&self) -> Seq<StepView> {
        steps_view(self.steps@)
    }

    /// Why each recorded step came out as it did.
    pub closed spec fn causes(&self) -> Seq<StepCause> {
        self.causes@
    }

    /// The current action's entity was found present.
    pub closed spec fn confirmed(&self) -> bool {
        self.confirmed
    }

    /// Every action has its step.
    pub open spec fn done(&self) -> bool {
        self.steps().len() == self.actions().len()
    }

    /// Step `i` is the record of action `i` for the cause recorded for it.
    pub open spec fn wf(&self) -> bool {
        &&& self.steps().len() == self.causes().len()
        &&& self.steps().len() <= self.actions().len()
        &&& forall|i: int| 0 <= i < self.steps().len() ==> #[trigger] self.steps()[i] == step_for(i as usize, self.actions()[i], self.causes()[i])
    }

    /// A run of the scene with this id; `NotFound` when there is none.
    pub fn start(engine: &SceneEngine, id: &str) -> (r: Result<SceneRun, SceneError>)
        requires
            engine.wf(),
        ensures
            match r {
                Ok(run) => engine.map().contains_key(id@) && run.wf()
                    && run.actions() == engine.map()[id@].actions
                    && run.scene_id() == engine.map()[id@].id
                    && run.steps() == Seq::<StepView>::empty()
                    && !run.confirmed(),
                Err(e) => !engine.map().contains_key(id@) && e@ == SceneErrorView::NotFound(id@),
            },
    {
        let scene = engine.run_start(id)?;
        let steps: Vec<StepResult> = Vec::new();
        let run = SceneRun { scene, steps, confirmed: false, causes: Ghost(Seq::empty()) };
        proof {
            assert(run.steps() =~= Seq::<StepView>::empty());
        }
        Ok(run)
    }

    /// Whether every action has its step.
    pub fn is_done(&self) -> (r: bool)
        ensures
            r == self.done(),
    {
        self.steps.len() == self.scene.actions.len()
    }

    /// The next thing to do: finish when every action has its step; control the
    /// current action's entity when it is in the registry or known present;
    /// else look its state up.
    pub fn next(&self, registry: &crate::registry::DeviceRegistry) -> (r: RunNext)
        requires
            self.wf(),
            registry.wf(),
        ensures
            self.done() ==> r is Finished,
            !self.done() && (self.confirmed() || registry.map().contains_key(self.actions()[self.steps().len() as int].entity_id))
                ==> (r matches RunNext::Control { entity_id, action, params }
                    && entity_id@ == self.actions()[self.steps().len() as int].entity_id
                    && action@ == self.actions()[self.steps().len() as int].action
                    && entries_view(params@) == self.actions()[self.steps().len() as int].params),
            !self.done() && !self.confirmed() && !registry.map().contains_key(self.actions()[self.steps().len() as int].entity_id)
                ==> (r matches RunNext::CheckPresence(x) && x@ == self.actions()[self.steps().len() as int].entity_id),
    {
        let n = self.steps.len();
        if n == self.scene.actions.len() {
            return RunNext::Finished;
        }
        let a = &self.scene.actions[n];
        proof {
            assert(a@ == self.actions()[n as int]);
        }
        if self.confirmed || registry.contains(a.entity_id.as_str()) {
            RunNext::Control { entity_id: a.entity_id.clone(), action: a.action.clone(), params: json::clone_entries(&a.params) }
        } else {
            RunNext::CheckPresence(a.entity_id.clone())
        }
    }

    /// The state lookup for the current action's entity: present, the action is
    /// controlled next; absent, its step is recorded as skipped.
    pub fn on_presence(&mut self, state: &Result<crate::registry::DeviceEntity, AdapterError>)
        requires
            old(self).wf(),
            !old(self).done(),
        ensures
            final(self).wf(),
            final(self).actions() == old(self).actions(),
            final(self).scene_id() == old(self).scene_id(),
            ({
                let sv = match *state { Ok(e) => Ok(e@), Err(e) => Err(e@) };
                let n = old(self).steps().len();
                let a = old(self).actions()[n as int];
                if present_after(sv) {
                    final(self).confirmed() && final(self).steps() == old(self).steps()
                        && final(self).causes() == old(self).causes()
                } else {
                    !final(self).confirmed()
                        && final(self).steps() == old(self).steps().push(skipped_step_spec(n as usize, a.entity_id, a.action))
                        && final(self).causes() == old(self).causes().push(StepCause::Absent)
                }
            }),
    {
        let n = self.steps.len();
        let present = entity_present_after(state);
        if present {
            self.confirmed = true;
        } else {
            let ghost old_steps = self.steps();
            let s = skipped_step(n, self.scene.actions[n].entity_id.as_str(), self.scene.actions[n].action.as_str());
            proof {
                assert(self.scene.actions@[n as int]@ == self.actions()[n as int]);
            }
            self.steps.push(s);
            self.confirmed = false;
            self.causes = Ghost(self.causes@.push(StepCause::Absent));
            proof {
                assert(self.steps() =~= old_steps.push(skipped_step_spec(n, self.actions()[n as int].entity_id, self.actions()[n as int].action)));
            }
        }
    }

    /// The outcome of the current action's control: its step is recorded.
    pub fn on_control(&mut self, r: Result<ControlOutcome, AdapterError>)
        requires
            old(self).wf(),
            !old(self).done(),
        ensures
            final(self).wf(),
            final(self).actions() == old(self).actions(),
            final(self).scene_id() == old(self).scene_id(),
            !final(self).confirmed(),
            ({
                let n = old(self).steps().len();
                let a = old(self).actions()[n as int];
                &&& final(self).steps() == old(self).steps().push(control_step_spec(n as usize, a.entity_id, a.action, outcome_view(r)))
                &&& final(self).causes() == old(self).causes().push(StepCause::Controlled(outcome_view(r)))
            }),
    {
        let n = self.steps.len();
        let ghost rv = outcome_view(r);
        let ghost old_steps = self.steps();
        let s = step_from_control(n, self.scene.actions[n].entity_id.as_str(), self.scene.actions[n].action.as_str(), r);
        proof {
            assert(self.scene.actions@[n as int]@ == self.actions()[n as int]);
        }
        self.steps.push(s);
        self.confirmed = false;
        self.causes = Ghost(self.causes@.push(StepCause::Controlled(rv)));
        proof {
            assert(self.steps() =~= old_steps.push(control_step_spec(n, self.actions()[n as int].entity_id, self.actions()[n as int].action, rv)));
        }
    }

    /// The finished run: one step per action, in order, step `i` recording
    /// action `i`; a step is skipped exactly when its entity was absent or its
    /// control reported a missing entity, and a skipped step counts as a success.
    pub fn finish(self) -> (r: RunResult)
        requires
            self.wf(),
            self.done(),
        ensures
            r.scene_id@ == self.scene_id(),
            steps_view(r.steps@) == self.steps(),
            r.steps@.len() == self.actions().len(),
            forall|i: int| 0 <= i < r.steps@.len() ==> {
                let s = #[trigger] steps_view(r.steps@)[i];
                &&& s == step_for(i as usize, self.actions()[i], self.causes()[i])
                &&& s.index == i
                &&& s.entity_id == self.actions()[i].entity_id
                &&& s.action == self.actions()[i].action
                &&& (s.skipped ==> s.ok)
                &&& (s.skipped <==> (self.causes()[i] is Absent
                    || (self.causes()[i] matches StepCause::Controlled(Err(e)) && is_missing(e))))
            },
            r.failed@ == failed_indices(self.steps()),
            r.skipped_count == skipped_count_spec(self.steps()),
            r.ok == (failed_indices(self.steps()).len() == 0),
    {
        let ghost sv = self.steps();
        let ghost acts = self.actions();
        let ghost cs = self.causes();
        let r = RunResult::from_steps(self.scene.id, self.steps);
        proof {
            assert forall|i: int| 0 <= i < r.steps@.len() implies {
                let s = #[trigger] steps_view(r.steps@)[i];
                &&& s == step_for(i as usize, acts[i], cs[i])
                &&& s.index == i
                &&& s.entity_id == acts[i].entity_id
                &&& s.action == acts[i].action
                &&& (s.skipped ==> s.ok)
                &&& (s.skipped <==> (cs[i] is Absent || (cs[i] matches StepCause::Controlled(Err(e)) && is_missing(e))))
            } by {
                assert(r.steps@.len() == r.steps.len());
                assert((i as usize) as int == i);
                assert(sv[i] == step_for(i as usize, acts[i], cs[i]));
                match cs[i] {
                    StepCause::Absent => {},
                    StepCause::Controlled(res) => {
                        match res {
                            Ok(o) => {},
                            Err(e) => {
                                if is_missing(e) {} else {}
                            },
                        }
                    },
                }
            }
        }
        r
    }
}

/// A step record as serialized (`error` / `result` only when present).
pub open spec fn step_json(s: StepView) -> JsonView {
    JsonView::Object(
        push_opt(
            push_opt(
                seq![
                    ("index"@, JsonView::Number(NumberView::PosInt(s.index as u64, None))),
                    ("entity_id"@, JsonView::Str(s.entity_id)),
                    ("action"@, JsonView::Str(s.action)),
                    ("ok"@, JsonView::Bool(s.ok)),
                    ("skipped"@, JsonView::Bool(s.skipped)),
                ],
                "error"@,
                str_json(s.error),
            ),
            "result"@,
            s.result,
        ),
    )
}

pub open spec fn indices_json(v: Seq<usize>) -> JsonView {
    JsonView::Array(v.map_values(|i: usize| JsonView::Number(NumberView::PosInt(i as u64, None))))
}

/// A run result as serialized.
pub open spec fn run_json(scene_id: Seq<char>, ok: bool, steps: Seq<StepView>, failed: Seq<usize>, skipped: usize) -> JsonView {
    JsonView::Object(seq![
        ("scene_id"@, JsonView::Str(scene_id)),
        ("ok"@, JsonView::Bool(ok)),
        ("steps"@, JsonView::Array(steps.map_values(|s: StepView| step_json(s)))),
        ("failed"@, indices_json(failed)),
        ("skipped_count"@, JsonView::Number(NumberView::PosInt(skipped as u64, None))),
    ])
}

impl StepResult {
    /// The record as serialized.
    pub fn to_json(&self) -> (r: JsonValue)
        ensures
            r@ == step_json(self@),
    {
        let mut e: Vec<(String, JsonValue)> = Vec::new();
        json::push_entry(&mut e, "index", JsonValue::uint(self.index as u64));
        json::push_entry(&mut e, "entity_id", JsonValue::str(self.entity_id.as_str()));
        json::push_entry(&mut e, "action", JsonValue::str(self.action.as_str()));
        json::push_entry(&mut e, "ok", JsonValue::Bool(self.ok));
        json::push_entry(&mut e, "skipped", JsonValue::Bool(self.skipped));
        proof {
            assert(entries_view(e@) =~= seq![
                ("index"@, JsonView::Number(NumberView::PosInt(self.index as u64, None))),
                ("entity_id"@, JsonView::Str(self@.entity_id)),
                ("action"@, JsonView::Str(self@.action)),
                ("ok"@, JsonView::Bool(self@.ok)),
                ("skipped"@, JsonView::Bool(self@.skipped)),
            ]);
        }
        match &self.error {
            Some(x) => json::push_entry(&mut e, "error", JsonValue::str(x.as_str())),
            None => {},
        }
        match &self.result {
            Some(x) => json::push_entry(&mut e, "result", x.deep_clone()),
            None => {},
        }
        JsonValue::object(e)
    }
}

impl RunResult {
    /// The run as serialized.
    pub fn to_json(&self) -> (r: JsonValue)
        ensures
            r@ == run_json(self.scene_id@, self.ok, steps_view(self.steps@), self.failed@, self.skipped_count),
    {
        let mut steps: Vec<JsonValue> = Vec::new();
        let mut i: usize = 0;
        while i < self.steps.len()
            invariant
                i <= self.steps@.len(),
                steps@.len() == i,
                forall|k: int| 0 <= k < i ==> json::json_view(#[trigger] steps@[k]) == step_json(self.steps@[k]@),
            decreases self.steps.len() - i,
        {
            steps.push(self.steps[i].to_json());
            i = i + 1;
        }
        let mut failed: Vec<JsonValue> = Vec::new();
        let mut j: usize = 0;
        while j < self.failed.len()
            invariant
                j <= self.failed@.len(),
                failed@.len() == j,
                forall|k: int| 0 <= k < j ==> json::json_view(#[trigger] failed@[k]) == JsonView::Number(NumberView::PosInt(self.failed@[k] as u64, None)),
            decreases self.failed.len() - j,
        {
            failed.push(JsonValue::uint(self.failed[j] as u64));
            j = j + 1;
        }
        proof {
            assert(json::values_view(steps@) =~= steps_view(self.steps@).map_values(|s: StepView| step_json(s)));
            assert(json::values_view(failed@) =~= self.failed@.map_values(|i: usize| JsonView::Number(NumberView::PosInt(i as u64, None))));
        }
        let mut e: Vec<(String, JsonValue)> = Vec::new();
        json::push_entry(&mut e, "scene_id", JsonValue::str(self.scene_id.as_str()));
        json::push_entry(&mut e, "ok", JsonValue::Bool(self.ok));
        json::push_entry(&mut e, "steps", JsonValue::array(steps));
        json::push_entry(&mut e, "failed", JsonValue::array(failed));
        json::push_entry(&mut e, "skipped_count", JsonValue::uint(self.skipped_count as u64));
        proof {
            assert(entries_view(e@) =~= seq![
                ("scene_id"@, JsonView::Str(self.scene_id@)),
                ("ok"@, JsonView::Bool(self.ok)),
                ("steps"@, JsonView::Array(steps_view(self.steps@).map_values(|s: StepView| step_json(s)))),
                ("failed"@, indices_json(self.failed@)),
                ("skipped_count"@, JsonView::Number(NumberView::PosInt(self.skipped_count as u64, None))),
            ]);
        }
        JsonValue::object(e)
    }
}

} // verus!
