//! Properties of the hub that span several operations, stated over the models
//! that the operations' contracts use, and proved.

use vstd::prelude::*;
use crate::json::JsonView;
use crate::registry::{DeviceEntity, DeviceRegistry, EntityView, is_faker_tagged, without_ha};
use crate::store::{self, fold_insert, has_key};
use crate::faker::{faker_apply, seed_at_boot_spec};
use crate::router::{resolve_start_spec, ResolveStepView};
use crate::scene::{SceneEngine, SceneView, StepView, control_step_spec, failed_indices, skipped_count_spec, is_missing};
use crate::router::OutcomeView;
use crate::adapter::AdapterErrorView;
use crate::lan::{infer_kind_spec, default_commands_spec};
use crate::companion::{CompanionAdapter, CompanionView};
use crate::text;
use crate::auth::{AuthService, PairError, pair_start_spec, validate_start_spec, revoke_start_spec};
use crate::brand::{brand_of, faker_of};
use crate::events::redacted;
use crate::json;
use crate::json::{NumberView, FloatView};
use crate::ha::{plan_spec, merge_extra, id_only};
use crate::mcp::{parse_type_spec, type_keep};
use crate::registry::type_of_domain;
use crate::lan::{scan_hosts_spec, ipv4_text};
use crate::ha::{HaSyncStep, cycle_step};
use crate::registry::EntityType;
use crate::capability::{
    CapabilityKind, CapabilityView, derive_spec, opt_cap, light_has_brightness, light_has_color_temp, light_has_color,
    string_list_attr,
};

verus! {

// ---------------------------------------------------------------------------
// Registry
// ---------------------------------------------------------------------------

/// After an entity is stored, reading its id gives it back, and every other id
/// reads as before.
pub proof fn law_registry_read_after_write(before: DeviceRegistry, after: DeviceRegistry, e: EntityView, k: Seq<char>)
    requires
        after.map() == before.map().insert(e.entity_id, e),
    ensures
        after.map().contains_key(e.entity_id),
        after.map()[e.entity_id] == e,
        k != e.entity_id ==> after.map().contains_key(k) == before.map().contains_key(k),
        k != e.entity_id && before.map().contains_key(k) ==> after.map()[k] == before.map()[k],
{
}

/// After a scene is stored, reading its id gives it back, and every other id
/// reads as before.
pub proof fn law_scene_read_after_write(before: SceneEngine, after: SceneEngine, s: SceneView, k: Seq<char>)
    requires
        after.map() == before.map().insert(s.id, s),
    ensures
        after.map().contains_key(s.id),
        after.map()[s.id] == s,
        k != s.id ==> after.map().contains_key(k) == before.map().contains_key(k),
        k != s.id && before.map().contains_key(k) ==> after.map()[k] == before.map()[k],
{
}

/// After a Companion is stored it reads back as stored; after it is removed it
/// is gone; other ids are untouched either way.
pub proof fn law_companion_write_and_remove(
    before: CompanionAdapter,
    after: CompanionAdapter,
    d: CompanionView,
    id: Seq<char>,
    k: Seq<char>,
)
    ensures
        after.map() == before.map().insert(d.id, d) ==> after.map().contains_key(d.id) && after.map()[d.id] == d
            && (k != d.id ==> after.map().contains_key(k) == before.map().contains_key(k)),
        after.map() == before.map().remove(id) ==> !after.map().contains_key(id)
            && (k != id ==> after.map().contains_key(k) == before.map().contains_key(k)),
{
}

/// A Home Assistant sync replaces only HA entities: an entity from another
/// source that the batch does not name stays as it was; an HA entity that the
/// batch does not name is gone; every id in the batch reads as the last batch
/// entry with that id.
pub proof fn law_ha_sync_keeps_other_sources(before: Map<Seq<char>, EntityView>, batch: Seq<EntityView>, k: Seq<char>)
    ensures
        before.contains_key(k) && before[k].source != "ha"@ && !has_key::<DeviceEntity>(batch, k) ==>
            fold_insert::<DeviceEntity>(without_ha(before), batch).contains_key(k)
            && fold_insert::<DeviceEntity>(without_ha(before), batch)[k] == before[k],
        before.contains_key(k) && before[k].source == "ha"@ && !has_key::<DeviceEntity>(batch, k) ==>
            !fold_insert::<DeviceEntity>(without_ha(before), batch).contains_key(k),
        !before.contains_key(k) && !has_key::<DeviceEntity>(batch, k) ==>
            !fold_insert::<DeviceEntity>(without_ha(before), batch).contains_key(k),
        has_key::<DeviceEntity>(batch, k) ==> fold_insert::<DeviceEntity>(without_ha(before), batch).contains_key(k)
            && exists|j: int| 0 <= j < batch.len() && batch[j].entity_id == k
                && fold_insert::<DeviceEntity>(without_ha(before), batch)[k] == batch[j]
                && forall|j2: int| j < j2 < batch.len() ==> (#[trigger] batch[j2]).entity_id != k,
{
    store::lemma_fold_insert_lookup::<DeviceEntity>(without_ha(before), batch, k);
}

// ---------------------------------------------------------------------------
// Faker stubs
// ---------------------------------------------------------------------------

/// On a faker stub, `turn_on` leaves it `on` and `turn_off` leaves it `off`,
/// both available, with id, type and source kept.
pub proof fn law_faker_on_off(m: Map<Seq<char>, EntityView>, id: Seq<char>, params: Seq<(Seq<char>, JsonView)>)
    requires
        m.contains_key(id),
        is_faker_tagged(m[id]),
    ensures
        faker_apply(m, id, "turn_on"@, params) matches Ok(e) && e.state == "on"@ && e.available
            && e.entity_id == m[id].entity_id && e.entity_type == m[id].entity_type && e.source == m[id].source,
        faker_apply(m, id, "turn_off"@, params) matches Ok(e) && e.state == "off"@ && e.available
            && e.entity_id == m[id].entity_id && e.entity_type == m[id].entity_type && e.source == m[id].source
            && e.attributes == m[id].attributes,
{
    reveal_strlit("turn_on");
    reveal_strlit("turn_off");
    assert("turn_off"@.len() == 8 && "turn_on"@.len() == 7);
}

/// Toggling a faker stub that is `on` or `off` twice brings it back to the
/// state it had.
pub proof fn law_faker_toggle_twice(
    m: Map<Seq<char>, EntityView>,
    id: Seq<char>,
    p1: Seq<(Seq<char>, JsonView)>,
    p2: Seq<(Seq<char>, JsonView)>,
)
    requires
        m.contains_key(id),
        is_faker_tagged(m[id]),
        m[id].state == "on"@ || m[id].state == "off"@,
    ensures
        faker_apply(m, id, "toggle"@, p1) matches Ok(e1) && (e1.state != m[id].state
            && (faker_apply(m.insert(id, e1), id, "toggle"@, p2) matches Ok(e2)
            && e2.state == m[id].state
            && e2.attributes == m[id].attributes)),
{
    reveal_strlit("toggle");
    reveal_strlit("turn_on");
    reveal_strlit("turn_off");
    reveal_strlit("set_brightness");
    reveal_strlit("on");
    reveal_strlit("off");
    reveal_strlit("cool");
    assert("toggle"@.len() == 6 && "turn_on"@.len() == 7 && "turn_off"@.len() == 8);
    assert("on"@.len() == 2 && "off"@.len() == 3 && "cool"@.len() == 4);
}

/// Only faker stubs are touched by faker actions: any action on an entity that
/// is not a faker stub is refused.
pub proof fn law_faker_refuses_other_sources(
    m: Map<Seq<char>, EntityView>,
    id: Seq<char>,
    action: Seq<char>,
    params: Seq<(Seq<char>, JsonView)>,
)
    requires
        m.contains_key(id),
        !is_faker_tagged(m[id]),
    ensures
        faker_apply(m, id, action, params) is Err,
{
}

/// Without an HA token, and without `SEED_FAKER_DEVICES`, the hub seeds the
/// faker stubs at boot; an explicit `0` turns them off whatever HA is.
pub proof fn law_no_ha_token_seeds_stubs(ha_url: Seq<char>, ha_token: Seq<char>)
    ensures
        ha_token.len() == 0 ==> seed_at_boot_spec(None, ha_url.len() > 0 && ha_token.len() > 0),
        !seed_at_boot_spec(Some("0"@), ha_url.len() > 0 && ha_token.len() > 0),
{
    reveal_strlit("0");
    let z = "0"@;
    assert(z.len() == 1 && z[0] == '0');
    assert(text::ws_prefix_len(z) == 0);
    assert(z.skip(0) =~= z);
    assert(text::ws_suffix_len(z) == 0);
    assert(z.take(1) =~= z);
    assert(text::trimmed(z) == z);
    assert(text::lower(z) =~= z);
}

// ---------------------------------------------------------------------------
// Routing
// ---------------------------------------------------------------------------

/// With the faker backend registered, a faker-tagged entity is always routed to
/// it, whatever else is registered.
pub proof fn law_faker_entity_served_by_faker(srcs: Set<Seq<char>>, ids: Seq<Seq<char>>, e: EntityView, entity_id: Seq<char>)
    requires
        srcs.contains("faker"@),
        is_faker_tagged(e),
    ensures
        resolve_start_spec(srcs, ids, Some(e), entity_id) == ResolveStepView::Resolved("faker"@),
{
}

// ---------------------------------------------------------------------------
// Scenes
// ---------------------------------------------------------------------------

/// A scene step whose entity is missing is skipped and counts as a success.
pub proof fn law_missing_entity_is_skipped(index: usize, entity_id: Seq<char>, action: Seq<char>, e: AdapterErrorView)
    requires
        is_missing(e),
    ensures
        control_step_spec(index, entity_id, action, Err::<OutcomeView, AdapterErrorView>(e)).skipped,
        control_step_spec(index, entity_id, action, Err::<OutcomeView, AdapterErrorView>(e)).ok,
{
}

/// A run has no failed step exactly when every step succeeded or was skipped,
/// and failed plus skipped steps never outnumber the steps.
pub proof fn law_run_fails_only_on_failed_steps(steps: Seq<StepView>)
    ensures
        (failed_indices(steps).len() == 0) <==> (forall|i: int| 0 <= i < steps.len() ==> (#[trigger] steps[i]).ok || steps[i].skipped),
        failed_indices(steps).len() + skipped_count_spec(steps) <= steps.len(),
    decreases steps.len(),
{
    reveal(Seq::filter);
    if steps.len() > 0 {
        let p = steps.drop_last();
        law_run_fails_only_on_failed_steps(p);
        let f = |s: StepView| !s.skipped && !s.ok;
        let g = |s: StepView| s.skipped;
        assert(steps.filter(f) == if f(steps.last()) { p.filter(f).push(steps.last()) } else { p.filter(f) });
        assert(steps.filter(g) == if g(steps.last()) { p.filter(g).push(steps.last()) } else { p.filter(g) });
        if forall|i: int| 0 <= i < steps.len() ==> (#[trigger] steps[i]).ok || steps[i].skipped {
            assert forall|i: int| 0 <= i < p.len() implies (#[trigger] p[i]).ok || p[i].skipped by {
                assert(p[i] == steps[i]);
            }
            assert(steps[steps.len() - 1].ok || steps[steps.len() - 1].skipped);
        } else {
            let i = choose|i: int| 0 <= i < steps.len() && !((#[trigger] steps[i]).ok || steps[i].skipped);
            if i < p.len() {
                assert(p[i] == steps[i]);
            }
        }
    }
}

// ---------------------------------------------------------------------------
// LAN listeners
// ---------------------------------------------------------------------------

/// The listener ports name the kind of a service that does not name it itself:
/// 9877 a phone, 9879 a robot, 9878 a chip, and anything else a PC; a robot
/// answers ping / stop / dock / start, a PC or phone ping / notify / lock.
pub proof fn law_listener_ports(service: Seq<char>, port: u16)
    requires
        !text::has_sub(service, "android"@),
        !text::has_sub(service, "robot"@),
        !text::has_sub(service, "chip"@),
    ensures
        port == 9877 ==> infer_kind_spec(service, port) == "phone"@,
        port == 9879 ==> infer_kind_spec(service, port) == "robot"@,
        port == 9878 ==> infer_kind_spec(service, port) == "chip"@,
        port != 9877 && port != 9878 && port != 9879 ==> infer_kind_spec(service, port) == "pc"@,
        default_commands_spec("robot"@) == seq!["ping"@, "stop"@, "dock"@, "start"@],
        default_commands_spec("pc"@) == seq!["ping"@, "notify"@, "lock"@],
        default_commands_spec("phone"@) == seq!["ping"@, "notify"@, "lock"@],
{
    reveal_strlit("chip");
    reveal_strlit("robot");
    reveal_strlit("pc");
    reveal_strlit("phone");
    assert("robot"@.len() == 5 && "chip"@.len() == 4 && "pc"@.len() == 2 && "phone"@.len() == 5);
    assert("phone"@[0] != "robot"@[0]);
}

// ---------------------------------------------------------------------------
// Brands, pairing, logging
// ---------------------------------------------------------------------------

/// Brand inference and the faker flag ignore ASCII letter case: lower- or
/// upper-casing the entity id and the friendly name changes neither.
pub proof fn law_brand_ignores_case(entity_id: Seq<char>, friendly_name: Seq<char>)
    ensures
        brand_of(entity_id, friendly_name) == brand_of(text::lower(entity_id), text::lower(friendly_name)),
        brand_of(entity_id, friendly_name) == brand_of(text::upper(entity_id), text::upper(friendly_name)),
        faker_of(entity_id, friendly_name) == faker_of(text::lower(entity_id), text::lower(friendly_name)),
        faker_of(entity_id, friendly_name) == faker_of(text::upper(entity_id), text::upper(friendly_name)),
{
    text::lemma_lower_forgets_case(entity_id);
    text::lemma_lower_forgets_case(friendly_name);
}

/// Without a bound token store, pairing, token checks and revocation all
/// answer `Unavailable`, whatever code or token they are given.
pub proof fn law_no_store_is_unavailable(a: AuthService, code: Option<Seq<char>>, token: Seq<char>)
    requires
        !a.is_bound(),
    ensures
        pair_start_spec(a.is_bound(), code) == Err::<Option<Seq<char>>, PairError>(PairError::Unavailable),
        validate_start_spec(a.is_bound(), token) == Err::<Seq<char>, PairError>(PairError::Unavailable),
        revoke_start_spec(a.is_bound(), token) == Err::<Option<Seq<char>>, PairError>(PairError::Unavailable),
{
}

/// A store URI `<scheme>://<credentials>@<host>` is logged as
/// `<scheme>://***@<host>`, so what is logged does not depend on the
/// credentials (the scheme holding no `://` and the host no `@`).
pub proof fn law_redaction_hides_credentials(scheme: Seq<char>, cred1: Seq<char>, cred2: Seq<char>, host: Seq<char>)
    requires
        !text::has_sub(scheme, "://"@),
        !host.contains('@'),
    ensures
        redacted(scheme + "://"@ + cred1 + "@"@ + host) == scheme + "://***@"@ + host,
        redacted(scheme + "://"@ + cred1 + "@"@ + host) == redacted(scheme + "://"@ + cred2 + "@"@ + host),
{
    lemma_redacted_uri(scheme, cred1, host);
    lemma_redacted_uri(scheme, cred2, host);
}

#[verifier::rlimit(60)]
proof fn lemma_separator_after_scheme(scheme: Seq<char>, rest: Seq<char>)
    requires
        !text::has_sub(scheme, "://"@),
    ensures
        text::first_occurrence(scheme + "://"@ + rest, "://"@) == Some(scheme.len() as int),
{
    reveal_strlit("://");
    let sep = "://"@;
    assert(sep.len() == 3 && sep[0] == ':' && sep[1] == '/' && sep[2] == '/');
    let u = scheme + sep + rest;
    let k = scheme.len() as int;
    assert(u[k] == ':');
    assert(u.subrange(k, k + 3) =~= sep);
    assert(text::occurs_at(u, sep, k));
    assert forall|j: int| 0 <= j < k implies !text::occurs_at(u, sep, j) by {
        if text::occurs_at(u, sep, j) {
            if j + 3 <= k {
                assert(scheme.subrange(j, j + 3) =~= u.subrange(j, j + 3));
                assert(text::occurs_at(scheme, sep, j));
            } else if j == k - 1 {
                assert(u.subrange(j, j + 3)[1] == u[k]);
            } else {
                assert(u.subrange(j, j + 3)[2] == u[k]);
            }
        }
    }
    assert(text::has_sub(u, sep));
    let se = text::first_occurrence(u, sep)->0;
    assert(text::occurs_at(u, sep, se) && forall|j: int| 0 <= j < se ==> !text::occurs_at(u, sep, j));
    assert(se == k);
}

proof fn lemma_last_at_before_host(front: Seq<char>, host: Seq<char>)
    requires
        !host.contains('@'),
    ensures
        text::last_index(front + "@"@ + host, '@') == Some(front.len() as int),
{
    reveal_strlit("@");
    let at_s = "@"@;
    assert(at_s.len() == 1 && at_s[0] == '@');
    let u = front + at_s + host;
    let at = front.len() as int;
    assert(u[at] == '@');
    assert forall|j: int| at < j < u.len() implies u[j] != '@' by {
        assert(u[j] == host[j - at - 1]);
    }
    let ai = text::last_index(u, '@')->0;
    assert(0 <= ai < u.len() && u[ai] == '@' && forall|j: int| ai < j < u.len() ==> u[j] != '@');
    assert(ai == at);
}

#[verifier::rlimit(60)]
proof fn lemma_redacted_uri(scheme: Seq<char>, cred: Seq<char>, host: Seq<char>)
    requires
        !text::has_sub(scheme, "://"@),
        !host.contains('@'),
    ensures
        redacted(scheme + "://"@ + cred + "@"@ + host) == scheme + "://***@"@ + host,
{
    reveal_strlit("://");
    reveal_strlit("@");
    let u = scheme + "://"@ + cred + "@"@ + host;
    let k = scheme.len() as int;
    let front = scheme + "://"@ + cred;
    assert(u =~= scheme + "://"@ + (cred + "@"@ + host));
    lemma_separator_after_scheme(scheme, cred + "@"@ + host);
    lemma_last_at_before_host(front, host);
    assert(u.take(k) =~= scheme);
    assert(u.skip(front.len() as int + 1) =~= host);
}

// ---------------------------------------------------------------------------
// Capabilities
// ---------------------------------------------------------------------------

/// Every attribute of `a1` is also in `a2`, with the same value.
pub open spec fn attrs_extend(a1: Seq<(Seq<char>, JsonView)>, a2: Seq<(Seq<char>, JsonView)>) -> bool {
    forall|k: Seq<char>| #[trigger] json::lookup(a1, k) is Some ==> json::lookup(a2, k) == json::lookup(a1, k)
}

/// Some capability in `caps` is of kind `k`.
pub open spec fn has_kind(caps: Seq<CapabilityView>, k: CapabilityKind) -> bool {
    exists|i: int| 0 <= i < caps.len() && (#[trigger] caps[i]).kind == k
}

proof fn lemma_has_kind_concat(s1: Seq<CapabilityView>, s2: Seq<CapabilityView>, k: CapabilityKind)
    ensures
        has_kind(s1 + s2, k) == (has_kind(s1, k) || has_kind(s2, k)),
{
    let s = s1 + s2;
    if has_kind(s, k) {
        let i = choose|i: int| 0 <= i < s.len() && (#[trigger] s[i]).kind == k;
        if i < s1.len() {
            assert(s1[i] == s[i]);
        } else {
            assert(s2[i - s1.len()] == s[i]);
        }
    }
    if has_kind(s1, k) {
        let i = choose|i: int| 0 <= i < s1.len() && (#[trigger] s1[i]).kind == k;
        assert(s[i] == s1[i]);
    }
    if has_kind(s2, k) {
        let i = choose|i: int| 0 <= i < s2.len() && (#[trigger] s2[i]).kind == k;
        assert(s[i + s1.len()] == s2[i]);
    }
}

proof fn lemma_has_kind_one(c: CapabilityView, k: CapabilityKind)
    ensures
        has_kind(seq![c], k) == (c.kind == k),
{
    assert(seq![c][0] == c);
}

proof fn lemma_has_kind_opt(b: bool, c: CapabilityView, k: CapabilityKind)
    ensures
        has_kind(opt_cap(b, c), k) == (b && c.kind == k),
{
    lemma_has_kind_one(c, k);
    if !b {
        assert(opt_cap(b, c).len() == 0);
    }
}

proof fn lemma_caps_kinds(t: EntityType, a: Seq<(Seq<char>, JsonView)>, k: CapabilityKind)
    ensures
        t == EntityType::Light ==> has_kind(derive_spec(t, a), k) == (k == CapabilityKind::OnOff
            || (light_has_brightness(a) && k == CapabilityKind::Brightness)
            || (light_has_color_temp(a) && k == CapabilityKind::ColorTemp)
            || (light_has_color(a) && k == CapabilityKind::Color)),
        t == EntityType::Climate ==> has_kind(derive_spec(t, a), k) == (k == CapabilityKind::OnOff
            || k == CapabilityKind::Thermostat
            || (string_list_attr(a, "hvac_modes"@).len() > 0 && k == CapabilityKind::HvacMode)),
        (t == EntityType::Switch || t == EntityType::Fan) ==> has_kind(derive_spec(t, a), k) == (k
            == CapabilityKind::OnOff || (t == EntityType::Fan && (json::lookup(a, "percentage"@) is Some
            || json::lookup(a, "speed"@) is Some) && k == CapabilityKind::FanSpeed)),
{
    let caps = derive_spec(t, a);
    match t {
        EntityType::Light => {
            let c0 = seq![crate::capability::on_off_cap()];
            let o1 = opt_cap(light_has_brightness(a), crate::capability::brightness_cap());
            let o2 = opt_cap(light_has_color_temp(a), crate::capability::color_temp_cap());
            let o3 = opt_cap(light_has_color(a), crate::capability::color_cap());
            lemma_has_kind_concat(c0 + o1 + o2, o3, k);
            lemma_has_kind_concat(c0 + o1, o2, k);
            lemma_has_kind_concat(c0, o1, k);
            lemma_has_kind_one(crate::capability::on_off_cap(), k);
            lemma_has_kind_opt(light_has_brightness(a), crate::capability::brightness_cap(), k);
            lemma_has_kind_opt(light_has_color_temp(a), crate::capability::color_temp_cap(), k);
            lemma_has_kind_opt(light_has_color(a), crate::capability::color_cap(), k);
        },
        EntityType::Climate => {
            let c0 = seq![crate::capability::on_off_cap()];
            let min_t = match crate::capability::num_attr(a, seq!["min_temp"@, "min_temperature"@]) {
                Some(f) => f,
                None => crate::capability::default_min_temp_f(),
            };
            let max_t = match crate::capability::num_attr(a, seq!["max_temp"@, "max_temperature"@]) {
                Some(f) => f,
                None => crate::capability::default_max_temp_f(),
            };
            let th = crate::capability::thermostat_cap(min_t, max_t);
            let modes = string_list_attr(a, "hvac_modes"@);
            let o = opt_cap(modes.len() > 0, crate::capability::hvac_mode_cap(modes));
            assert(seq![crate::capability::on_off_cap(), th] =~= c0 + seq![th]);
            lemma_has_kind_concat(c0 + seq![th], o, k);
            lemma_has_kind_concat(c0, seq![th], k);
            lemma_has_kind_one(crate::capability::on_off_cap(), k);
            lemma_has_kind_one(th, k);
            lemma_has_kind_opt(modes.len() > 0, crate::capability::hvac_mode_cap(modes), k);
        },
        EntityType::Switch | EntityType::Fan => {
            let b = t == EntityType::Fan && (crate::capability::has_attr(a, "percentage"@)
                || crate::capability::has_attr(a, "speed"@));
            lemma_has_kind_concat(seq![crate::capability::on_off_cap()], opt_cap(b, crate::capability::fan_speed_cap()), k);
            lemma_has_kind_one(crate::capability::on_off_cap(), k);
            lemma_has_kind_opt(b, crate::capability::fan_speed_cap(), k);
        },
        _ => {},
    }
}

/// Adding attributes never takes a capability away: when `a2` holds every
/// attribute of `a1` with the same value, every capability kind derived from
/// `a1` is also derived from `a2`, for any entity type.
pub proof fn law_more_attributes_keep_capabilities(
    t: EntityType,
    a1: Seq<(Seq<char>, JsonView)>,
    a2: Seq<(Seq<char>, JsonView)>,
    k: CapabilityKind,
)
    requires
        attrs_extend(a1, a2),
        has_kind(derive_spec(t, a1), k),
    ensures
        has_kind(derive_spec(t, a2), k),
{
    lemma_caps_kinds(t, a1, k);
    lemma_caps_kinds(t, a2, k);
    assert(json::lookup(a1, "supported_color_modes"@) is Some ==> json::lookup(a2, "supported_color_modes"@)
        == json::lookup(a1, "supported_color_modes"@));
    assert(json::lookup(a1, "supported_features"@) is Some ==> json::lookup(a2, "supported_features"@)
        == json::lookup(a1, "supported_features"@));
    assert(json::lookup(a1, "hvac_modes"@) is Some ==> json::lookup(a2, "hvac_modes"@) == json::lookup(a1, "hvac_modes"@));
    assert(json::lookup(a1, "brightness"@) is Some ==> json::lookup(a2, "brightness"@) is Some);
    assert(json::lookup(a1, "brightness_pct"@) is Some ==> json::lookup(a2, "brightness_pct"@) is Some);
    assert(json::lookup(a1, "color_temp"@) is Some ==> json::lookup(a2, "color_temp"@) is Some);
    assert(json::lookup(a1, "color_temp_kelvin"@) is Some ==> json::lookup(a2, "color_temp_kelvin"@) is Some);
    assert(json::lookup(a1, "hs_color"@) is Some ==> json::lookup(a2, "hs_color"@) is Some);
    assert(json::lookup(a1, "rgb_color"@) is Some ==> json::lookup(a2, "rgb_color"@) is Some);
    assert(json::lookup(a1, "percentage"@) is Some ==> json::lookup(a2, "percentage"@) is Some);
    assert(json::lookup(a1, "speed"@) is Some ==> json::lookup(a2, "speed"@) is Some);
}

// ---------------------------------------------------------------------------
// Home Assistant sync schedule
// ---------------------------------------------------------------------------

/// The steps of `n` calls of `HaSyncSchedule::next` from cycle position `pos`,
/// and the position they end at.
pub open spec fn run_from(pos: int, configured: bool, interval: u64, n: nat) -> (Seq<HaSyncStep>, int)
    decreases n,
{
    if n == 0 {
        (seq![], pos)
    } else {
        let (st, p) = cycle_step(pos, configured, interval);
        let (rest, q) = run_from(p, configured, interval, (n - 1) as nat);
        (seq![st] + rest, q)
    }
}

/// `k` REST polls, each after a wait.
pub open spec fn polls(interval: u64, k: nat) -> Seq<HaSyncStep>
    decreases k,
{
    if k == 0 {
        seq![]
    } else {
        seq![HaSyncStep::Sleep(interval), HaSyncStep::Sync] + polls(interval, (k - 1) as nat)
    }
}

/// A sync cycle: with HA configured, a WebSocket session and then six REST
/// polls, each after a wait, before the WebSocket is tried again; without HA,
/// the six polls alone. Either way the cycle then starts over.
pub proof fn law_sync_cycle(interval: u64)
    ensures
        run_from(0, true, interval, 13) == (seq![HaSyncStep::WebSocket] + polls(interval, 6), 0int),
        run_from(0, false, interval, 12) == (polls(interval, 6), 0int),
{
    reveal_with_fuel(run_from, 14);
    reveal_with_fuel(polls, 7);
    assert(run_from(0, true, interval, 13).0 =~= seq![HaSyncStep::WebSocket] + polls(interval, 6));
    assert(run_from(0, false, interval, 12).0 =~= polls(interval, 6));
}

// ---------------------------------------------------------------------------
// Device control and discovery
// ---------------------------------------------------------------------------

proof fn lemma_merge_keeps_reserved(base: Seq<(Seq<char>, JsonView)>, params: Seq<(Seq<char>, JsonView)>, key: Seq<char>)
    requires
        key == "brightness"@ || key == "temperature"@,
    ensures
        json::lookup(merge_extra(base, params), key) == json::lookup(base, key),
    decreases params.len(),
{
    if params.len() > 0 {
        lemma_merge_keeps_reserved(base, params.drop_last(), key);
        let (k, v) = params.last();
        json::lemma_lookup_put(merge_extra(base, params.drop_last()), k, v, key);
    }
}

/// `set_brightness` on Home Assistant turns the light on at the requested
/// level: the service call is `turn_on` and its data carries the `brightness`
/// parameter as given, or 255 when the parameters hold none.
pub proof fn law_set_brightness_passes_requested_level(entity_id: Seq<char>, params: Seq<(Seq<char>, JsonView)>)
    ensures
        plan_spec(entity_id, "set_brightness"@, params) matches Ok(c) && c.service == "turn_on"@
            && json::lookup(c.data, "brightness"@) == Some(match json::lookup(params, "brightness"@) {
                Some(v) => v,
                None => JsonView::Number(NumberView::PosInt(255, None)),
            }),
{
    reveal_strlit("set_brightness");
    reveal_strlit("turn_on");
    reveal_strlit("turn_off");
    reveal_strlit("toggle");
    reveal_strlit("set_temperature");
    reveal_strlit("entity_id");
    reveal_strlit("brightness");
    assert("set_brightness"@.len() == 14 && "turn_on"@.len() == 7 && "turn_off"@.len() == 8 && "toggle"@.len() == 6);
    assert("set_temperature"@.len() == 15);
    assert("entity_id"@.len() == 9 && "brightness"@.len() == 10);
    let x = match json::lookup(params, "brightness"@) {
        Some(v) => v,
        None => JsonView::Number(NumberView::PosInt(255, None)),
    };
    let ids = id_only(entity_id);
    assert(ids.drop_first() =~= Seq::<(Seq<char>, JsonView)>::empty());
    assert(ids.len() == 1 && ids[0].0 == "entity_id"@);
    json::lemma_lookup_none(ids, "brightness"@);
    json::lemma_lookup_push(ids, "brightness"@, x, "brightness"@);
    lemma_merge_keeps_reserved(ids.push(("brightness"@, x)), params, "brightness"@);
}

/// `set_temperature` on Home Assistant calls `climate.set_temperature` with the
/// `temperature` parameter as given, or 24 when the parameters hold none.
pub proof fn law_set_temperature_passes_requested_value(entity_id: Seq<char>, params: Seq<(Seq<char>, JsonView)>)
    ensures
        plan_spec(entity_id, "set_temperature"@, params) matches Ok(c) && c.service == "set_temperature"@
            && c.domain == "climate"@
            && json::lookup(c.data, "temperature"@) == Some(match json::lookup(params, "temperature"@) {
                Some(v) => v,
                None => JsonView::Number(NumberView::Float(FloatView { bits: 0x4038000000000000, text: "24"@ })),
            }),
{
    reveal_strlit("set_temperature");
    reveal_strlit("turn_on");
    reveal_strlit("turn_off");
    reveal_strlit("toggle");
    reveal_strlit("entity_id");
    reveal_strlit("temperature");
    assert("set_temperature"@.len() == 15 && "turn_on"@.len() == 7 && "turn_off"@.len() == 8 && "toggle"@.len() == 6);
    assert("entity_id"@.len() == 9 && "temperature"@.len() == 11);
    let x = match json::lookup(params, "temperature"@) {
        Some(v) => v,
        None => JsonView::Number(NumberView::Float(FloatView { bits: 0x4038000000000000, text: "24"@ })),
    };
    let ids = id_only(entity_id);
    assert(ids.len() == 1 && ids[0].0 == "entity_id"@);
    json::lemma_lookup_none(ids, "temperature"@);
    json::lemma_lookup_push(ids, "temperature"@, x, "temperature"@);
    lemma_merge_keeps_reserved(ids.push(("temperature"@, x)), params, "temperature"@);
}

/// A type filter word that names an entity domain (ASCII case-insensitively,
/// plurals `lights`, `switches`, `sensors` too) selects the entity type that
/// the domain maps to, and the `devices.list` type filter keeps exactly the
/// entities of that type.
pub proof fn law_type_words_name_domains(w: Seq<char>, e: EntityView)
    ensures
        text::lower(w) == "light"@ || text::lower(w) == "switch"@ || text::lower(w) == "climate"@
            || text::lower(w) == "cover"@ || text::lower(w) == "fan"@ || text::lower(w) == "sensor"@
            || text::lower(w) == "binary_sensor"@ ==> parse_type_spec(w) == Some(type_of_domain(text::lower(w)))
            && type_keep(Some(w), e) == (e.entity_type == type_of_domain(text::lower(w))),
        text::lower(w) == "lights"@ ==> parse_type_spec(w) == Some(type_of_domain("light"@)),
        text::lower(w) == "switches"@ ==> parse_type_spec(w) == Some(type_of_domain("switch"@)),
        text::lower(w) == "sensors"@ ==> parse_type_spec(w) == Some(type_of_domain("sensor"@)),
{
    reveal_strlit("light");
    reveal_strlit("lights");
    reveal_strlit("switch");
    reveal_strlit("switches");
    reveal_strlit("climate");
    reveal_strlit("cover");
    reveal_strlit("fan");
    reveal_strlit("sensor");
    reveal_strlit("sensors");
    reveal_strlit("binary_sensor");
    reveal_strlit("other");
    let l = text::lower(w);
    assert(l == "light"@ ==> l[0] == 'l' && l.len() == 5);
    assert(l == "lights"@ ==> l[0] == 'l' && l.len() == 6);
    assert(l == "switch"@ ==> l[0] == 's' && l[1] == 'w' && l.len() == 6);
    assert(l == "switches"@ ==> l[0] == 's' && l[1] == 'w' && l.len() == 8);
    assert(l == "climate"@ ==> l[0] == 'c' && l[1] == 'l' && l.len() == 7);
    assert(l == "cover"@ ==> l[0] == 'c' && l[1] == 'o' && l.len() == 5);
    assert(l == "fan"@ ==> l[0] == 'f' && l.len() == 3);
    assert(l == "sensor"@ ==> l[0] == 's' && l[1] == 'e' && l.len() == 6);
    assert(l == "sensors"@ ==> l[0] == 's' && l[1] == 'e' && l.len() == 7);
    assert(l == "binary_sensor"@ ==> l[0] == 'b' && l.len() == 13);
    assert("light"@[0] == 'l' && "light"@.len() == 5 && "lights"@[0] == 'l' && "lights"@.len() == 6);
    assert("switch"@[0] == 's' && "switch"@[1] == 'w' && "switch"@.len() == 6);
    assert("switches"@[0] == 's' && "switches"@[1] == 'w' && "switches"@.len() == 8);
    assert("climate"@[0] == 'c' && "climate"@[1] == 'l' && "climate"@.len() == 7);
    assert("cover"@[0] == 'c' && "cover"@[1] == 'o' && "cover"@.len() == 5);
    assert("fan"@[0] == 'f' && "fan"@.len() == 3);
    assert("sensor"@[0] == 's' && "sensor"@[1] == 'e' && "sensor"@.len() == 6);
    assert("sensors"@[0] == 's' && "sensors"@[1] == 'e' && "sensors"@.len() == 7);
    assert("binary_sensor"@[0] == 'b' && "binary_sensor"@.len() == 13);
    assert("other"@[0] == 'o' && "other"@.len() == 5);
}

/// When the hub's own address lies in a private range (10/8, 172.16/12,
/// 192.168/16), the scan probes that address and every host `1..=254` of its
/// /24, whatever extra hosts are configured.
pub proof fn law_private_subnet_is_scanned(a: u8, b: u8, c: u8, d: u8, x: u8, extra: Option<Seq<char>>)
    requires
        a == 10 || (a == 172 && 16 <= b <= 31) || (a == 192 && b == 168),
        1 <= x <= 254,
    ensures
        scan_hosts_spec(Some((a, b, c, d)), extra).contains(ipv4_text(a, b, c, x)),
        scan_hosts_spec(Some((a, b, c, d)), extra).contains(ipv4_text(a, b, c, d)),
{
    let h = ipv4_text(a, b, c, x);
    assert(1 <= x <= 254 && h == ipv4_text(a, b, c, x));
    assert(exists|y: u8| 1 <= y <= 254 && h == #[trigger] ipv4_text(a, b, c, y));
}

/// `set_brightness` on a faker stub turns it on with the requested level: the
/// stub's `brightness` attribute becomes the given number, every other
/// attribute is kept, and the stub stays the same entity.
pub proof fn law_faker_set_brightness(m: Map<Seq<char>, EntityView>, id: Seq<char>, params: Seq<(Seq<char>, JsonView)>, b: u64)
    requires
        m.contains_key(id),
        is_faker_tagged(m[id]),
        json::as_u64(json::lookup(params, "brightness"@)) == Some(b),
    ensures
        faker_apply(m, id, "set_brightness"@, params) matches Ok(e) && e.state == "on"@ && e.available
            && e.entity_id == m[id].entity_id && e.entity_type == m[id].entity_type && e.source == m[id].source
            && json::lookup(e.attributes, "brightness"@) == Some(JsonView::Number(NumberView::PosInt(b, None)))
            && forall|k: Seq<char>| k != "brightness"@ ==> #[trigger] json::lookup(e.attributes, k) == json::lookup(m[id].attributes, k),
{
    reveal_strlit("set_brightness");
    reveal_strlit("turn_on");
    reveal_strlit("turn_off");
    reveal_strlit("toggle");
    assert("set_brightness"@.len() == 14 && "turn_on"@.len() == 7 && "turn_off"@.len() == 8 && "toggle"@.len() == 6);
    let v = JsonView::Number(NumberView::PosInt(b, None));
    let attrs = m[id].attributes;
    json::lemma_lookup_put(attrs, "brightness"@, v, "brightness"@);
    assert forall|k: Seq<char>| k != "brightness"@ implies #[trigger] json::lookup(json::put(attrs, "brightness"@, v), k)
        == json::lookup(attrs, k) by {
        json::lemma_lookup_put(attrs, "brightness"@, v, k);
    }
}

// ---------------------------------------------------------------------------
// Thermostat bounds
// ---------------------------------------------------------------------------

/// The first of two attributes that reads as a number, else `default`.
pub open spec fn number_among(attrs: Seq<(Seq<char>, JsonView)>, k1: Seq<char>, k2: Seq<char>, default: FloatView) -> FloatView {
    match json::as_f64(json::lookup(attrs, k1)) {
        Some(f) => f,
        None => match json::as_f64(json::lookup(attrs, k2)) {
            Some(f) => f,
            None => default,
        },
    }
}

/// A climate entity has a thermostat, and its `set_temperature` temperature
/// parameter runs from the entity's `min_temp` (else `min_temperature`, else
/// 16) to its `max_temp` (else `max_temperature`, else 30), as its description
/// says.
pub proof fn law_thermostat_bounds_follow_attributes(attrs: Seq<(Seq<char>, JsonView)>)
    ensures
        ({
            let caps = derive_spec(EntityType::Climate, attrs);
            let lo = number_among(attrs, "min_temp"@, "min_temperature"@, FloatView { bits: 0x4030000000000000, text: "16"@ });
            let hi = number_among(attrs, "max_temp"@, "max_temperature"@, FloatView { bits: 0x403e000000000000, text: "30"@ });
            &&& exists|i: int| 0 <= i < caps.len() && (#[trigger] caps[i]).kind == CapabilityKind::Thermostat
            &&& forall|i: int, j: int, k: int|
                0 <= i < caps.len() && (#[trigger] caps[i]).kind == CapabilityKind::Thermostat
                && 0 <= j < caps[i].actions.len() && (#[trigger] caps[i].actions[j]).name == "set_temperature"@
                && 0 <= k < caps[i].actions[j].params.len() && (#[trigger] caps[i].actions[j].params[k]).name == "temperature"@
                ==> caps[i].actions[j].params[k].minimum == Some(lo) && caps[i].actions[j].params[k].maximum == Some(hi)
                && caps[i].actions[j].params[k].description == Some("Target °C ("@ + lo.text + "–"@ + hi.text + ")"@)
        }),
{
    let caps = derive_spec(EntityType::Climate, attrs);
    let lo = number_among(attrs, "min_temp"@, "min_temperature"@, FloatView { bits: 0x4030000000000000, text: "16"@ });
    let hi = number_among(attrs, "max_temp"@, "max_temperature"@, FloatView { bits: 0x403e000000000000, text: "30"@ });
    let keys_lo = seq!["min_temp"@, "min_temperature"@];
    let keys_hi = seq!["max_temp"@, "max_temperature"@];
    assert(keys_lo.drop_first() =~= seq!["min_temperature"@]);
    assert(keys_lo.drop_first().drop_first() =~= Seq::<Seq<char>>::empty());
    assert(keys_hi.drop_first() =~= seq!["max_temperature"@]);
    assert(keys_hi.drop_first().drop_first() =~= Seq::<Seq<char>>::empty());
    reveal_with_fuel(crate::capability::num_attr, 3);
    let th = crate::capability::thermostat_cap(lo, hi);
    let modes = string_list_attr(attrs, "hvac_modes"@);
    let o = opt_cap(modes.len() > 0, crate::capability::hvac_mode_cap(modes));
    assert(caps =~= seq![crate::capability::on_off_cap(), th] + o);
    assert(caps[1] == th);
    assert(caps[0].kind == CapabilityKind::OnOff);
    assert forall|i: int| 2 <= i < caps.len() implies (#[trigger] caps[i]).kind == CapabilityKind::HvacMode by {
        assert(caps[i] == o[i - 2]);
    }
}

} // verus!
