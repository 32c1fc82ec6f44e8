//! Brand / faker tagging for device entities.
//!
//! Real brand protocols live in Home Assistant. Hub only labels entities so UI
//! and Agent can tell stub (`faker` / `demo`) gear from production hardware.

use vstd::prelude::*;
use crate::text::{self, has_sub, lower};

verus! {

broadcast use vstd::string::group_string_axioms;

/// Known brand labels (lowercase). Unknown → `None` / `"unknown"`.
#[derive(Clone, Copy, Debug, PartialEq, Eq, Structural)]
pub enum BrandHint {
    Xiaomi,
    Gree,
    Esp32,
    Companion,
    Unknown,
}

pub open spec fn brand_label(b: BrandHint) -> Seq<char> {
    match b {
        BrandHint::Xiaomi => "xiaomi"@,
        BrandHint::Gree => "gree"@,
        BrandHint::Esp32 => "esp32"@,
        BrandHint::Companion => "companion"@,
        BrandHint::Unknown => "unknown"@,
    }
}

impl BrandHint {
    /// Lower-case label of the brand.
    pub fn as_str(&self) -> (r: &'static str)
        ensures
            r@ == brand_label(*self),
    {
        match self {
            BrandHint::Xiaomi => "xiaomi",
            BrandHint::Gree => "gree",
            BrandHint::Esp32 => "esp32",
            BrandHint::Companion => "companion",
            BrandHint::Unknown => "unknown",
        }
    }
}

/// Stub / demo gear: `*.faker_*`, `*_faker_*`, `*.demo_*`, `*_demo_*` ids, or a
/// friendly name containing `[faker]` / `(faker)` (ASCII case-insensitively).
pub open spec fn faker_of(entity_id: Seq<char>, friendly_name: Seq<char>) -> bool {
    let id_l = lower(entity_id);
    let name_l = lower(friendly_name);
    has_sub(id_l, ".faker_"@) || has_sub(id_l, "_faker_"@) || has_sub(id_l, ".demo_"@) || has_sub(id_l, "_demo_"@)
        || has_sub(name_l, "[faker]"@) || has_sub(name_l, "(faker)"@)
}

/// Brand inferred from tokens in `"<id> <name>"` (lower-cased): xiaomi/miot/miio,
/// then gree, then esp32, then a `companion.` id prefix; unknown otherwise.
pub open spec fn brand_of(entity_id: Seq<char>, friendly_name: Seq<char>) -> Option<Seq<char>> {
    let id_l = lower(entity_id);
    let blob = id_l + " "@ + lower(friendly_name);
    if has_sub(blob, "xiaomi"@) || has_sub(blob, "miot"@) || has_sub(blob, "miio"@) {
        Some(brand_label(BrandHint::Xiaomi))
    } else if has_sub(blob, "gree"@) {
        Some(brand_label(BrandHint::Gree))
    } else if has_sub(blob, "esp32"@) {
        Some(brand_label(BrandHint::Esp32))
    } else if text::is_prefix("companion."@, id_l) {
        Some(brand_label(BrandHint::Companion))
    } else {
        None
    }
}

/// Infer brand + faker flag from HA entity_id / friendly_name.
pub fn infer_brand_meta(entity_id: &str, friendly_name: &str) -> (r: (Option<String>, bool))
    ensures
        match r.0 {
            Some(b) => brand_of(entity_id@, friendly_name@) == Some(b@),
            None => brand_of(entity_id@, friendly_name@) is None,
        },
        r.1 == faker_of(entity_id@, friendly_name@),
{
    let id_l = text::to_ascii_lowercase(entity_id);
    let name_l = text::to_ascii_lowercase(friendly_name);
    let blob = text::concat3(id_l.as_str(), " ", name_l.as_str());

    let is_faker = text::contains(id_l.as_str(), ".faker_") || text::contains(id_l.as_str(), "_faker_")
        || text::contains(id_l.as_str(), ".demo_") || text::contains(id_l.as_str(), "_demo_")
        || text::contains(name_l.as_str(), "[faker]") || text::contains(name_l.as_str(), "(faker)");

    let b = blob.as_str();
    let brand = if text::contains(b, "xiaomi") || text::contains(b, "miot") || text::contains(b, "miio") {
        Some(text::owned(BrandHint::Xiaomi.as_str()))
    } else if text::contains(b, "gree") {
        Some(text::owned(BrandHint::Gree.as_str()))
    } else if text::contains(b, "esp32") {
        Some(text::owned(BrandHint::Esp32.as_str()))
    } else if text::starts_with(id_l.as_str(), "companion.") {
        Some(text::owned(BrandHint::Companion.as_str()))
    } else {
        None
    };
    (brand, is_faker)
}

} // verus!
