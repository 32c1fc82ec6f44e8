//! Southbound device adapter contract: the errors a backend reports and its
//! health record.
//!
//! Hub northbound APIs (REST / WS / MCP) talk only to the router, which routes
//! by `DeviceEntity.source` to a concrete backend (`ha`, `faker`, …).

use vstd::prelude::*;
use crate::encode::{push_opt, str_json};
use crate::json::{self, JsonValue, JsonView, entries_view};
use crate::text;

verus! {

broadcast use vstd::string::group_string_axioms;

/// Failure of a southbound backend.
pub enum AdapterError {
    NotConfigured(String),
    Unreachable(String),
    Api { status: u16, body: String },
    NotFound(String),
    Invalid(String),
    NoAdapter(String),
}

pub enum AdapterErrorView {
    NotConfigured(Seq<char>),
    Unreachable(Seq<char>),
    Api { status: u16, body: Seq<char> },
    NotFound(Seq<char>),
    Invalid(Seq<char>),
    NoAdapter(Seq<char>),
}

impl View for AdapterError {
    type V = AdapterErrorView;

    open spec fn view(&self) -> AdapterErrorView {
        match self {
            AdapterError::NotConfigured(s) => AdapterErrorView::NotConfigured(s@),
            AdapterError::Unreachable(s) => AdapterErrorView::Unreachable(s@),
            AdapterError::Api { status, body } => AdapterErrorView::Api { status: *status, body: body@ },
            AdapterError::NotFound(s) => AdapterErrorView::NotFound(s@),
            AdapterError::Invalid(s) => AdapterErrorView::Invalid(s@),
            AdapterError::NoAdapter(s) => AdapterErrorView::NoAdapter(s@),
        }
    }
}

/// The text an adapter error displays.
pub open spec fn adapter_error_text(e: AdapterErrorView) -> Seq<char> {
    match e {
        AdapterErrorView::NotConfigured(s) => "adapter '"@ + s + "' is not configured"@,
        AdapterErrorView::Unreachable(s) => "adapter unreachable: "@ + s,
        AdapterErrorView::Api { status, body } => "adapter API error ("@ + text::dec(status as nat) + "): "@ + body,
        AdapterErrorView::NotFound(s) => "entity not found: "@ + s,
        AdapterErrorView::Invalid(s) => "invalid request: "@ + s,
        AdapterErrorView::NoAdapter(s) => "no adapter registered for source '"@ + s + "'"@,
    }
}

impl AdapterError {
    /// Display text of the error.
    pub fn to_string(&self) -> (r: String)
        ensures
            r@ == adapter_error_text(self@),
    {
        match self {
            AdapterError::NotConfigured(s) => text::concat3("adapter '", s.as_str(), "' is not configured"),
            AdapterError::Unreachable(s) => text::concat("adapter unreachable: ", s.as_str()),
            AdapterError::Api { status, body } => {
                let n = text::u64_to_string(*status as u64);
                let mut r = text::concat3("adapter API error (", n.as_str(), "): ");
                text::push_str(&mut r, body.as_str());
                r
            },
            AdapterError::NotFound(s) => text::concat("entity not found: ", s.as_str()),
            AdapterError::Invalid(s) => text::concat("invalid request: ", s.as_str()),
            AdapterError::NoAdapter(s) => text::concat3("no adapter registered for source '", s.as_str(), "'"),
        }
    }

    /// Copy of the error.
    pub fn duplicate(&self) -> (r: AdapterError)
        ensures
            r@ == self@,
    {
        match self {
            AdapterError::NotConfigured(s) => AdapterError::NotConfigured(s.clone()),
            AdapterError::Unreachable(s) => AdapterError::Unreachable(s.clone()),
            AdapterError::Api { status, body } => AdapterError::Api { status: *status, body: body.clone() },
            AdapterError::NotFound(s) => AdapterError::NotFound(s.clone()),
            AdapterError::Invalid(s) => AdapterError::Invalid(s.clone()),
            AdapterError::NoAdapter(s) => AdapterError::NoAdapter(s.clone()),
        }
    }
}

/// Health of one backend.
pub struct AdapterHealth {
    pub source: String,
    pub configured: bool,
    pub ok: bool,
    pub detail: Option<String>,
}

pub struct HealthView {
    pub source: Seq<char>,
    pub configured: bool,
    pub ok: bool,
    pub detail: Option<Seq<char>>,
}

impl View for AdapterHealth {
    type V = HealthView;

    open spec fn view(&self) -> HealthView {
        HealthView {
            source: self.source@,
            configured: self.configured,
            ok: self.ok,
            detail: crate::capability::opt_str_view(self.detail),
        }
    }
}

/// A health record as serialized (`detail` only when present).
pub open spec fn health_json(h: HealthView) -> JsonView {
    JsonView::Object(push_opt(
        seq![
            ("source"@, JsonView::Str(h.source)),
            ("configured"@, JsonView::Bool(h.configured)),
            ("ok"@, JsonView::Bool(h.ok)),
        ],
        "detail"@,
        str_json(h.detail),
    ))
}

impl AdapterHealth {
    /// The record as serialized.
    pub fn to_json(&self) -> (r: JsonValue)
        ensures
            r@ == health_json(self@),
    {
        let mut e: Vec<(String, JsonValue)> = Vec::new();
        json::push_entry(&mut e, "source", JsonValue::str(self.source.as_str()));
        json::push_entry(&mut e, "configured", JsonValue::Bool(self.configured));
        json::push_entry(&mut e, "ok", JsonValue::Bool(self.ok));
        proof {
            assert(entries_view(e@) =~= seq![
                ("source"@, JsonView::Str(self@.source)),
                ("configured"@, JsonView::Bool(self@.configured)),
                ("ok"@, JsonView::Bool(self@.ok)),
            ]);
        }
        match &self.detail {
            Some(d) => json::push_entry(&mut e, "detail", JsonValue::str(d.as_str())),
            None => {},
        }
        JsonValue::object(e)
    }

    /// Copy of the record.
    pub fn duplicate(&self) -> (r: AdapterHealth)
        ensures
            r@ == self@,
    {
        AdapterHealth {
            source: self.source.clone(),
            configured: self.configured,
            ok: self.ok,
            detail: match &self.detail {
                Some(d) => Some(d.clone()),
                None => None,
            },
        }
    }
}

} // verus!
