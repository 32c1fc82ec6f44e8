//! Companion registry (phone / PC / robot agents reachable over HTTP).
//!
//! The Hub POSTs commands to each device's `base_url`; HA does not manage this
//! path. Devices are seeded with `companion.demo_pc` → `http://127.0.0.1:9876`
//! when nothing is stored; that demo may be offline, and callers then get a
//! structured unreachable error.

use vstd::prelude::*;
use crate::encode::{push_opt, str_json};
use crate::json::{self, JsonValue, JsonView, entries_view};
use crate::store::{self, Keyed, SortedStore};
use crate::text;

verus! {

broadcast use vstd::string::group_string_axioms;

/// Registered Companion endpoint.
pub struct CompanionDevice {
    pub id: String,
    pub name: String,
    /// Base URL of the Companion HTTP listener (Hub POSTs `{base}/command`).
    pub base_url: String,
    /// `pc` | `phone` | …
    pub kind: String,
}

pub struct CompanionView {
    pub id: Seq<char>,
    pub name: Seq<char>,
    pub base_url: Seq<char>,
    pub kind: Seq<char>,
}

impl View for CompanionDevice {
    type V = CompanionView;

    open spec fn view(&self) -> CompanionView {
        CompanionView { id: self.id@, name: self.name@, base_url: self.base_url@, kind: self.kind@ }
    }
}

pub open spec fn companions_view(v: Seq<CompanionDevice>) -> Seq<CompanionView> {
    v.map_values(|d: CompanionDevice| d@)
}

impl Keyed for CompanionDevice {
    open spec fn spec_key(v: CompanionView) -> Seq<char> {
        v.id
    }

    fn key(&self) -> (r: &str) {
        self.id.as_str()
    }

    fn duplicate(&self) -> (r: CompanionDevice) {
        CompanionDevice {
            id: self.id.clone(),
            name: self.name.clone(),
            base_url: self.base_url.clone(),
            kind: self.kind.clone(),
        }
    }
}

/// A device as serialized.
pub open spec fn companion_json(d: CompanionView) -> JsonView {
    JsonView::Object(seq![
        ("id"@, JsonView::Str(d.id)),
        ("name"@, JsonView::Str(d.name)),
        ("base_url"@, JsonView::Str(d.base_url)),
        ("kind"@, JsonView::Str(d.kind)),
    ])
}

impl CompanionDevice {
    /// The device as serialized.
    pub fn to_json(&self) -> (r: JsonValue)
        ensures
            r@ == companion_json(self@),
    {
        let mut e: Vec<(String, JsonValue)> = Vec::new();
        json::push_entry(&mut e, "id", JsonValue::str(self.id.as_str()));
        json::push_entry(&mut e, "name", JsonValue::str(self.name.as_str()));
        json::push_entry(&mut e, "base_url", JsonValue::str(self.base_url.as_str()));
        json::push_entry(&mut e, "kind", JsonValue::str(self.kind.as_str()));
        proof {
            assert(entries_view(e@) =~= seq![
                ("id"@, JsonView::Str(self@.id)),
                ("name"@, JsonView::Str(self@.name)),
                ("base_url"@, JsonView::Str(self@.base_url)),
                ("kind"@, JsonView::Str(self@.kind)),
            ]);
        }
        JsonValue::object(e)
    }
}

/// Result of forwarding a command to a Companion.
pub struct CommandResult {
    pub ok: bool,
    pub device_id: String,
    pub command: String,
    pub response: Option<JsonValue>,
    pub error: Option<String>,
}

pub struct CommandResultView {
    pub ok: bool,
    pub device_id: Seq<char>,
    pub command: Seq<char>,
    pub response: Option<JsonView>,
    pub error: Option<Seq<char>>,
}

impl View for CommandResult {
    type V = CommandResultView;

    open spec fn view(&self) -> CommandResultView {
        CommandResultView {
            ok: self.ok,
            device_id: self.device_id@,
            command: self.command@,
            response: match self.response {
                Some(j) => Some(j@),
                None => None,
            },
            error: crate::capability::opt_str_view(self.error),
        }
    }
}

/// A command result as serialized (`response` / `error` only when present).
pub open spec fn command_result_json(c: CommandResultView) -> JsonView {
    JsonView::Object(push_opt(
        push_opt(
            seq![
                ("ok"@, JsonView::Bool(c.ok)),
                ("device_id"@, JsonView::Str(c.device_id)),
                ("command"@, JsonView::Str(c.command)),
            ],
            "response"@,
            c.response,
        ),
        "error"@,
        str_json(c.error),
    ))
}

impl CommandResult {
    /// The result as serialized.
    pub fn to_json(&self) -> (r: JsonValue)
        ensures
            r@ == command_result_json(self@),
    {
        let mut e: Vec<(String, JsonValue)> = Vec::new();
        json::push_entry(&mut e, "ok", JsonValue::Bool(self.ok));
        json::push_entry(&mut e, "device_id", JsonValue::str(self.device_id.as_str()));
        json::push_entry(&mut e, "command", JsonValue::str(self.command.as_str()));
        proof {
            assert(entries_view(e@) =~= seq![
                ("ok"@, JsonView::Bool(self@.ok)),
                ("device_id"@, JsonView::Str(self@.device_id)),
                ("command"@, JsonView::Str(self@.command)),
            ]);
        }
        match &self.response {
            Some(x) => json::push_entry(&mut e, "response", x.deep_clone()),
            None => {},
        }
        match &self.error {
            Some(x) => json::push_entry(&mut e, "error", JsonValue::str(x.as_str())),
            None => {},
        }
        JsonValue::object(e)
    }
}

/// Why a Companion request failed.
pub enum CompanionError {
    NotFound(String),
    Unreachable(String),
    Api { status: u16, body: String },
    Invalid(String),
    Unavailable,
}

pub enum CompanionErrorView {
    NotFound(Seq<char>),
    Unreachable(Seq<char>),
    Api { status: u16, body: Seq<char> },
    Invalid(Seq<char>),
    Unavailable,
}

impl View for CompanionError {
    type V = CompanionErrorView;

    open spec fn view(&self) -> CompanionErrorView {
        match self {
            CompanionError::NotFound(s) => CompanionErrorView::NotFound(s@),
            CompanionError::Unreachable(s) => CompanionErrorView::Unreachable(s@),
            CompanionError::Api { status, body } => CompanionErrorView::Api { status: *status, body: body@ },
            CompanionError::Invalid(s) => CompanionErrorView::Invalid(s@),
            CompanionError::Unavailable => CompanionErrorView::Unavailable,
        }
    }
}

pub open spec fn companion_error_text(e: CompanionErrorView) -> Seq<char> {
    match e {
        CompanionErrorView::NotFound(s) => "companion not found: "@ + s,
        CompanionErrorView::Unreachable(s) => "companion unreachable: "@ + s,
        CompanionErrorView::Api { status, body } => "companion API error ("@ + text::dec(status as nat) + "): "@ + body,
        CompanionErrorView::Invalid(s) => "invalid companion: "@ + s,
        CompanionErrorView::Unavailable => "companion store unavailable (MongoDB)"@,
    }
}

impl CompanionError {
    /// Display text of the error.
    pub fn to_string(&self) -> (r: String)
        ensures
            r@ == companion_error_text(self@),
    {
        match self {
            CompanionError::NotFound(s) => text::concat("companion not found: ", s.as_str()),
            CompanionError::Unreachable(s) => text::concat("companion unreachable: ", s.as_str()),
            CompanionError::Api { status, body } => {
                let n = text::u64_to_string(*status as u64);
                let mut r = text::concat3("companion API error (", n.as_str(), "): ");
                text::push_str(&mut r, body.as_str());
                r
            },
            CompanionError::Invalid(s) => text::concat("invalid companion: ", s.as_str()),
            CompanionError::Unavailable => text::owned("companion store unavailable (MongoDB)"),
        }
    }
}

/// The demo device: `companion.demo_pc` at `http://127.0.0.1:9876` (may be offline).
pub open spec fn demo_companion_spec() -> CompanionView {
    CompanionView {
        id: "companion.demo_pc"@,
        name: "Demo PC Companion"@,
        base_url: "http://127.0.0.1:9876"@,
        kind: "pc"@,
    }
}

/// The demo seed.
pub fn demo_companions() -> (r: Vec<CompanionDevice>)
    ensures
        companions_view(r@) == seq![demo_companion_spec()],
{
    let r = vec![CompanionDevice {
        id: text::owned("companion.demo_pc"),
        name: text::owned("Demo PC Companion"),
        base_url: text::owned("http://127.0.0.1:9876"),
        kind: text::owned("pc"),
    }];
    proof {
        assert(companions_view(r@) =~= seq![demo_companion_spec()]);
    }
    r
}

/// How a command request went: the HTTP status, body text and its JSON parse
/// (`None` when the body is not JSON), or the transport error.
pub enum CommandReply {
    Sent { status: u16, text: String, parsed: Option<JsonValue> },
    Failed(String),
}

/// The reply recorded for a successful command: `{"accepted": true}` for a blank
/// body, the parsed JSON, else `{"raw": <text>}`.
pub open spec fn reply_response(text_v: Seq<char>, parsed: Option<JsonView>) -> JsonView {
    if text::trimmed(text_v).len() == 0 {
        JsonView::Object(seq![("accepted"@, JsonView::Bool(true))])
    } else {
        match parsed {
            Some(j) => j,
            None => JsonView::Object(seq![("raw"@, JsonView::Str(text_v))]),
        }
    }
}

/// Registry of Companion devices by id, and whether they are persisted by a store.
pub struct CompanionAdapter {
    devices: SortedStore<CompanionDevice>,
    mongo_backed: bool,
}

impl CompanionAdapter {
    pub closed spec fn wf(&self) -> bool {
        self.devices.wf()
    }

    /// Devices in id order.
    pub closed spec fn entries(&self) -> Seq<CompanionView> {
        self.devices@
    }

    /// Devices by id.
    pub open spec fn map(&self) -> Map<Seq<char>, CompanionView> {
        store::key_map::<CompanionDevice>(self.entries())
    }

    pub closed spec fn backed(&self) -> bool {
        self.mongo_backed
    }

    /// No devices, not persisted.
    pub fn new() -> (r: CompanionAdapter)
        ensures
            r.wf(),
            r.map() == Map::<Seq<char>, CompanionView>::empty(),
            !r.backed(),
    {
        CompanionAdapter { devices: SortedStore::new(), mongo_backed: false }
    }

    /// Registry holding `devices` (a later device replaces an earlier one with the same id).
    pub fn from_devices(devices: Vec<CompanionDevice>, mongo_backed: bool) -> (r: CompanionAdapter)
        ensures
            r.wf(),
            r.map() == store::fold_insert::<CompanionDevice>(Map::empty(), companions_view(devices@)),
            r.backed() == mongo_backed,
    {
        let s = SortedStore::from_vec(devices);
        proof {
            assert(companions_view(devices@) =~= devices@.map_values(|x: CompanionDevice| x@));
        }
        CompanionAdapter { devices: s, mongo_backed }
    }

    /// The demo seed, not persisted.
    pub fn with_demo() -> (r: CompanionAdapter)
        ensures
            r.wf(),
            r.map() == store::fold_insert::<CompanionDevice>(Map::empty(), seq![demo_companion_spec()]),
            !r.backed(),
    {
        CompanionAdapter::from_devices(demo_companions(), false)
    }

    /// True when devices are persisted by a store.
    pub fn mongo_backed(&self) -> (r: bool)
        ensures
            r == self.backed(),
    {
        self.mongo_backed
    }

    /// All devices, ordered by id.
    pub fn list(&self) -> (r: Vec<CompanionDevice>)
        requires
            self.wf(),
        ensures
            companions_view(r@) == self.entries(),
    {
        let r = self.devices.list();
        proof {
            assert(companions_view(r@) =~= r@.map_values(|x: CompanionDevice| x@));
        }
        r
    }

    /// Copy of the device with this id.
    pub fn get(&self, id: &str) -> (r: Option<CompanionDevice>)
        requires
            self.wf(),
        ensures
            match r {
                Some(d) => self.map().contains_key(id@) && self.map()[id@] == d@,
                None => !self.map().contains_key(id@),
            },
    {
        match self.devices.get(id) {
            Some(d) => Some(d.duplicate()),
            None => None,
        }
    }

    /// A device needs a non-blank id and base URL.
    pub fn validate(device: &CompanionDevice) -> (r: Result<(), CompanionError>)
        ensures
            text::trimmed(device.id@).len() == 0 ==> (r matches Err(e) && e@ == CompanionErrorView::Invalid("companion id required"@)),
            text::trimmed(device.id@).len() > 0 && text::trimmed(device.base_url@).len() == 0 ==> (r matches Err(e)
                && e@ == CompanionErrorView::Invalid("companion base_url required"@)),
            text::trimmed(device.id@).len() > 0 && text::trimmed(device.base_url@).len() > 0 ==> r is Ok,
    {
        let id = text::trim(device.id.as_str());
        if text::is_empty(id.as_str()) {
            return Err(CompanionError::Invalid(text::owned("companion id required")));
        }
        let base = text::trim(device.base_url.as_str());
        if text::is_empty(base.as_str()) {
            return Err(CompanionError::Invalid(text::owned("companion base_url required")));
        }
        Ok(())
    }

    /// Create or update a device. `persisted` tells whether the store accepted the
    /// write (pass `true` when the registry is not persisted).
    pub fn upsert(&mut self, device: CompanionDevice, persisted: bool) -> (r: Result<(), CompanionError>)
        requires
            old(self).wf(),
        ensures
            final(self).wf(),
            final(self).backed() == old(self).backed(),
            match r {
                Ok(()) => text::trimmed(device@.id).len() > 0 && text::trimmed(device@.base_url).len() > 0
                    && (!old(self).backed() || persisted)
                    && final(self).map() == old(self).map().insert(device@.id, device@),
                Err(e) => final(self).map() == old(self).map() && e@ == if text::trimmed(device@.id).len() == 0 {
                    CompanionErrorView::Invalid("companion id required"@)
                } else if text::trimmed(device@.base_url).len() == 0 {
                    CompanionErrorView::Invalid("companion base_url required"@)
                } else {
                    CompanionErrorView::Unavailable
                },
            },
            text::trimmed(device@.id).len() > 0 && text::trimmed(device@.base_url).len() > 0
                && (!old(self).backed() || persisted) ==> r is Ok,
    {
        CompanionAdapter::validate(&device)?;
        if self.mongo_backed && !persisted {
            return Err(CompanionError::Unavailable);
        }
        self.devices.upsert(device);
        Ok(())
    }

    /// The id a removal addresses (trimmed), or `Invalid` when blank.
    pub fn removal_id(id: &str) -> (r: Result<String, CompanionError>)
        ensures
            text::trimmed(id@).len() == 0 ==> (r matches Err(e) && e@ == CompanionErrorView::Invalid("companion id required"@)),
            text::trimmed(id@).len() > 0 ==> (r matches Ok(t) && t@ == text::trimmed(id@)),
    {
        let t = text::trim(id);
        if text::is_empty(t.as_str()) {
            Err(CompanionError::Invalid(text::owned("companion id required")))
        } else {
            Ok(t)
        }
    }

    /// Remove a device by (trimmed) id. `persisted` tells whether the store
    /// accepted the delete (pass `true` when the registry is not persisted).
    pub fn remove(&mut self, id: &str, persisted: bool) -> (r: Result<(), CompanionError>)
        requires
            old(self).wf(),
        ensures
            final(self).wf(),
            final(self).backed() == old(self).backed(),
            ({
                let t = text::trimmed(id@);
                if t.len() == 0 {
                    (r matches Err(e) && e@ == CompanionErrorView::Invalid("companion id required"@)) && final(self).map() == old(self).map()
                } else if old(self).backed() && !persisted {
                    (r matches Err(e) && e@ == CompanionErrorView::Unavailable) && final(self).map() == old(self).map()
                } else if !old(self).map().contains_key(t) {
                    (r matches Err(e) && e@ == CompanionErrorView::NotFound(t)) && final(self).map() == old(self).map()
                } else {
                    r is Ok && final(self).map() == old(self).map().remove(t)
                }
            }),
    {
        let t = CompanionAdapter::removal_id(id)?;
        if self.mongo_backed && !persisted {
            return Err(CompanionError::Unavailable);
        }
        let removed = self.devices.remove(t.as_str());
        if !removed {
            return Err(CompanionError::NotFound(t));
        }
        Ok(())
    }

    /// Where a command goes: `{base_url without trailing /}/command` with body
    /// `{"command": <command>}`; `NotFound` for an unknown device.
    pub fn command_request(&self, device_id: &str, command: &str) -> (r: Result<(String, JsonValue), CompanionError>)
        requires
            self.wf(),
        ensures
            !self.map().contains_key(device_id@) ==> (r matches Err(e) && e@ == CompanionErrorView::NotFound(device_id@)),
            self.map().contains_key(device_id@) ==> (r matches Ok(p)
                && p.0@ == text::trim_end_char(self.map()[device_id@].base_url, '/') + "/command"@
                && p.1@ == JsonView::Object(seq![("command"@, JsonView::Str(command@))])),
    {
        let device = match self.get(device_id) {
            Some(d) => d,
            None => {
                return Err(CompanionError::NotFound(text::owned(device_id)));
            },
        };
        let base = text::trim_end_matches(device.base_url.as_str(), '/');
        let url = text::concat(base.as_str(), "/command");
        let mut e: Vec<(String, JsonValue)> = Vec::new();
        json::push_entry(&mut e, "command", JsonValue::str(command));
        proof {
            assert(entries_view(e@) =~= seq![("command"@, JsonView::Str(command@))]);
        }
        Ok((url, JsonValue::object(e)))
    }

    /// Result of a sent command: a non-success status is an API error, a
    /// transport failure is `Unreachable`, otherwise `ok` with the reply.
    pub fn command_result(device_id: &str, command: &str, reply: CommandReply) -> (r: Result<CommandResult, CompanionError>)
        ensures
            match reply {
                CommandReply::Failed(e) => r matches Err(x) && x@ == CompanionErrorView::Unreachable(e@),
                CommandReply::Sent { status, text: t, parsed } => if 200 <= status <= 299 {
                    r matches Ok(c) && c@ == (CommandResultView {
                        ok: true,
                        device_id: device_id@,
                        command: command@,
                        response: Some(reply_response(t@, match parsed { Some(j) => Some(j@), None => None })),
                        error: None,
                    })
                } else {
                    r matches Err(x) && x@ == (CompanionErrorView::Api { status, body: t@ })
                },
            },
    {
        match reply {
            CommandReply::Failed(e) => Err(CompanionError::Unreachable(e)),
            CommandReply::Sent { status, text: t, parsed } => {
                if !(200 <= status && status <= 299) {
                    return Err(CompanionError::Api { status, body: t });
                }
                let trimmed = text::trim(t.as_str());
                let response = if text::is_empty(trimmed.as_str()) {
                    let mut e: Vec<(String, JsonValue)> = Vec::new();
                    json::push_entry(&mut e, "accepted", JsonValue::Bool(true));
                    proof {
                        assert(entries_view(e@) =~= seq![("accepted"@, JsonView::Bool(true))]);
                    }
                    JsonValue::object(e)
                } else {
                    match parsed {
                        Some(j) => j,
                        None => {
                            let mut e: Vec<(String, JsonValue)> = Vec::new();
                            json::push_entry(&mut e, "raw", JsonValue::str(t.as_str()));
                            proof {
                                assert(entries_view(e@) =~= seq![("raw"@, JsonView::Str(t@))]);
                            }
                            JsonValue::object(e)
                        },
                    }
                };
                Ok(CommandResult {
                    ok: true,
                    device_id: text::owned(device_id),
                    command: text::owned(command),
                    response: Some(response),
                    error: None,
                })
            },
        }
    }
}

} // verus!
