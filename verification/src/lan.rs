//! Finding Companion HTTP listeners already online on the LAN (PC / phone / robot).
//!
//! `kind=robot` on port 9879 is a product path for a chassis already on the
//! LAN. `kind=chip` on port 9878 is an R&D firmware hook, not a home device
//! class. Identity: `lan_iot: true` or a `service` of `companion.*` /
//! `lan-iot-*`. Adopting writes the Companion registry.
//!
//! This module decides what to probe, how a health reply is read, and how the
//! findings are marked and ordered; the probing itself is network I/O.

use vstd::prelude::*;
use crate::capability::{array_strings, strings_of};
use crate::companion::{CompanionDevice, CompanionView, companions_view};
use crate::json::{self, JsonValue, JsonView, NumberView, entries_view};
use crate::store;
use crate::text;

verus! {

broadcast use vstd::string::group_string_axioms;

/// A LanIoT endpoint found on the network.
pub struct LanEndpoint {
    pub id: String,
    pub name: String,
    pub kind: String,
    pub base_url: String,
    pub commands: Vec<String>,
    pub adopted: bool,
}

pub struct LanView {
    pub id: Seq<char>,
    pub name: Seq<char>,
    pub kind: Seq<char>,
    pub base_url: Seq<char>,
    pub commands: Seq<Seq<char>>,
    pub adopted: bool,
}

impl View for LanEndpoint {
    type V = LanView;

    open spec fn view(&self) -> LanView {
        LanView {
            id: self.id@,
            name: self.name@,
            kind: self.kind@,
            base_url: self.base_url@,
            commands: text::strings_view(self.commands@),
            adopted: self.adopted,
        }
    }
}

pub open spec fn endpoints_view(v: Seq<LanEndpoint>) -> Seq<LanView> {
    v.map_values(|e: LanEndpoint| e@)
}

/// An endpoint as serialized.
pub open spec fn endpoint_json(e: LanView) -> JsonView {
    JsonView::Object(seq![
        ("id"@, JsonView::Str(e.id)),
        ("name"@, JsonView::Str(e.name)),
        ("kind"@, JsonView::Str(e.kind)),
        ("base_url"@, JsonView::Str(e.base_url)),
        ("commands"@, crate::encode::strs_json(e.commands)),
        ("adopted"@, JsonView::Bool(e.adopted)),
    ])
}

impl LanEndpoint {
    /// The endpoint as serialized.
    pub fn to_json(&self) -> (r: JsonValue)
        ensures
            r@ == endpoint_json(self@),
    {
        let cmds = JsonValue::str_array(&self.commands);
        proof {
            if let JsonView::Array(x) = cmds@ {
                assert(x =~= text::strings_view(self.commands@).map_values(|s: Seq<char>| JsonView::Str(s)));
            }
        }
        let mut e: Vec<(String, JsonValue)> = Vec::new();
        json::push_entry(&mut e, "id", JsonValue::str(self.id.as_str()));
        json::push_entry(&mut e, "name", JsonValue::str(self.name.as_str()));
        json::push_entry(&mut e, "kind", JsonValue::str(self.kind.as_str()));
        json::push_entry(&mut e, "base_url", JsonValue::str(self.base_url.as_str()));
        json::push_entry(&mut e, "commands", cmds);
        json::push_entry(&mut e, "adopted", JsonValue::Bool(self.adopted));
        proof {
            assert(entries_view(e@) =~= seq![
                ("id"@, JsonView::Str(self@.id)),
                ("name"@, JsonView::Str(self@.name)),
                ("kind"@, JsonView::Str(self@.kind)),
                ("base_url"@, JsonView::Str(self@.base_url)),
                ("commands"@, crate::encode::strs_json(self@.commands)),
                ("adopted"@, JsonView::Bool(self@.adopted)),
            ]);
        }
        JsonValue::object(e)
    }

    /// Copy of the endpoint.
    pub fn duplicate(&self) -> (r: LanEndpoint)
        ensures
            r@ == self@,
    {
        LanEndpoint {
            id: self.id.clone(),
            name: self.name.clone(),
            kind: self.kind.clone(),
            base_url: self.base_url.clone(),
            commands: crate::capability::clone_strings(&self.commands),
            adopted: self.adopted,
        }
    }
}

// ---------------------------------------------------------------------------
// Reading a health reply
// ---------------------------------------------------------------------------

/// Kind from the service name and port: android / 9877 → phone, robot / 9879
/// → robot, chip / 9878 → chip, else pc.
pub open spec fn infer_kind_spec(service: Seq<char>, port: u16) -> Seq<char> {
    if text::has_sub(service, "android"@) || port == 9877 {
        "phone"@
    } else if text::has_sub(service, "robot"@) || port == 9879 {
        "robot"@
    } else if text::has_sub(service, "chip"@) || port == 9878 {
        "chip"@
    } else {
        "pc"@
    }
}

/// Host part of a base URL with `.` and `:` replaced by `_`.
pub open spec fn host_token(base: Seq<char>) -> Seq<char> {
    text::trim_start_str(text::trim_start_str(base, "http://"@), "https://"@).map_values(
        |c: char| if c == '.' || c == ':' { '_' } else { c },
    )
}

/// `<kind>.<host>`.
pub open spec fn default_id_spec(kind: Seq<char>, base: Seq<char>) -> Seq<char> {
    kind + "."@ + host_token(base)
}

pub open spec fn default_name_spec(kind: Seq<char>, id: Seq<char>) -> Seq<char> {
    if kind == "chip"@ {
        "R&D chip hook ("@ + id + ")"@
    } else if kind == "robot"@ {
        "Robot ("@ + id + ")"@
    } else if kind == "phone"@ {
        "Phone ("@ + id + ")"@
    } else {
        "PC ("@ + id + ")"@
    }
}

pub open spec fn default_commands_spec(kind: Seq<char>) -> Seq<Seq<char>> {
    if kind == "chip"@ {
        seq!["ping"@, "turn_on"@, "turn_off"@]
    } else if kind == "robot"@ {
        seq!["ping"@, "stop"@, "dock"@, "start"@]
    } else {
        seq!["ping"@, "notify"@, "lock"@]
    }
}

/// Port named at the end of a base URL (after its last `:`), 0 when it does not parse.
pub open spec fn base_port(base: Seq<char>) -> u16 {
    let tail = match text::last_index(base, ':') {
        Some(i) => base.skip(i + 1),
        None => base,
    };
    match text::parse_unsigned(tail, 65535) {
        Some(p) => p as u16,
        None => 0,
    }
}

/// A non-empty string field.
pub open spec fn nonempty_str(v: Option<JsonView>) -> Option<Seq<char>> {
    match json::as_str(v) {
        Some(s) => if s.len() > 0 { Some(s) } else { None },
        None => None,
    }
}

pub open spec fn or_else(o: Option<Seq<char>>, d: Seq<char>) -> Seq<char> {
    match o {
        Some(s) => s,
        None => d,
    }
}

/// The endpoint a health reply describes: `ok: true` and a LanIoT identity
/// (`lan_iot: true`, or a `companion.` / `lan-iot-` service) are required;
/// missing or empty fields are inferred from the service, the port and the kind.
pub open spec fn parse_health_spec(base: Seq<char>, body: JsonView) -> Option<LanView> {
    let service = or_else(json::as_str(json::get(body, "service"@)), Seq::empty());
    let lan_iot = json::as_bool(json::get(body, "lan_iot"@)) == Some(true);
    if json::as_bool(json::get(body, "ok"@)) != Some(true) {
        None
    } else if !lan_iot && !text::is_prefix("companion."@, service) && !text::is_prefix("lan-iot-"@, service) {
        None
    } else {
        let kind = or_else(nonempty_str(json::get(body, "kind"@)), infer_kind_spec(service, base_port(base)));
        let id = or_else(nonempty_str(json::get(body, "id"@)), default_id_spec(kind, base));
        let name = or_else(nonempty_str(json::get(body, "name"@)), default_name_spec(kind, id));
        let commands = match json::as_array(json::get(body, "commands"@)) {
            Some(arr) => strings_of(arr),
            None => default_commands_spec(kind),
        };
        Some(LanView { id, name, kind, base_url: text::trim_end_char(base, '/'), commands, adopted: false })
    }
}

/// Kind from the service name and port.
pub fn infer_kind(service: &str, port: u16) -> (r: String)
    ensures
        r@ == infer_kind_spec(service@, port),
{
    if text::contains(service, "android") || port == 9877 {
        text::owned("phone")
    } else if text::contains(service, "robot") || port == 9879 {
        text::owned("robot")
    } else if text::contains(service, "chip") || port == 9878 {
        text::owned("chip")
    } else {
        text::owned("pc")
    }
}

/// `<kind>.<host>` for an endpoint without an id.
pub fn default_id(kind: &str, base: &str) -> (r: String)
    ensures
        r@ == default_id_spec(kind@, base@),
{
    proof {
        reveal_strlit("http://");
        reveal_strlit("https://");
    }
    let a = text::trim_start_matches(base, "http://");
    let b = text::trim_start_matches(a.as_str(), "https://");
    let v = text::chars_of(b.as_str());
    let mut out: Vec<char> = Vec::new();
    let mut i: usize = 0;
    while i < v.len()
        invariant
            i <= v@.len(),
            out@ == v@.take(i as int).map_values(|c: char| if c == '.' || c == ':' { '_' } else { c }),
        decreases v.len() - i,
    {
        let c = v[i];
        out.push(if c == '.' || c == ':' { '_' } else { c });
        proof {
            assert(v@.take(i + 1) =~= v@.take(i as int).push(c));
            assert(out@ =~= v@.take(i + 1).map_values(|c: char| if c == '.' || c == ':' { '_' } else { c }));
        }
        i = i + 1;
    }
    proof {
        assert(v@.take(v@.len() as int) =~= v@);
    }
    let host = text::from_chars(out.as_slice());
    text::concat3(kind, ".", host.as_str())
}

/// Display name for an endpoint without one.
pub fn default_name(kind: &str, id: &str) -> (r: String)
    ensures
        r@ == default_name_spec(kind@, id@),
{
    if text::eq(kind, "chip") {
        text::concat3("R&D chip hook (", id, ")")
    } else if text::eq(kind, "robot") {
        text::concat3("Robot (", id, ")")
    } else if text::eq(kind, "phone") {
        text::concat3("Phone (", id, ")")
    } else {
        text::concat3("PC (", id, ")")
    }
}

/// Commands of an endpoint that lists none.
pub fn default_commands(kind: &str) -> (r: Vec<String>)
    ensures
        text::strings_view(r@) == default_commands_spec(kind@),
{
    let r = if text::eq(kind, "chip") {
        vec![text::owned("ping"), text::owned("turn_on"), text::owned("turn_off")]
    } else if text::eq(kind, "robot") {
        vec![text::owned("ping"), text::owned("stop"), text::owned("dock"), text::owned("start")]
    } else {
        vec![text::owned("ping"), text::owned("notify"), text::owned("lock")]
    };
    proof {
        assert(text::strings_view(r@) =~= default_commands_spec(kind@));
    }
    r
}

fn port_of(base: &str) -> (r: u16)
    ensures
        r == base_port(base@),
{
    let v = text::chars_of(base);
    let tail: String = match text::rfind_char(&v, ':') {
        Some(i) => text::slice_string(&v, i + 1, v.len()),
        None => text::owned(base),
    };
    proof {
        if let Some(i) = text::last_index(base@, ':') {
            assert(tail@ =~= base@.skip(i + 1));
        }
    }
    match text::parse_unsigned_exec(tail.as_str(), 65535) {
        Some(p) => p as u16,
        None => 0,
    }
}

fn nonempty_field(body: &JsonValue, key: &str) -> (r: Option<String>)
    ensures
        crate::capability::opt_str_view(r) == nonempty_str(json::get(body@, key@)),
{
    match body.get(key) {
        Some(v) => match v.as_str() {
            Some(s) => if text::is_empty(s) { None } else { Some(text::owned(s)) },
            None => None,
        },
        None => None,
    }
}

/// Reads a LanIoT identity from a health reply (see [`parse_health_spec`]).
pub fn parse_health(base: &str, body: &JsonValue) -> (r: Option<LanEndpoint>)
    ensures
        (match r { Some(e) => Some(e@), None => None }) == parse_health_spec(base@, body@),
{
    let ok = match body.get("ok") {
        Some(v) => match v.as_bool() {
            Some(b) => b,
            None => false,
        },
        None => false,
    };
    if !ok {
        return None;
    }
    let service: String = match body.get("service") {
        Some(v) => match v.as_str() {
            Some(s) => text::owned(s),
            None => String::new(),
        },
        None => String::new(),
    };
    let lan_iot = match body.get("lan_iot") {
        Some(v) => match v.as_bool() {
            Some(b) => b,
            None => false,
        },
        None => false,
    };
    if !lan_iot && !text::starts_with(service.as_str(), "companion.") && !text::starts_with(service.as_str(), "lan-iot-") {
        return None;
    }
    let port = port_of(base);
    let kind = match nonempty_field(body, "kind") {
        Some(k) => k,
        None => infer_kind(service.as_str(), port),
    };
    let id = match nonempty_field(body, "id") {
        Some(x) => x,
        None => default_id(kind.as_str(), base),
    };
    let name = match nonempty_field(body, "name") {
        Some(x) => x,
        None => default_name(kind.as_str(), id.as_str()),
    };
    let commands = match body.get("commands") {
        Some(v) => match v.as_array() {
            Some(arr) => {
                proof {
                    json::lemma_array_view(*arr);
                }
                array_strings(arr)
            },
            None => default_commands(kind.as_str()),
        },
        None => default_commands(kind.as_str()),
    };
    Some(LanEndpoint {
        id,
        name,
        kind,
        base_url: text::trim_end_matches(base, '/'),
        commands,
        adopted: false,
    })
}

// ---------------------------------------------------------------------------
// Probing
// ---------------------------------------------------------------------------

/// Paths asked in turn for a LanIoT identity.
pub fn probe_paths() -> (r: Vec<String>)
    ensures
        text::strings_view(r@) == seq!["/health"@, "/"@],
{
    let r = vec![text::owned("/health"), text::owned("/")];
    proof {
        assert(text::strings_view(r@) =~= seq!["/health"@, "/"@]);
    }
    r
}

/// What one probe request gave.
pub enum ProbeReply {
    /// The request could not be sent.
    SendFailed,
    /// A non-success status.
    NotSuccess,
    /// A success status whose body is not JSON.
    BadBody,
    /// A success status with a JSON body.
    Body(JsonValue),
}

/// What the probe does next.
pub enum ProbeNext {
    /// Stop probing this base with this answer.
    Stop(Option<LanEndpoint>),
    /// Try the next path (no answer when none is left).
    Next,
}

/// One probe step for `base` (already without its trailing `/`): a failed send
/// or an unreadable body ends the probe with nothing; a non-success status, or
/// JSON that is not a LanIoT identity, moves on; an identity ends the probe,
/// its base URL filled in when empty.
pub fn probe_step(base: &str, reply: ProbeReply) -> (r: ProbeNext)
    ensures
        match reply {
            ProbeReply::SendFailed | ProbeReply::BadBody => r matches ProbeNext::Stop(None),
            ProbeReply::NotSuccess => r is Next,
            ProbeReply::Body(j) => match parse_health_spec(base@, j@) {
                None => r is Next,
                Some(e) => r matches ProbeNext::Stop(Some(x)) && x@ == (if e.base_url.len() == 0 {
                    LanView { base_url: base@, ..e }
                } else {
                    e
                }),
            },
        },
{
    match reply {
        ProbeReply::SendFailed | ProbeReply::BadBody => ProbeNext::Stop(None),
        ProbeReply::NotSuccess => ProbeNext::Next,
        ProbeReply::Body(j) => match parse_health(base, &j) {
            None => ProbeNext::Next,
            Some(mut ep) => {
                if text::is_empty(ep.base_url.as_str()) {
                    ep.base_url = text::owned(base);
                }
                ProbeNext::Stop(Some(ep))
            },
        },
    }
}

// ---------------------------------------------------------------------------
// What to scan
// ---------------------------------------------------------------------------

/// Ports probed when `LAN_SCAN_PORTS` gives none.
pub open spec fn default_ports_spec() -> Seq<u16> {
    seq![9876u16, 9877u16, 9878u16, 9879u16]
}

/// The ports that parse among the comma-separated pieces (each trimmed).
pub open spec fn parsed_ports(pieces: Seq<Seq<char>>) -> Seq<u16>
    decreases pieces.len(),
{
    if pieces.len() == 0 {
        Seq::empty()
    } else {
        parsed_ports(pieces.drop_last()) + match text::parse_unsigned(text::trimmed(pieces.last()), 65535) {
            Some(p) => seq![p as u16],
            None => Seq::empty(),
        }
    }
}

/// Ports to probe: those parsed from `LAN_SCAN_PORTS` when any, else the defaults.
pub open spec fn scan_ports_spec(env_value: Option<Seq<char>>) -> Seq<u16> {
    match env_value {
        Some(raw) => {
            let p = parsed_ports(text::split_pieces(raw, ','));
            if p.len() > 0 { p } else { default_ports_spec() }
        },
        None => default_ports_spec(),
    }
}

fn default_ports() -> (r: Vec<u16>)
    ensures
        r@ == default_ports_spec(),
{
    let r = vec![9876u16, 9877u16, 9878u16, 9879u16];
    proof {
        assert(r@ =~= default_ports_spec());
    }
    r
}

/// Ports to probe.
pub fn scan_ports(env_value: Option<&str>) -> (r: Vec<u16>)
    ensures
        r@ == scan_ports_spec(match env_value { Some(v) => Some(v@), None => None }),
{
    match env_value {
        Some(raw) => {
            let pieces = text::split_char(raw, ',');
            let ghost pv = text::strings_view(pieces@);
            let mut out: Vec<u16> = Vec::new();
            let mut i: usize = 0;
            while i < pieces.len()
                invariant
                    i <= pieces@.len(),
                    pv == text::strings_view(pieces@),
                    out@ == parsed_ports(pv.take(i as int)),
                decreases pieces.len() - i,
            {
                let t = text::trim(pieces[i].as_str());
                proof {
                    assert(pv.take(i + 1).drop_last() =~= pv.take(i as int));
                    assert(pv.take(i + 1).last() == pieces@[i as int]@);
                }
                match text::parse_unsigned_exec(t.as_str(), 65535) {
                    Some(p) => {
                        let ghost before = out@;
                        out.push(p as u16);
                        proof {
                            assert(out@ =~= before + seq![p as u16]);
                        }
                    },
                    None => {
                        proof {
                            assert(out@ =~= out@ + Seq::<u16>::empty());
                        }
                    },
                }
                i = i + 1;
            }
            proof {
                assert(pv.take(pv.len() as int) =~= pv);
            }
            if out.len() > 0 {
                out
            } else {
                default_ports()
            }
        },
        None => default_ports(),
    }
}

/// Dotted-decimal text of an IPv4 address.
pub open spec fn ipv4_text(a: u8, b: u8, c: u8, d: u8) -> Seq<char> {
    text::dec(a as nat) + "."@ + text::dec(b as nat) + "."@ + text::dec(c as nat) + "."@ + text::dec(d as nat)
}

/// Private ranges (10/8, 172.16/12, 192.168/16).
pub open spec fn is_private_v4(a: u8, b: u8) -> bool {
    a == 10 || (a == 172 && 16 <= b <= 31) || (a == 192 && b == 168)
}

/// Hosts to probe: loopback names, this host's address, its whole /24 when the
/// address is private (and not loopback), and the non-empty trimmed pieces of
/// `LAN_SCAN_HOSTS`.
pub open spec fn scan_hosts_spec(primary: Option<(u8, u8, u8, u8)>, env_value: Option<Seq<char>>) -> Set<Seq<char>> {
    let base = set!["127.0.0.1"@, "localhost"@, "host.docker.internal"@];
    let with_ip = match primary {
        Some((a, b, c, d)) => {
            let own = base.insert(ipv4_text(a, b, c, d));
            if is_private_v4(a, b) && a != 127 {
                own.union(Set::new(|h: Seq<char>| exists|x: u8| 1 <= x <= 254 && h == ipv4_text(a, b, c, x)))
            } else {
                own
            }
        },
        None => base,
    };
    match env_value {
        Some(raw) => with_ip.union(
            Set::new(|h: Seq<char>| h.len() > 0 && exists|p: Seq<char>| text::split_pieces(raw, ',').contains(p) && h == text::trimmed(p)),
        ),
        None => with_ip,
    }
}

fn ipv4_string(a: u8, b: u8, c: u8, d: u8) -> (r: String)
    ensures
        r@ == ipv4_text(a, b, c, d),
{
    let mut r = text::u64_to_string(a as u64);
    text::push_str(&mut r, ".");
    let s = text::u64_to_string(b as u64);
    text::push_str(&mut r, s.as_str());
    text::push_str(&mut r, ".");
    let s = text::u64_to_string(c as u64);
    text::push_str(&mut r, s.as_str());
    text::push_str(&mut r, ".");
    let s = text::u64_to_string(d as u64);
    text::push_str(&mut r, s.as_str());
    r
}

/// Hosts to probe, as a sorted list without repeats.
pub fn scan_hosts(primary: Option<(u8, u8, u8, u8)>, env_value: Option<&str>) -> (r: Vec<String>)
    ensures
        store::strictly_sorted(text::strings_view(r@)),
        text::strings_view(r@).to_set() == scan_hosts_spec(primary, match env_value { Some(v) => Some(v@), None => None }),
{
    let mut hosts: Vec<String> = vec![text::owned("127.0.0.1"), text::owned("localhost"), text::owned("host.docker.internal")];
    let ghost base = set!["127.0.0.1"@, "localhost"@, "host.docker.internal"@];
    proof {
        assert(text::strings_view(hosts@).to_set() =~= base) by {
            let hv = text::strings_view(hosts@);
            assert(hv[0] == "127.0.0.1"@ && hv[1] == "localhost"@ && hv[2] == "host.docker.internal"@);
            assert forall|h: Seq<char>| hv.to_set().contains(h) <==> base.contains(h) by {
                if base.contains(h) {
                    if h == "127.0.0.1"@ { assert(hv[0] == h); } else if h == "localhost"@ { assert(hv[1] == h); } else { assert(hv[2] == h); }
                }
            }
        }
    }
    let ghost want_ip = match primary {
        Some((a, b, c, d)) => {
            let own = base.insert(ipv4_text(a, b, c, d));
            if is_private_v4(a, b) && a != 127 {
                own.union(Set::new(|h: Seq<char>| exists|x: u8| 1 <= x <= 254 && h == ipv4_text(a, b, c, x)))
            } else {
                own
            }
        },
        None => base,
    };
    match primary {
        Some((a, b, c, d)) => {
            let ghost before = text::strings_view(hosts@);
            hosts.push(ipv4_string(a, b, c, d));
            proof {
                assert(text::strings_view(hosts@) =~= before.push(ipv4_text(a, b, c, d)));
                before.lemma_push_to_set_commute(ipv4_text(a, b, c, d));
            }
            let private = (a == 10 || (a == 172 && 16 <= b && b <= 31) || (a == 192 && b == 168)) && a != 127;
            if private {
                let ghost own = text::strings_view(hosts@).to_set();
                let mut x: u8 = 1;
                while x <= 254
                    invariant
                        1 <= x <= 255,
                        private,
                        text::strings_view(hosts@).to_set() == own.union(
                            Set::new(|h: Seq<char>| exists|y: u8| 1 <= y < x && h == ipv4_text(a, b, c, y)),
                        ),
                    decreases 255 - x,
                {
                    let ghost prev = text::strings_view(hosts@);
                    let s = ipv4_string(a, b, c, x);
                    hosts.push(s);
                    proof {
                        assert(text::strings_view(hosts@) =~= prev.push(ipv4_text(a, b, c, x)));
                        prev.lemma_push_to_set_commute(ipv4_text(a, b, c, x));
                        let old_s = Set::new(|h: Seq<char>| exists|y: u8| 1 <= y < x && h == ipv4_text(a, b, c, y));
                        let new_s = Set::new(|h: Seq<char>| exists|y: u8| 1 <= y < x + 1 && h == ipv4_text(a, b, c, y));
                        assert forall|h: Seq<char>| new_s.contains(h) <==> old_s.insert(ipv4_text(a, b, c, x)).contains(h) by {
                            if new_s.contains(h) {
                                let y = choose|y: u8| 1 <= y < x + 1 && h == ipv4_text(a, b, c, y);
                                if y < x {
                                    assert(old_s.contains(h));
                                }
                            }
                            if old_s.contains(h) {
                                let y = choose|y: u8| 1 <= y < x && h == ipv4_text(a, b, c, y);
                                assert(1 <= y < x + 1 && h == ipv4_text(a, b, c, y));
                            }
                        }
                        assert(new_s =~= old_s.insert(ipv4_text(a, b, c, x)));
                        assert(own.union(new_s) =~= own.union(old_s).insert(ipv4_text(a, b, c, x)));
                    }
                    x = x + 1;
                }
                proof {
                    let s255 = Set::new(|h: Seq<char>| exists|y: u8| 1 <= y < 255 && h == ipv4_text(a, b, c, y));
                    let s254 = Set::new(|h: Seq<char>| exists|y: u8| 1 <= y <= 254 && h == ipv4_text(a, b, c, y));
                    assert(s255 =~= s254);
                    assert(text::strings_view(hosts@).to_set() =~= want_ip);
                }
            } else {
                proof {
                    assert(text::strings_view(hosts@).to_set() =~= want_ip);
                }
            }
        },
        None => {},
    }
    let ghost with_ip = text::strings_view(hosts@).to_set();
    match env_value {
        Some(raw) => {
            let pieces = text::split_char(raw, ',');
            let ghost pv = text::strings_view(pieces@);
            let mut i: usize = 0;
            while i < pieces.len()
                invariant
                    i <= pieces@.len(),
                    pv == text::strings_view(pieces@),
                    pv == text::split_pieces(raw@, ','),
                    text::strings_view(hosts@).to_set() == with_ip.union(
                        Set::new(|h: Seq<char>| h.len() > 0 && exists|j: int| 0 <= j < i && h == text::trimmed(pv[j])),
                    ),
                decreases pieces.len() - i,
            {
                let t = text::trim(pieces[i].as_str());
                let ghost prev = text::strings_view(hosts@);
                let ghost old_s = Set::new(|h: Seq<char>| h.len() > 0 && exists|j: int| 0 <= j < i && h == text::trimmed(pv[j]));
                let ghost new_s = Set::new(|h: Seq<char>| h.len() > 0 && exists|j: int| 0 <= j < i + 1 && h == text::trimmed(pv[j]));
                if !text::is_empty(t.as_str()) {
                    hosts.push(t);
                    proof {
                        assert(text::strings_view(hosts@) =~= prev.push(text::trimmed(pv[i as int])));
                        prev.lemma_push_to_set_commute(text::trimmed(pv[i as int]));
                        assert forall|h: Seq<char>| new_s.contains(h) <==> old_s.insert(text::trimmed(pv[i as int])).contains(h) by {
                            if new_s.contains(h) {
                                let j = choose|j: int| 0 <= j < i + 1 && h == text::trimmed(pv[j]);
                                if j < i {
                                    assert(old_s.contains(h));
                                }
                            }
                        }
                        assert(new_s =~= old_s.insert(text::trimmed(pv[i as int])));
                        assert(with_ip.union(new_s) =~= with_ip.union(old_s).insert(text::trimmed(pv[i as int])));
                    }
                } else {
                    proof {
                        assert forall|h: Seq<char>| new_s.contains(h) <==> old_s.contains(h) by {
                            if new_s.contains(h) {
                                let j = choose|j: int| 0 <= j < i + 1 && h == text::trimmed(pv[j]);
                                if j < i {
                                    assert(old_s.contains(h));
                                }
                            }
                        }
                        assert(new_s =~= old_s);
                    }
                }
                i = i + 1;
            }
            proof {
                let fin = Set::new(|h: Seq<char>| h.len() > 0 && exists|j: int| 0 <= j < pv.len() && h == text::trimmed(pv[j]));
                let want = Set::new(|h: Seq<char>| h.len() > 0 && exists|p: Seq<char>| pv.contains(p) && h == text::trimmed(p));
                assert forall|h: Seq<char>| fin.contains(h) <==> want.contains(h) by {
                    if fin.contains(h) {
                        let j = choose|j: int| 0 <= j < pv.len() && h == text::trimmed(pv[j]);
                        assert(pv.contains(pv[j]));
                    }
                    if want.contains(h) {
                        let p = choose|p: Seq<char>| pv.contains(p) && h == text::trimmed(p);
                        let j = choose|j: int| 0 <= j < pv.len() && pv[j] == p;
                        assert(0 <= j < pv.len() && h == text::trimmed(pv[j]));
                    }
                }
                assert(fin =~= want);
            }
        },
        None => {},
    }
    let r = store::sorted_unique(hosts);
    r
}

/// `http://<host>:<port>` for every host and port.
pub open spec fn scan_url(host: Seq<char>, port: u16) -> Seq<char> {
    "http://"@ + host + ":"@ + text::dec(port as nat)
}

/// `w` is the URL of a host/port pair that comes before `(i, j)` in row order.
pub open spec fn made_before(hosts: Seq<Seq<char>>, ports: Seq<u16>, i: int, j: int, w: Seq<char>) -> bool {
    exists|a: int, b: int|
        0 <= a < hosts.len() && 0 <= b < ports.len() && (a < i || (a == i && b < j)) && w == #[trigger] scan_url(hosts[a], ports[b])
}

/// Base URLs to probe: every host with every port, sorted, without repeats.
pub fn scan_urls(hosts: &Vec<String>, ports: &Vec<u16>) -> (r: Vec<String>)
    ensures
        store::strictly_sorted(text::strings_view(r@)),
        forall|u: Seq<char>| text::strings_view(r@).contains(u) <==> made_before(text::strings_view(hosts@), ports@, hosts@.len() as int, 0, u),
{
    let ghost hv = text::strings_view(hosts@);
    let mut urls: Vec<String> = Vec::new();
    let mut i: usize = 0;
    while i < hosts.len()
        invariant
            i <= hosts@.len(),
            hv == text::strings_view(hosts@),
            forall|u: Seq<char>| text::strings_view(urls@).contains(u) <==> made_before(hv, ports@, i as int, 0, u),
        decreases hosts.len() - i,
    {
        let mut j: usize = 0;
        while j < ports.len()
            invariant
                i < hosts@.len(),
                j <= ports@.len(),
                hv == text::strings_view(hosts@),
                forall|u: Seq<char>| text::strings_view(urls@).contains(u) <==> made_before(hv, ports@, i as int, j as int, u),
            decreases ports.len() - j,
        {
            let p = text::u64_to_string(ports[j] as u64);
            let mut u = text::concat3("http://", hosts[i].as_str(), ":");
            text::push_str(&mut u, p.as_str());
            let ghost prev = text::strings_view(urls@);
            let ghost uv = u@;
            urls.push(u);
            proof {
                let now = text::strings_view(urls@);
                assert(now =~= prev.push(uv));
                assert(uv == scan_url(hv[i as int], ports@[j as int]));
                assert forall|w: Seq<char>| now.contains(w) <==> made_before(hv, ports@, i as int, j + 1, w) by {
                    if now.contains(w) {
                        let k = choose|k: int| 0 <= k < now.len() && now[k] == w;
                        if k < prev.len() {
                            assert(prev.contains(w));
                            let (a, b) = choose|a: int, b: int|
                                0 <= a < hv.len() && 0 <= b < ports@.len() && (a < i || (a == i && b < j)) && w == #[trigger] scan_url(hv[a], ports@[b]);
                            assert(0 <= a < hv.len() && 0 <= b < ports@.len() && (a < i || (a == i && b < j + 1)) && w == scan_url(hv[a], ports@[b]));
                        } else {
                            assert(w == uv);
                            assert(0 <= i < hv.len() && 0 <= j < ports@.len() && w == scan_url(hv[i as int], ports@[j as int]));
                        }
                    }
                    if made_before(hv, ports@, i as int, j + 1, w) {
                        let (a, b) = choose|a: int, b: int|
                            0 <= a < hv.len() && 0 <= b < ports@.len() && (a < i || (a == i && b < j + 1)) && w == #[trigger] scan_url(hv[a], ports@[b]);
                        if a == i && b == j {
                            assert(now[prev.len() as int] == w);
                        } else {
                            assert(made_before(hv, ports@, i as int, j as int, w));
                            assert(prev.contains(w));
                            let k = choose|k: int| 0 <= k < prev.len() && prev[k] == w;
                            assert(now[k] == w);
                        }
                    }
                }
            }
            j = j + 1;
        }
        proof {
            assert forall|w: Seq<char>| made_before(hv, ports@, i as int, ports@.len() as int, w) <==> made_before(hv, ports@, i + 1, 0, w) by {
                if made_before(hv, ports@, i + 1, 0, w) {
                    let (a, b) = choose|a: int, b: int|
                        0 <= a < hv.len() && 0 <= b < ports@.len() && (a < i + 1 || (a == i + 1 && b < 0)) && w == #[trigger] scan_url(hv[a], ports@[b]);
                    assert(0 <= a < hv.len() && 0 <= b < ports@.len() && (a < i || (a == i && b < ports@.len())) && w == scan_url(hv[a], ports@[b]));
                }
                if made_before(hv, ports@, i as int, ports@.len() as int, w) {
                    let (a, b) = choose|a: int, b: int|
                        0 <= a < hv.len() && 0 <= b < ports@.len() && (a < i || (a == i && b < ports@.len())) && w == #[trigger] scan_url(hv[a], ports@[b]);
                    assert(0 <= a < hv.len() && 0 <= b < ports@.len() && (a < i + 1 || (a == i + 1 && b < 0)) && w == scan_url(hv[a], ports@[b]));
                }
            }
        }
        i = i + 1;
    }
    let ghost before = text::strings_view(urls@);
    let r = store::sorted_unique(urls);
    proof {
        assert forall|u: Seq<char>| text::strings_view(r@).contains(u) <==> made_before(text::strings_view(hosts@), ports@, hosts@.len() as int, 0, u) by {
            assert(text::strings_view(r@).to_set().contains(u) == before.to_set().contains(u));
            assert(before.contains(u) <==> made_before(hv, ports@, i as int, 0, u));
        }
    }
    r
}

// ---------------------------------------------------------------------------
// Marking and ordering findings
// ---------------------------------------------------------------------------

/// An endpoint is adopted when its base URL (without trailing `/`) or its id
/// matches a registered Companion.
pub open spec fn is_adopted(e: LanView, adopted: Seq<CompanionView>) -> bool {
    exists|k: int| 0 <= k < adopted.len() && (
        text::trim_end_char(adopted[k].base_url, '/') == text::trim_end_char(e.base_url, '/') || adopted[k].id == e.id
    )
}

/// `(a.kind, a.id) < (b.kind, b.id)` lexicographically.
pub open spec fn kind_id_lt(a: LanView, b: LanView) -> bool {
    text::seq_lt(a.kind, b.kind) || (a.kind == b.kind && text::seq_lt(a.id, b.id))
}

pub open spec fn sorted_by_kind_id(s: Seq<LanView>) -> bool {
    forall|i: int, j: int| 0 <= i < j < s.len() ==> !kind_id_lt(#[trigger] s[j], #[trigger] s[i])
}

pub open spec fn marked(found: Seq<LanView>, adopted: Seq<CompanionView>) -> Seq<LanView> {
    found.map_values(|e: LanView| LanView { adopted: is_adopted(e, adopted), ..e })
}

fn adopted_flag(e: &LanEndpoint, adopted: &Vec<CompanionDevice>) -> (r: bool)
    ensures
        r == is_adopted(e@, companions_view(adopted@)),
{
    let eb = text::trim_end_matches(e.base_url.as_str(), '/');
    let mut k: usize = 0;
    while k < adopted.len()
        invariant
            k <= adopted@.len(),
            eb@ == text::trim_end_char(e@.base_url, '/'),
            forall|q: int| 0 <= q < k ==> !(text::trim_end_char(adopted@[q]@.base_url, '/') == eb@ || adopted@[q]@.id == e@.id),
        decreases adopted.len() - k,
    {
        let ab = text::trim_end_matches(adopted[k].base_url.as_str(), '/');
        if text::eq(ab.as_str(), eb.as_str()) || text::eq(adopted[k].id.as_str(), e.id.as_str()) {
            proof {
                assert(companions_view(adopted@)[k as int] == adopted@[k as int]@);
            }
            return true;
        }
        k = k + 1;
    }
    proof {
        if is_adopted(e@, companions_view(adopted@)) {
            let q = choose|q: int| 0 <= q < companions_view(adopted@).len() && (
                text::trim_end_char(companions_view(adopted@)[q].base_url, '/') == text::trim_end_char(e@.base_url, '/')
                    || companions_view(adopted@)[q].id == e@.id);
            assert(companions_view(adopted@)[q] == adopted@[q]@);
        }
    }
    false
}

fn lt_kind_id(a: &LanEndpoint, b: &LanEndpoint) -> (r: bool)
    ensures
        r == kind_id_lt(a@, b@),
{
    text::str_lt(a.kind.as_str(), b.kind.as_str()) || (text::eq(a.kind.as_str(), b.kind.as_str()) && text::str_lt(a.id.as_str(), b.id.as_str()))
}

proof fn lemma_kind_id_order(a: LanView, b: LanView)
    ensures
        !kind_id_lt(a, a),
        kind_id_lt(a, b) ==> !kind_id_lt(b, a),
        !kind_id_lt(a, b) && !kind_id_lt(b, a) ==> a.kind == b.kind && a.id == b.id,
{
    text::lemma_lt_irreflexive(a.kind);
    text::lemma_lt_irreflexive(a.id);
    if a.kind != b.kind {
        text::lemma_lt_total(a.kind, b.kind);
        if text::seq_lt(a.kind, b.kind) {
            text::lemma_lt_asymmetric(a.kind, b.kind);
        }
    } else if a.id != b.id {
        text::lemma_lt_total(a.id, b.id);
        if text::seq_lt(a.id, b.id) {
            text::lemma_lt_asymmetric(a.id, b.id);
        }
    }
}

proof fn lemma_kind_id_trans(a: LanView, b: LanView, c: LanView)
    requires
        kind_id_lt(a, b),
        kind_id_lt(b, c),
    ensures
        kind_id_lt(a, c),
{
    if text::seq_lt(a.kind, b.kind) && text::seq_lt(b.kind, c.kind) {
        text::lemma_lt_transitive(a.kind, b.kind, c.kind);
    } else if text::seq_lt(a.id, b.id) && text::seq_lt(b.id, c.id) {
        text::lemma_lt_transitive(a.id, b.id, c.id);
    }
}

/// Marks each finding as adopted or not and orders them by kind, then id.
pub fn finish_scan(found: Vec<LanEndpoint>, adopted: &Vec<CompanionDevice>) -> (r: Vec<LanEndpoint>)
    ensures
        sorted_by_kind_id(endpoints_view(r@)),
        endpoints_view(r@).to_multiset() == marked(endpoints_view(found@), companions_view(adopted@)).to_multiset(),
{
    broadcast use vstd::seq_lib::to_multiset_build, vstd::seq_lib::to_multiset_insert;

    let ghost want = marked(endpoints_view(found@), companions_view(adopted@));
    let mut out: Vec<LanEndpoint> = Vec::new();
    let mut i: usize = 0;
    proof {
        assert(endpoints_view(out@) =~= Seq::<LanView>::empty());
        assert(want.take(0) =~= Seq::<LanView>::empty());
    }
    while i < found.len()
        invariant
            i <= found@.len(),
            want == marked(endpoints_view(found@), companions_view(adopted@)),
            sorted_by_kind_id(endpoints_view(out@)),
            endpoints_view(out@).to_multiset() == want.take(i as int).to_multiset(),
        decreases found.len() - i,
    {
        let mut e = found[i].duplicate();
        e.adopted = adopted_flag(&found[i], adopted);
        let ghost ev = e@;
        let ghost o = endpoints_view(out@);
        proof {
            assert(ev == want[i as int]);
        }
        let mut p: usize = 0;
        while p < out.len() && !lt_kind_id(&e, &out[p])
            invariant
                p <= out@.len(),
                o == endpoints_view(out@),
                ev == e@,
                forall|j: int| 0 <= j < p ==> !kind_id_lt(ev, #[trigger] o[j]),
            decreases out.len() - p,
        {
            p = p + 1;
        }
        out.insert(p, e);
        proof {
            let n = endpoints_view(out@);
            assert(n =~= o.insert(p as int, ev));
            assert(want.take(i + 1) =~= want.take(i as int).push(ev));
            vstd::seq_lib::to_multiset_insert(o, p as int, ev);
            vstd::seq_lib::to_multiset_build(want.take(i as int), ev);
            assert(sorted_by_kind_id(n)) by {
                assert forall|a: int, b: int| 0 <= a < b < n.len() implies !kind_id_lt(#[trigger] n[b], #[trigger] n[a]) by {
                    if a < p && b == p {
                        lemma_kind_id_order(ev, o[a]);
                        lemma_kind_id_order(o[a], ev);
                    } else if a < p && b > p {
                        assert(!kind_id_lt(o[b - 1], o[a]));
                    } else if a == p && b > p {
                        if p < o.len() {
                            assert(kind_id_lt(ev, o[p as int]));
                            if kind_id_lt(o[b - 1], ev) {
                                if b - 1 > p {
                                    lemma_kind_id_trans(o[b - 1], ev, o[p as int]);
                                    assert(!kind_id_lt(o[b - 1], o[p as int]));
                                } else {
                                    lemma_kind_id_order(ev, o[p as int]);
                                }
                            }
                        }
                    } else if a > p {
                        assert(!kind_id_lt(o[b - 1], o[a - 1]));
                    }
                }
            }
        }
        i = i + 1;
    }
    proof {
        assert(want.take(found@.len() as int) =~= want);
    }
    out
}

} // verus!
