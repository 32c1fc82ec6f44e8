//! Pairing auth: pairing codes, opaque Bearer tokens, and the request guard.
//!
//! `POST /api/v1/auth/pair` issues an opaque Bearer token that the caller
//! stores. When auth is not required (the default) the guard lets everything
//! through so demos work without a token; when it is required and the token
//! store is down, protected routes answer 503. Health and pair stay open; the
//! WebSocket paths pass the guard and check their `?token` themselves.

use vstd::prelude::*;
use vstd::utf8::encode_utf8;
use crate::json::{self, JsonValue, JsonView, NumberView, entries_view};
use crate::text;

verus! {

broadcast use vstd::string::group_string_axioms;

/// How long a pairing code stays valid (seconds).
pub const PAIRING_TTL_SECS: u64 = 600;

/// How long an issued token stays valid (seconds).
pub const TOKEN_TTL_SECS: u64 = 86400;

/// Why pairing or a token operation failed.
pub enum PairError {
    InvalidCode,
    ExpiredCode,
    Unavailable,
}

/// Body of `POST /api/v1/auth/pair`: an optional pairing code (omit to mint one).
pub struct PairRequest {
    pub code: Option<String>,
}

/// A granted pairing.
pub struct PairResponse {
    pub code: String,
    pub token: String,
    pub token_type: String,
    pub expires_in: u64,
}

/// `{"code", "token", "token_type", "expires_in"}`.
pub open spec fn pair_response_json(code: Seq<char>, token: Seq<char>, token_type: Seq<char>, expires_in: u64) -> JsonView {
    JsonView::Object(seq![
        ("code"@, JsonView::Str(code)),
        ("token"@, JsonView::Str(token)),
        ("token_type"@, JsonView::Str(token_type)),
        ("expires_in"@, JsonView::Number(NumberView::PosInt(expires_in, None))),
    ])
}

impl PairResponse {
    /// A Bearer grant of `token` for `code`, valid for [`TOKEN_TTL_SECS`].
    pub fn bearer(code: String, token: String) -> (r: PairResponse)
        ensures
            r.code@ == code@,
            r.token@ == token@,
            r.token_type@ == "Bearer"@,
            r.expires_in == TOKEN_TTL_SECS,
    {
        PairResponse { code, token, token_type: text::owned("Bearer"), expires_in: TOKEN_TTL_SECS }
    }

    /// The grant as serialized.
    pub fn to_json(&self) -> (r: JsonValue)
        ensures
            r@ == pair_response_json(self.code@, self.token@, self.token_type@, self.expires_in),
    {
        let mut e: Vec<(String, JsonValue)> = Vec::new();
        json::push_entry(&mut e, "code", JsonValue::str(self.code.as_str()));
        json::push_entry(&mut e, "token", JsonValue::str(self.token.as_str()));
        json::push_entry(&mut e, "token_type", JsonValue::str(self.token_type.as_str()));
        json::push_entry(&mut e, "expires_in", JsonValue::uint(self.expires_in));
        proof {
            assert(entries_view(e@) =~= seq![
                ("code"@, JsonView::Str(self.code@)),
                ("token"@, JsonView::Str(self.token@)),
                ("token_type"@, JsonView::Str(self.token_type@)),
                ("expires_in"@, JsonView::Number(NumberView::PosInt(self.expires_in, None))),
            ]);
        }
        JsonValue::object(e)
    }
}

// ---------------------------------------------------------------------------
// Codes and tokens
// ---------------------------------------------------------------------------

/// A submitted pairing code: trimmed and upper-cased (`None` when that leaves
/// nothing, an invalid code).
pub fn normalize_code(code: &str) -> (r: Option<String>)
    ensures
        match r {
            Some(c) => c@ == text::spec_to_uppercase(text::trimmed(code@)) && c@.len() > 0,
            None => text::spec_to_uppercase(text::trimmed(code@)).len() == 0,
        },
{
    let t = text::trim(code);
    let u = text::to_uppercase(t.as_str());
    if text::is_empty(u.as_str()) {
        None
    } else {
        Some(u)
    }
}

/// A minted pairing code: four upper-case hex digits of the low 16 bits of
/// `seconds ^ seq`, then two of the low byte of `seq`.
pub open spec fn minted_code(seconds: u64, seq: u64) -> Seq<char> {
    text::zero_pad(text::hex_upper(((seconds ^ seq) & 0xffff) as nat), 4) + text::zero_pad(text::hex_upper((seq & 0xff) as nat), 2)
}

/// Pairing code for the clock (`seconds` since the epoch) and the mint counter `seq`.
pub fn mint_code(seconds: u64, seq: u64) -> (r: String)
    ensures
        r@ == minted_code(seconds, seq),
{
    let hi = text::to_hex_upper_padded(((seconds ^ seq) & 0xffff) as u128, 4);
    let lo = text::to_hex_upper_padded((seq & 0xff) as u128, 2);
    text::concat(hi.as_str(), lo.as_str())
}

/// FNV-1a (64-bit) over a byte string.
pub open spec fn fnv1a(bytes: Seq<u8>) -> u64
    decreases bytes.len(),
{
    if bytes.len() == 0 {
        0xcbf29ce484222325
    } else {
        (((fnv1a(bytes.drop_last()) ^ (bytes.last() as u64)) as int * 0x100000001b3) % 0x10000000000000000) as u64
    }
}

/// The token text: `lit_<nanos hex>_<seq hex>` without a secret; with one,
/// `lit_<16-digit hex FNV-1a of "nanos:seq:code:secret">_<seq hex>`.
pub open spec fn token_text(secret: Seq<char>, code: Seq<char>, nanos: u128, seq: u64) -> Seq<char> {
    if secret.len() == 0 {
        "lit_"@ + text::hex(nanos as nat) + "_"@ + text::hex(seq as nat)
    } else {
        let material = text::dec(nanos as nat) + ":"@ + text::dec(seq as nat) + ":"@ + code + ":"@ + secret;
        "lit_"@ + text::zero_pad(text::hex(fnv1a(encode_utf8(material)) as nat), 16) + "_"@ + text::hex(seq as nat)
    }
}

fn fnv1a_exec(bytes: &Vec<u8>) -> (h: u64)
    ensures
        h == fnv1a(bytes@),
{
    let mut h: u64 = 0xcbf29ce484222325;
    let mut i: usize = 0;
    while i < bytes.len()
        invariant
            i <= bytes@.len(),
            h == fnv1a(bytes@.take(i as int)),
        decreases bytes.len() - i,
    {
        proof {
            assert(bytes@.take(i + 1).drop_last() =~= bytes@.take(i as int));
            assert(bytes@.take(i + 1).last() == bytes@[i as int]);
        }
        let x: u64 = h ^ (bytes[i] as u64);
        h = x.wrapping_mul(0x100000001b3);
        i = i + 1;
    }
    proof {
        assert(bytes@.take(bytes@.len() as int) =~= bytes@);
    }
    h
}

/// Token for a pairing `code` at clock `nanos` (since the epoch) with counter `seq`.
pub fn issue_token_text(secret: &str, code: &str, nanos: u128, seq: u64) -> (r: String)
    ensures
        r@ == token_text(secret@, code@, nanos, seq),
{
    let n_hex = text::to_hex(seq as u128);
    if text::is_empty(secret) {
        let t_hex = text::to_hex(nanos);
        let mut r = text::concat3("lit_", t_hex.as_str(), "_");
        text::push_str(&mut r, n_hex.as_str());
        r
    } else {
        let t_dec = text::u128_to_string(nanos);
        let n_dec = text::u64_to_string(seq);
        let mut material = text::concat3(t_dec.as_str(), ":", n_dec.as_str());
        text::push_str(&mut material, ":");
        text::push_str(&mut material, code);
        text::push_str(&mut material, ":");
        text::push_str(&mut material, secret);
        let bytes = material.as_str().as_bytes_vec();
        let h = fnv1a_exec(&bytes);
        let h_hex = text::to_hex_padded(h as u128, 16);
        let mut r = text::concat3("lit_", h_hex.as_str(), "_");
        text::push_str(&mut r, n_hex.as_str());
        r
    }
}

/// Expiry time in epoch milliseconds for something created at `now_ms` living `ttl_secs`.
pub fn expiry_ms(now_ms: i64, ttl_secs: u64) -> (r: i64)
    requires
        ttl_secs <= 86400,
        now_ms <= i64::MAX - 86400000,
    ensures
        r == now_ms + ttl_secs * 1000,
{
    now_ms + (ttl_secs * 1000) as i64
}

/// What to do with a submitted (normalized) code after looking it up.
pub enum CodeDecision {
    /// Known and expired: delete it and refuse with `ExpiredCode`.
    Expired,
    /// Known and valid: delete it (one-shot) and issue a token.
    Consume,
    /// Unknown: remember it for [`PAIRING_TTL_SECS`] and issue a token.
    Accept,
}

/// A code whose stored expiry is at or before `now_ms` has expired.
pub fn decide_code(stored_expiry_ms: Option<i64>, now_ms: i64) -> (r: CodeDecision)
    ensures
        match stored_expiry_ms {
            Some(e) => if e <= now_ms { r is Expired } else { r is Consume },
            None => r is Accept,
        },
{
    match stored_expiry_ms {
        Some(e) => if e <= now_ms { CodeDecision::Expired } else { CodeDecision::Consume },
        None => CodeDecision::Accept,
    }
}

/// The token a logout or revoke addresses: trimmed, `None` when blank.
pub fn revoke_target(token: &str) -> (r: Option<String>)
    ensures
        text::trimmed(token@).len() == 0 ==> r is None,
        text::trimmed(token@).len() > 0 ==> (r matches Some(t) && t@ == text::trimmed(token@)),
{
    let t = text::trim(token);
    if text::is_empty(t.as_str()) { None } else { Some(t) }
}

// ---------------------------------------------------------------------------
// The service
// ---------------------------------------------------------------------------

/// First step of pairing.
pub enum PairStart {
    /// Look up this normalized code, then `decide_code`.
    Lookup(String),
    /// No code given: mint one.
    Mint,
}

/// The text of an optional string.
pub open spec fn opt_text(s: Option<String>) -> Option<Seq<char>> {
    match s {
        Some(t) => Some(t@),
        None => None,
    }
}

/// A first step of pairing as the code it looks up (`None` to mint one).
pub open spec fn start_view(s: PairStart) -> Option<Seq<char>> {
    match s {
        PairStart::Lookup(n) => Some(n@),
        PairStart::Mint => None,
    }
}

/// How a token check begins: `Unavailable` without a bound store, else the
/// token to look up.
pub open spec fn validate_start_spec(bound: bool, token: Seq<char>) -> Result<Seq<char>, PairError> {
    if bound { Ok(token) } else { Err(PairError::Unavailable) }
}

/// How a revocation begins: `Unavailable` without a bound store; nothing to
/// revoke (`None`) for a blank token; else the trimmed token to delete.
pub open spec fn revoke_start_spec(bound: bool, token: Seq<char>) -> Result<Option<Seq<char>>, PairError> {
    if !bound {
        Err(PairError::Unavailable)
    } else if text::trimmed(token).len() == 0 {
        Ok(None)
    } else {
        Ok(Some(text::trimmed(token)))
    }
}

/// How pairing begins: `Unavailable` without a bound store; mint a code
/// (`None`) when none is given; `InvalidCode` for a blank code; else look up
/// the trimmed, upper-cased code.
pub open spec fn pair_start_spec(bound: bool, code: Option<Seq<char>>) -> Result<Option<Seq<char>>, PairError> {
    if !bound {
        Err(PairError::Unavailable)
    } else {
        match code {
            None => Ok(None),
            Some(c) => {
                let n = text::spec_to_uppercase(text::trimmed(c));
                if n.len() == 0 { Err(PairError::InvalidCode) } else { Ok(Some(n)) }
            },
        }
    }
}

/// Token issuing settings, whether a token store is bound, and whether it is
/// still considered reachable (a failed store operation clears that).
pub struct AuthService {
    pub secret: String,
    pub bound: bool,
    pub ready: bool,
}

impl AuthService {
    pub open spec fn is_ready(&self) -> bool {
        self.ready
    }

    pub open spec fn is_bound(&self) -> bool {
        self.bound
    }

    /// A service; `store_ready` is whether the token store was reached and set up.
    pub fn new(secret: &str, store_ready: bool) -> (r: AuthService)
        ensures
            r.secret@ == secret@,
            r.is_bound() == store_ready,
            r.is_ready() == store_ready,
    {
        AuthService { secret: text::owned(secret), bound: store_ready, ready: store_ready }
    }

    /// True while the token store is usable.
    pub fn available(&self) -> (r: bool)
        ensures
            r == self.is_ready(),
    {
        self.ready
    }

    /// A store failure: the guard treats the store as unavailable from now on.
    pub fn mark_down(&mut self)
        ensures
            !final(self).is_ready(),
            final(self).is_bound() == old(self).is_bound(),
            final(self).secret@ == old(self).secret@,
    {
        self.ready = false;
    }

    /// A token check begins: `Unavailable` without a bound store, else the
    /// token to look up.
    pub fn validate_start(&self, token: &str) -> (r: Result<String, PairError>)
        ensures
            match r {
                Ok(t) => validate_start_spec(self.is_bound(), token@) == Ok::<Seq<char>, PairError>(t@),
                Err(e) => validate_start_spec(self.is_bound(), token@) == Err::<Seq<char>, PairError>(e),
            },
    {
        if !self.bound {
            return Err(PairError::Unavailable);
        }
        Ok(text::owned(token))
    }

    /// A revocation begins: `Unavailable` without a bound store; nothing to
    /// revoke (`None`) for a blank token; else the trimmed token to delete.
    pub fn revoke_start(&self, token: &str) -> (r: Result<Option<String>, PairError>)
        ensures
            match r {
                Ok(t) => revoke_start_spec(self.is_bound(), token@) == Ok::<Option<Seq<char>>, PairError>(opt_text(t)),
                Err(e) => revoke_start_spec(self.is_bound(), token@) == Err::<Option<Seq<char>>, PairError>(e),
            },
    {
        if !self.bound {
            return Err(PairError::Unavailable);
        }
        Ok(revoke_target(token))
    }

    /// Pairing begins: `Unavailable` without a bound store, `InvalidCode` for a
    /// blank code, else look the code up, or mint one when none was given.
    pub fn pair_start(&self, code: Option<String>) -> (r: Result<PairStart, PairError>)
        ensures
            match r {
                Ok(st) => pair_start_spec(self.is_bound(), opt_text(code)) == Ok::<Option<Seq<char>>, PairError>(
                    start_view(st),
                ),
                Err(e) => pair_start_spec(self.is_bound(), opt_text(code)) == Err::<Option<Seq<char>>, PairError>(e),
            },
    {
        if !self.bound {
            return Err(PairError::Unavailable);
        }
        match code {
            None => Ok(PairStart::Mint),
            Some(c) => match normalize_code(c.as_str()) {
                Some(n) => Ok(PairStart::Lookup(n)),
                None => Err(PairError::InvalidCode),
            },
        }
    }
}

// ---------------------------------------------------------------------------
// Request guard
// ---------------------------------------------------------------------------

/// Paths the Bearer guard lets through: health and pair, and the WebSocket
/// paths, which check a token themselves.
pub open spec fn public_path(path: Seq<char>) -> bool {
    path == "/api/v1/health"@ || path == "/api/v1/auth/pair"@ || path == "/health"@ || path == "/api/v1/ws"@ || path == "/ws"@
}

pub fn is_public_path(path: &str) -> (r: bool)
    ensures
        r == public_path(path@),
{
    text::eq(path, "/api/v1/health") || text::eq(path, "/api/v1/auth/pair") || text::eq(path, "/health") || text::eq(path, "/api/v1/ws") || text::eq(path, "/ws")
}

/// Token in an `Authorization` value: after `Bearer ` (or `bearer `), trimmed; `None` when blank or absent.
pub open spec fn bearer_of(value: Seq<char>) -> Option<Seq<char>> {
    let rest = if text::is_prefix("Bearer "@, value) {
        Some(value.skip(7))
    } else if text::is_prefix("bearer "@, value) {
        Some(value.skip(7))
    } else {
        None
    };
    match rest {
        Some(t) => if text::trimmed(t).len() > 0 { Some(text::trimmed(t)) } else { None },
        None => None,
    }
}

/// The Bearer token of a request's `Authorization` header (the header value as
/// text, `None` when absent or not visible ASCII).
pub fn bearer_token(header: Option<&str>) -> (r: Option<String>)
    ensures
        crate::capability::opt_str_view(r) == match header {
            Some(v) => bearer_of(v@),
            None => None,
        },
{
    let v = match header {
        Some(v) => v,
        None => {
            return None;
        },
    };
    proof {
        reveal_strlit("Bearer ");
        reveal_strlit("bearer ");
    }
    let rest = if text::starts_with(v, "Bearer ") {
        let c = text::chars_of(v);
        let x = text::slice_string(&c, 7, c.len());
        proof {
            assert(x@ =~= v@.skip(7));
        }
        Some(x)
    } else if text::starts_with(v, "bearer ") {
        let c = text::chars_of(v);
        let x = text::slice_string(&c, 7, c.len());
        proof {
            assert(x@ =~= v@.skip(7));
        }
        Some(x)
    } else {
        None
    };
    match rest {
        Some(t) => {
            let tt = text::trim(t.as_str());
            if text::is_empty(tt.as_str()) { None } else { Some(tt) }
        },
        None => None,
    }
}

/// An error answer: HTTP status and JSON body.
pub struct Rejection {
    pub status: u16,
    pub body: JsonValue,
}

/// `{"error": <code>, "message": <text>}`.
pub open spec fn denial_body(code: Seq<char>, message: Seq<char>) -> JsonView {
    JsonView::Object(seq![("error"@, JsonView::Str(code)), ("message"@, JsonView::Str(message))])
}

fn denial(status: u16, code: &str, message: &str) -> (r: Rejection)
    ensures
        r.status == status,
        r.body@ == denial_body(code@, message@),
{
    let mut e: Vec<(String, JsonValue)> = Vec::new();
    json::push_entry(&mut e, "error", JsonValue::str(code));
    json::push_entry(&mut e, "message", JsonValue::str(message));
    proof {
        assert(entries_view(e@) =~= seq![("error"@, JsonView::Str(code@)), ("message"@, JsonView::Str(message@))]);
    }
    Rejection { status, body: JsonValue::object(e) }
}

pub open spec fn unavailable_body() -> JsonView {
    denial_body("auth_unavailable"@, "MongoDB auth store unavailable (AUTH_REQUIRED=true)"@)
}

/// What the guard does with a request.
pub enum Access {
    /// Let it through.
    Pass,
    /// Check this token against the store, then `after_validation`.
    Validate(String),
    /// Answer with this error.
    Reject(Rejection),
}

/// Guard decision for a request: open when auth is not required or the path is
/// public; 503 when the store is down; 401 without a Bearer token; else validate it.
pub fn require_bearer(auth_required: bool, path: &str, auth_available: bool, authorization: Option<&str>) -> (r: Access)
    ensures
        !auth_required || public_path(path@) ==> r is Pass,
        auth_required && !public_path(path@) && !auth_available ==> (r matches Access::Reject(x) && x.status == 503
            && x.body@ == unavailable_body()),
        auth_required && !public_path(path@) && auth_available ==> match (match authorization { Some(v) => bearer_of(v@), None => None }) {
            None => r matches Access::Reject(x) && x.status == 401
                && x.body@ == denial_body("missing_token"@, "Authorization: Bearer <token> required (AUTH_REQUIRED=true)"@),
            Some(t) => r matches Access::Validate(y) && y@ == t,
        },
{
    if !auth_required || is_public_path(path) {
        return Access::Pass;
    }
    if !auth_available {
        return Access::Reject(denial(503, "auth_unavailable", "MongoDB auth store unavailable (AUTH_REQUIRED=true)"));
    }
    match bearer_token(authorization) {
        None => Access::Reject(denial(401, "missing_token", "Authorization: Bearer <token> required (AUTH_REQUIRED=true)")),
        Some(t) => Access::Validate(t),
    }
}

/// Guard decision after the token lookup: pass a known token, 401 an unknown
/// one, 503 when the store failed.
pub fn after_validation(valid: Result<bool, PairError>) -> (r: Access)
    ensures
        match valid {
            Ok(true) => r is Pass,
            Ok(false) => r matches Access::Reject(x) && x.status == 401
                && x.body@ == denial_body("invalid_token"@, "token not recognized or expired; call POST /api/v1/auth/pair"@),
            Err(_) => r matches Access::Reject(x) && x.status == 503 && x.body@ == unavailable_body(),
        },
{
    match valid {
        Ok(true) => Access::Pass,
        Ok(false) => Access::Reject(denial(401, "invalid_token", "token not recognized or expired; call POST /api/v1/auth/pair")),
        Err(_) => Access::Reject(denial(503, "auth_unavailable", "MongoDB auth store unavailable (AUTH_REQUIRED=true)")),
    }
}

// ---------------------------------------------------------------------------
// Pair / logout answers
// ---------------------------------------------------------------------------

/// `{"error": <text>}`.
pub open spec fn error_only(t: Seq<char>) -> JsonView {
    JsonView::Object(seq![("error"@, JsonView::Str(t))])
}

fn error_only_exec(status: u16, t: &str) -> (r: Rejection)
    ensures
        r.status == status,
        r.body@ == error_only(t@),
{
    let mut e: Vec<(String, JsonValue)> = Vec::new();
    json::push_entry(&mut e, "error", JsonValue::str(t));
    proof {
        assert(entries_view(e@) =~= seq![("error"@, JsonView::Str(t@))]);
    }
    Rejection { status, body: JsonValue::object(e) }
}

/// HTTP answer for a failed pairing: 400 invalid code, 410 expired code, 503 store down.
pub fn pair_error_response(e: &PairError) -> (r: Rejection)
    ensures
        match e {
            PairError::InvalidCode => r.status == 400 && r.body@ == error_only("invalid pairing code"@),
            PairError::ExpiredCode => r.status == 410 && r.body@ == error_only("pairing code expired"@),
            PairError::Unavailable => r.status == 503 && r.body@ == error_only("auth store unavailable (MongoDB)"@),
        },
{
    match e {
        PairError::InvalidCode => error_only_exec(400, "invalid pairing code"),
        PairError::ExpiredCode => error_only_exec(410, "pairing code expired"),
        PairError::Unavailable => error_only_exec(503, "auth store unavailable (MongoDB)"),
    }
}

/// The token a logout revokes: a non-blank body token (as given), else the
/// header's Bearer token; 400 when neither.
pub fn logout_token(body_token: Option<&str>, authorization: Option<&str>) -> (r: Result<String, Rejection>)
    ensures
        match body_token {
            Some(b) if text::trimmed(b@).len() > 0 => r matches Ok(t) && t@ == b@,
            _ => match (match authorization { Some(v) => bearer_of(v@), None => None }) {
                Some(t) => r matches Ok(x) && x@ == t,
                None => r matches Err(x) && x.status == 400
                    && x.body@ == error_only("token required (body.token or Authorization Bearer)"@),
            },
        },
{
    match body_token {
        Some(b) => {
            let t = text::trim(b);
            if !text::is_empty(t.as_str()) {
                return Ok(text::owned(b));
            }
        },
        None => {},
    }
    match bearer_token(authorization) {
        Some(t) => Ok(t),
        None => Err(error_only_exec(400, "token required (body.token or Authorization Bearer)")),
    }
}

/// `{"ok": true, "revoked": <bool>}`.
pub open spec fn revoked_json(revoked: bool) -> JsonView {
    JsonView::Object(seq![("ok"@, JsonView::Bool(true)), ("revoked"@, JsonView::Bool(revoked))])
}

/// HTTP answer for a revoke: the revoked flag, 503 when the store is down, 400 otherwise.
pub fn logout_response(r: Result<bool, PairError>) -> (out: Result<JsonValue, Rejection>)
    ensures
        match r {
            Ok(b) => out matches Ok(j) && j@ == revoked_json(b),
            Err(PairError::Unavailable) => out matches Err(x) && x.status == 503 && x.body@ == error_only("auth store unavailable (MongoDB)"@),
            Err(_) => out matches Err(x) && x.status == 400 && x.body@ == error_only("logout failed"@),
        },
{
    match r {
        Ok(b) => {
            let mut e: Vec<(String, JsonValue)> = Vec::new();
            json::push_entry(&mut e, "ok", JsonValue::Bool(true));
            json::push_entry(&mut e, "revoked", JsonValue::Bool(b));
            proof {
                assert(entries_view(e@) =~= seq![("ok"@, JsonView::Bool(true)), ("revoked"@, JsonView::Bool(b))]);
            }
            Ok(JsonValue::object(e))
        },
        Err(PairError::Unavailable) => Err(error_only_exec(503, "auth store unavailable (MongoDB)")),
        Err(_) => Err(error_only_exec(400, "logout failed")),
    }
}

} // verus!
