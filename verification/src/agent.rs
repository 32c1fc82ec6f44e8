//! Agent HTTP client — the Hub forwards chat messages to the intelligence layer.
//!
//! Graceful when the Agent is down: callers get an error after retries and the
//! Hub stays up. This module builds the request and runs the retry protocol;
//! sending and sleeping are done by the caller.

use vstd::prelude::*;
use vstd::arithmetic::power2::pow2;
use crate::json::{self, JsonValue, JsonView, entries_view};
use crate::text;

verus! {

broadcast use vstd::string::group_string_axioms;

/// Failure of a chat request.
pub enum AgentError {
    NotConfigured,
    Unreachable(String),
    Api { status: u16, body: String },
}

pub enum AgentErrorView {
    NotConfigured,
    Unreachable(Seq<char>),
    Api { status: u16, body: Seq<char> },
}

impl View for AgentError {
    type V = AgentErrorView;

    open spec fn view(&self) -> AgentErrorView {
        match self {
            AgentError::NotConfigured => AgentErrorView::NotConfigured,
            AgentError::Unreachable(s) => AgentErrorView::Unreachable(s@),
            AgentError::Api { status, body } => AgentErrorView::Api { status: *status, body: body@ },
        }
    }
}

pub open spec fn agent_error_text(e: AgentErrorView) -> Seq<char> {
    match e {
        AgentErrorView::NotConfigured => "Agent URL is empty"@,
        AgentErrorView::Unreachable(s) => "Agent unreachable: "@ + s,
        AgentErrorView::Api { status, body } => "Agent API error ("@ + text::dec(status as nat) + "): "@ + body,
    }
}

impl AgentError {
    /// Display text of the error.
    pub fn to_string(&self) -> (r: String)
        ensures
            r@ == agent_error_text(self@),
    {
        match self {
            AgentError::NotConfigured => text::owned("Agent URL is empty"),
            AgentError::Unreachable(s) => text::concat("Agent unreachable: ", s.as_str()),
            AgentError::Api { status, body } => {
                let n = text::u64_to_string(*status as u64);
                let mut r = text::concat3("Agent API error (", n.as_str(), "): ");
                text::push_str(&mut r, body.as_str());
                r
            },
        }
    }
}

/// Confirmation flag, pending action and conversation history forwarded to the Agent.
pub struct ChatOptions {
    pub confirm: bool,
    pub pending_action: Option<String>,
    pub conversation_history: Option<JsonValue>,
}

impl ChatOptions {
    /// No confirmation, nothing pending, no history.
    pub fn default() -> (r: ChatOptions)
        ensures
            !r.confirm,
            r.pending_action is None,
            r.conversation_history is None,
    {
        ChatOptions { confirm: false, pending_action: None, conversation_history: None }
    }
}

/// Where the Agent lives and how often a chat is attempted.
pub struct AgentClient {
    pub base_url: String,
    pub max_retries: u32,
}

/// The context sent when the caller gives none: `{"devices": [], "scenes": []}`.
pub open spec fn empty_context() -> JsonView {
    JsonView::Object(seq![("devices"@, JsonView::Array(Seq::empty())), ("scenes"@, JsonView::Array(Seq::empty()))])
}

/// The context with the conversation history stored under `conversation_history`
/// (when the context is an object).
pub open spec fn context_with_history(ctx: JsonView, history: Option<JsonView>) -> JsonView {
    match history {
        Some(h) => match ctx {
            JsonView::Object(e) => JsonView::Object(json::put(e, "conversation_history"@, h)),
            _ => ctx,
        },
        None => ctx,
    }
}

/// The chat request body: `message`, `context`, then `confirm: true` when
/// confirming and `pending_action` when one is pending.
pub open spec fn chat_body(message: Seq<char>, ctx: JsonView, confirm: bool, pending: Option<Seq<char>>) -> JsonView {
    let base = seq![("message"@, JsonView::Str(message)), ("context"@, ctx)];
    let with_confirm = if confirm { base.push(("confirm"@, JsonView::Bool(true))) } else { base };
    JsonView::Object(pending_entry(with_confirm, pending))
}

pub open spec fn pending_entry(e: Seq<(Seq<char>, JsonView)>, pending: Option<Seq<char>>) -> Seq<(Seq<char>, JsonView)> {
    match pending {
        Some(p) => e.push(("pending_action"@, JsonView::Str(p))),
        None => e,
    }
}

fn empty_array() -> (r: JsonValue)
    ensures
        r@ == JsonView::Array(Seq::empty()),
{
    let v: Vec<JsonValue> = Vec::new();
    proof {
        assert(json::values_view(v@) =~= Seq::<JsonView>::empty());
    }
    JsonValue::array(v)
}

impl AgentClient {
    /// A client for `base_url` (trailing `/` removed) making at most three attempts.
    pub fn new(base_url: &str) -> (r: AgentClient)
        ensures
            r.base_url@ == text::trim_end_char(base_url@, '/'),
            r.max_retries == 3,
    {
        AgentClient { base_url: text::trim_end_matches(base_url, '/'), max_retries: 3 }
    }

    /// The Agent URL is set.
    pub fn is_configured(&self) -> (r: bool)
        ensures
            r == (self.base_url@.len() > 0),
    {
        !text::is_empty(self.base_url.as_str())
    }

    /// The request for a chat message: `POST {base}/v1/chat` with the body of
    /// [`chat_body`]; `NotConfigured` without an Agent URL.
    pub fn chat_request(&self, message: &str, context: Option<JsonValue>, options: ChatOptions) -> (r: Result<(String, JsonValue), AgentError>)
        ensures
            self.base_url@.len() == 0 ==> (r matches Err(e) && e@ == AgentErrorView::NotConfigured),
            self.base_url@.len() > 0 ==> (r matches Ok(p) && p.0@ == self.base_url@ + "/v1/chat"@
                && p.1@ == chat_body(
                    message@,
                    context_with_history(
                        match context { Some(c) => c@, None => empty_context() },
                        match options.conversation_history { Some(h) => Some(h@), None => None },
                    ),
                    options.confirm,
                    crate::capability::opt_str_view(options.pending_action),
                )),
    {
        if !self.is_configured() {
            return Err(AgentError::NotConfigured);
        }
        let url = text::concat(self.base_url.as_str(), "/v1/chat");
        let ctx = match context {
            Some(c) => c,
            None => {
                let mut e: Vec<(String, JsonValue)> = Vec::new();
                json::push_entry(&mut e, "devices", empty_array());
                json::push_entry(&mut e, "scenes", empty_array());
                proof {
                    assert(entries_view(e@) =~= seq![("devices"@, JsonView::Array(Seq::empty())), ("scenes"@, JsonView::Array(Seq::empty()))]);
                }
                JsonValue::object(e)
            },
        };
        let ghost cv = ctx@;
        let ctx = match options.conversation_history {
            Some(h) => match ctx {
                JsonValue::Object(mut e) => {
                    proof {
                        json::lemma_object_view(e);
                    }
                    json::put_entry(&mut e, "conversation_history", h);
                    JsonValue::object(e)
                },
                other => other,
            },
            None => ctx,
        };
        let mut body: Vec<(String, JsonValue)> = Vec::new();
        json::push_entry(&mut body, "message", JsonValue::str(message));
        let ghost ctxv = ctx@;
        json::push_entry(&mut body, "context", ctx);
        let ghost base = entries_view(body@);
        proof {
            assert(base =~= seq![("message"@, JsonView::Str(message@)), ("context"@, ctxv)]);
        }
        if options.confirm {
            json::push_entry(&mut body, "confirm", JsonValue::Bool(true));
        }
        let ghost wc = entries_view(body@);
        match options.pending_action {
            Some(p) => json::push_entry(&mut body, "pending_action", JsonValue::str(p.as_str())),
            None => {},
        }
        Ok((url, JsonValue::object(body)))
    }
}

// ---------------------------------------------------------------------------
// Retry protocol
// ---------------------------------------------------------------------------

/// Delay before retrying after attempt `attempt`: 200 ms doubled per earlier attempt.
pub open spec fn backoff_ms(attempt: u32) -> nat {
    200 * pow2(if attempt == 0 { 0 } else { (attempt - 1) as nat })
}

/// Milliseconds to wait after attempt `attempt` (attempts are numbered from 1).
pub fn backoff(attempt: u32) -> (r: u64)
    requires
        attempt <= 57,
    ensures
        r as nat == backoff_ms(attempt),
{
    let e: u32 = if attempt == 0 { 0 } else { attempt - 1 };
    let mut p: u64 = 1;
    let mut k: u32 = 0;
    proof {
        vstd::arithmetic::power2::lemma2_to64();
        vstd::arithmetic::power2::lemma2_to64_rest();
    }
    while k < e
        invariant
            k <= e <= 56,
            p as nat == pow2(k as nat),
            pow2(56) == 0x100000000000000,
        decreases e - k,
    {
        proof {
            vstd::arithmetic::power2::lemma_pow2_unfold((k + 1) as nat);
            if k + 1 < 56 {
                vstd::arithmetic::power2::lemma_pow2_strictly_increases((k + 1) as nat, 56);
            }
        }
        p = p * 2;
        k = k + 1;
    }
    proof {
        if e < 56 {
            vstd::arithmetic::power2::lemma_pow2_strictly_increases(e as nat, 56);
        }
        assert(200 * p <= 200 * 0x100000000000000) by (nonlinear_arith)
            requires
                p <= 0x100000000000000,
        ;
    }
    200 * p
}

/// What one attempt got back: a response (status, text and its JSON parse,
/// `None` when not JSON), or a transport error.
pub enum AgentReply {
    Sent { status: u16, text: String, parsed: Option<JsonValue> },
    Failed(String),
}

/// What the caller does next in a chat exchange.
pub enum ChatNext {
    /// Send the request (again).
    Send,
    /// Sleep this many milliseconds, then send again.
    Wait(u64),
    /// The exchange is over with this result.
    Done(Result<JsonValue, AgentError>),
}

/// The result for a successful response: `{"reply": "", "status": "ok"}` for a
/// blank body, the parsed JSON, else `{"reply": <text>, "status": "ok", "raw": true}`.
pub open spec fn success_value(t: Seq<char>, parsed: Option<JsonView>) -> JsonView {
    if text::trimmed(t).len() == 0 {
        JsonView::Object(seq![("reply"@, JsonView::Str(Seq::empty())), ("status"@, JsonView::Str("ok"@))])
    } else {
        match parsed {
            Some(j) => j,
            None => JsonView::Object(seq![
                ("reply"@, JsonView::Str(t)),
                ("status"@, JsonView::Str("ok"@)),
                ("raw"@, JsonView::Bool(true)),
            ]),
        }
    }
}

/// State of one chat exchange: the attempt in progress and the last error seen.
pub struct ChatRun {
    pub attempt: u32,
    pub max_retries: u32,
    pub last_err: AgentError,
}

impl ChatRun {
    /// A fresh exchange: attempt 1, no error seen yet (reported as `unknown`).
    pub fn new(max_retries: u32) -> (r: ChatRun)
        ensures
            r.attempt == 1,
            r.max_retries == max_retries,
            r.last_err@ == AgentErrorView::Unreachable("unknown"@),
    {
        ChatRun { attempt: 1, max_retries, last_err: AgentError::Unreachable(text::owned("unknown")) }
    }

    /// First step: send, or — with no attempts allowed — fail with the last error.
    pub fn first(&self) -> (r: ChatNext)
        ensures
            self.attempt <= self.max_retries ==> r is Send,
            self.attempt > self.max_retries ==> (r matches ChatNext::Done(Err(e)) && e@ == self.last_err@),
    {
        if self.attempt <= self.max_retries {
            ChatNext::Send
        } else {
            ChatNext::Done(Err(self.duplicate_err()))
        }
    }

    fn duplicate_err(&self) -> (r: AgentError)
        ensures
            r@ == self.last_err@,
    {
        match &self.last_err {
            AgentError::NotConfigured => AgentError::NotConfigured,
            AgentError::Unreachable(s) => AgentError::Unreachable(s.clone()),
            AgentError::Api { status, body } => AgentError::Api { status: *status, body: body.clone() },
        }
    }

    /// Reaction to the reply of the current attempt. A 5xx response or a
    /// transport error before the last attempt is retried after the backoff; a
    /// transport error on the last attempt ends the exchange with it; any other
    /// non-2xx ends it with an API error; a 2xx ends it with [`success_value`].
    pub fn on_reply(&mut self, reply: AgentReply) -> (r: ChatNext)
        requires
            1 <= old(self).attempt <= old(self).max_retries,
            old(self).max_retries <= 57,
        ensures
            final(self).max_retries == old(self).max_retries,
            match reply {
                AgentReply::Sent { status, text: t, parsed } => if 500 <= status <= 599 && old(self).attempt < old(self).max_retries {
                    (r matches ChatNext::Wait(ms) && ms as nat == backoff_ms(old(self).attempt))
                        && final(self).attempt == old(self).attempt + 1
                        && final(self).last_err@ == (AgentErrorView::Api { status, body: t@ })
                } else if !(200 <= status <= 299) {
                    r matches ChatNext::Done(Err(e)) && e@ == (AgentErrorView::Api { status, body: t@ })
                } else {
                    r matches ChatNext::Done(Ok(v)) && v@ == success_value(t@, match parsed { Some(j) => Some(j@), None => None })
                },
                AgentReply::Failed(e) => if old(self).attempt < old(self).max_retries {
                    (r matches ChatNext::Wait(ms) && ms as nat == backoff_ms(old(self).attempt))
                        && final(self).attempt == old(self).attempt + 1
                        && final(self).last_err@ == AgentErrorView::Unreachable(e@)
                } else {
                    r matches ChatNext::Done(Err(x)) && x@ == AgentErrorView::Unreachable(e@)
                },
            },
    {
        match reply {
            AgentReply::Sent { status, text: t, parsed } => {
                if 500 <= status && status <= 599 && self.attempt < self.max_retries {
                    let ms = backoff(self.attempt);
                    self.last_err = AgentError::Api { status, body: t };
                    self.attempt = self.attempt + 1;
                    return ChatNext::Wait(ms);
                }
                if !(200 <= status && status <= 299) {
                    return ChatNext::Done(Err(AgentError::Api { status, body: t }));
                }
                let trimmed = text::trim(t.as_str());
                if text::is_empty(trimmed.as_str()) {
                    let mut e: Vec<(String, JsonValue)> = Vec::new();
                    json::push_entry(&mut e, "reply", JsonValue::str(""));
                    json::push_entry(&mut e, "status", JsonValue::str("ok"));
                    proof {
                        reveal_strlit("");
                        assert(""@ =~= Seq::<char>::empty());
                        assert(entries_view(e@) =~= seq![("reply"@, JsonView::Str(Seq::empty())), ("status"@, JsonView::Str("ok"@))]);
                    }
                    return ChatNext::Done(Ok(JsonValue::object(e)));
                }
                match parsed {
                    Some(j) => ChatNext::Done(Ok(j)),
                    None => {
                        let mut e: Vec<(String, JsonValue)> = Vec::new();
                        json::push_entry(&mut e, "reply", JsonValue::str(t.as_str()));
                        json::push_entry(&mut e, "status", JsonValue::str("ok"));
                        json::push_entry(&mut e, "raw", JsonValue::Bool(true));
                        proof {
                            assert(entries_view(e@) =~= seq![
                                ("reply"@, JsonView::Str(t@)),
                                ("status"@, JsonView::Str("ok"@)),
                                ("raw"@, JsonView::Bool(true)),
                            ]);
                        }
                        ChatNext::Done(Ok(JsonValue::object(e)))
                    },
                }
            },
            AgentReply::Failed(e) => {
                if self.attempt < self.max_retries {
                    let ms = backoff(self.attempt);
                    self.last_err = AgentError::Unreachable(e);
                    self.attempt = self.attempt + 1;
                    ChatNext::Wait(ms)
                } else {
                    ChatNext::Done(Err(AgentError::Unreachable(e)))
                }
            },
        }
    }
}

} // verus!
