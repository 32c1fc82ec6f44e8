//! Hub → client event frames (fanned out to WebSocket subscribers), and the
//! redaction of store URIs for logs.

use vstd::prelude::*;
use crate::encode::entity_json;
use crate::json::{self, JsonValue, JsonView, entries_view};
use crate::registry::DeviceEntity;
use crate::text;

verus! {

broadcast use vstd::string::group_string_axioms;

/// Frames a subscriber may fall behind by before it is told it lagged.
pub const EVENT_CAPACITY: usize = 256;

/// `{"type": "device:state_changed", "device": <entity>}`.
pub open spec fn state_changed_frame(d: crate::registry::EntityView) -> JsonView {
    JsonView::Object(seq![("type"@, JsonView::Str("device:state_changed"@)), ("device"@, entity_json(d))])
}

/// `{"type": "error", "code": <code>, "message": <message>}`.
pub open spec fn error_frame(code: Seq<char>, message: JsonView) -> JsonView {
    JsonView::Object(seq![("type"@, JsonView::Str("error"@)), ("code"@, JsonView::Str(code)), ("message"@, message)])
}

/// The frame announcing a device's new state.
pub fn device_state_changed(device: &DeviceEntity) -> (r: JsonValue)
    ensures
        r@ == state_changed_frame(device@),
{
    let mut e: Vec<(String, JsonValue)> = Vec::new();
    json::push_entry(&mut e, "type", JsonValue::str("device:state_changed"));
    json::push_entry(&mut e, "device", device.to_json());
    proof {
        assert(entries_view(e@) =~= seq![("type"@, JsonView::Str("device:state_changed"@)), ("device"@, entity_json(device@))]);
    }
    JsonValue::object(e)
}

/// An error frame.
pub fn error(code: &str, message: JsonValue) -> (r: JsonValue)
    ensures
        r@ == error_frame(code@, message@),
{
    let mut e: Vec<(String, JsonValue)> = Vec::new();
    json::push_entry(&mut e, "type", JsonValue::str("error"));
    json::push_entry(&mut e, "code", JsonValue::str(code));
    let ghost mv = message@;
    json::push_entry(&mut e, "message", message);
    proof {
        assert(entries_view(e@) =~= seq![("type"@, JsonView::Str("error"@)), ("code"@, JsonView::Str(code@)), ("message"@, mv)]);
    }
    JsonValue::object(e)
}

/// A URI with any credentials hidden: `<scheme>://***@<after last @>` when it
/// has both a `://` and an `@`, else unchanged.
pub open spec fn redacted(uri: Seq<char>) -> Seq<char> {
    match (text::last_index(uri, '@'), text::first_occurrence(uri, "://"@)) {
        (Some(at), Some(se)) => uri.take(se) + "://***@"@ + uri.skip(at + 1),
        _ => uri,
    }
}

fn splice(v: &Vec<char>, se: usize, at: usize) -> (r: String)
    requires
        se <= v@.len(),
        at < v@.len(),
    ensures
        r@ == v@.take(se as int) + "://***@"@ + v@.skip(at + 1),
{
    let n = v.len();
    let head = text::slice_string(v, 0, se);
    let tail = text::slice_string(v, at + 1, n);
    proof {
        assert(head@ =~= v@.take(se as int));
        assert(tail@ =~= v@.skip(at + 1));
    }
    text::concat3(head.as_str(), "://***@", tail.as_str())
}

fn separator_at(v: &Vec<char>) -> (r: Option<usize>)
    ensures
        match r {
            Some(i) => text::first_occurrence(v@, "://"@) == Some(i as int) && i <= v@.len(),
            None => text::first_occurrence(v@, "://"@) is None,
        },
{
    let sep = text::chars_of("://");
    text::find_sub(v.as_slice(), sep.as_slice())
}

/// Hides credentials in a store URI before it is logged.
pub fn redact_uri(uri: &str) -> (r: String)
    ensures
        r@ == redacted(uri@),
{
    let v = text::chars_of(uri);
    let at = text::rfind_char(&v, '@');
    let se = separator_at(&v);
    match (at, se) {
        (Some(a), Some(s)) => splice(&v, s, a),
        _ => text::owned(uri),
    }
}

} // verus!
