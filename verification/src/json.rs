//! A JSON value model that the rest of the library reads and builds.
//!
//! Numbers keep the integer/float distinction of JSON documents. A float is
//! held as its IEEE-754 bit pattern together with its `Display` rendering, so
//! the library can carry, compare and print it without floating-point
//! arithmetic. An integer may carry the same pair for its value converted to a
//! float; without it, `as_f64` derives the pair from the integer itself when
//! its magnitude is below 2^54 (exactly up to 2^53, rounded to an even
//! integer above).

use vstd::prelude::*;
use crate::text;

verus! {

broadcast use vstd::string::group_string_axioms;

/// An IEEE-754 double: its bit pattern and its `Display` text (e.g. `16`, `28.5`).
pub struct Float64 {
    pub bits: u64,
    pub text: String,
}

pub struct FloatView {
    pub bits: u64,
    pub text: Seq<char>,
}

impl View for Float64 {
    type V = FloatView;

    open spec fn view(&self) -> FloatView {
        FloatView { bits: self.bits, text: self.text@ }
    }
}

/// A JSON number: non-negative integer, negative integer, or float.
pub enum JsonNumber {
    PosInt(u64, Option<Float64>),
    NegInt(i64, Option<Float64>),
    Float(Float64),
}

pub enum NumberView {
    PosInt(u64, Option<FloatView>),
    NegInt(i64, Option<FloatView>),
    Float(FloatView),
}

pub open spec fn opt_float_view(f: Option<Float64>) -> Option<FloatView> {
    match f {
        Some(x) => Some(x@),
        None => None,
    }
}

impl View for JsonNumber {
    type V = NumberView;

    open spec fn view(&self) -> NumberView {
        match self {
            JsonNumber::PosInt(u, f) => NumberView::PosInt(*u, opt_float_view(*f)),
            JsonNumber::NegInt(i, f) => NumberView::NegInt(*i, opt_float_view(*f)),
            JsonNumber::Float(f) => NumberView::Float(f@),
        }
    }
}

/// A JSON document.
pub enum JsonValue {
    Null,
    Bool(bool),
    Number(JsonNumber),
    Str(String),
    Array(Vec<JsonValue>),
    Object(Vec<(String, JsonValue)>),
}

/// Mathematical view of a JSON document.
pub enum JsonView {
    Null,
    Bool(bool),
    Number(NumberView),
    Str(Seq<char>),
    Array(Seq<JsonView>),
    Object(Seq<(Seq<char>, JsonView)>),
}

pub open spec fn json_view(j: JsonValue) -> JsonView
    decreases j,
{
    match j {
        JsonValue::Null => JsonView::Null,
        JsonValue::Bool(b) => JsonView::Bool(b),
        JsonValue::Number(n) => JsonView::Number(n@),
        JsonValue::Str(s) => JsonView::Str(s@),
        JsonValue::Array(v) => JsonView::Array(
            Seq::new(v@.len(), |i: int| if 0 <= i < v@.len() { json_view(v@[i]) } else { JsonView::Null }),
        ),
        JsonValue::Object(v) => JsonView::Object(
            Seq::new(
                v@.len(),
                |i: int|
                    if 0 <= i < v@.len() {
                        (v@[i].0@, json_view(v@[i].1))
                    } else {
                        (Seq::empty(), JsonView::Null)
                    },
            ),
        ),
    }
}

impl View for JsonValue {
    type V = JsonView;

    open spec fn view(&self) -> JsonView {
        json_view(*self)
    }
}

/// View of a list of documents.
pub open spec fn values_view(v: Seq<JsonValue>) -> Seq<JsonView> {
    Seq::new(v.len(), |i: int| json_view(v[i]))
}

/// View of the entries of an object (or of a string-keyed map of documents).
pub open spec fn entries_view(v: Seq<(String, JsonValue)>) -> Seq<(Seq<char>, JsonView)> {
    Seq::new(v.len(), |i: int| (v[i].0@, json_view(v[i].1)))
}

pub proof fn lemma_object_view(v: Vec<(String, JsonValue)>)
    ensures
        json_view(JsonValue::Object(v)) == JsonView::Object(entries_view(v@)),
{
    let a = json_view(JsonValue::Object(v));
    assert(a matches JsonView::Object(s) && s =~= entries_view(v@));
}

pub proof fn lemma_array_view(v: Vec<JsonValue>)
    ensures
        json_view(JsonValue::Array(v)) == JsonView::Array(values_view(v@)),
{
    let a = json_view(JsonValue::Array(v));
    assert(a matches JsonView::Array(s) && s =~= values_view(v@));
}

/// First value stored under `key` (object lookup; keys are unique in well-formed objects).
pub open spec fn lookup(entries: Seq<(Seq<char>, JsonView)>, key: Seq<char>) -> Option<JsonView>
    decreases entries.len(),
{
    if entries.len() == 0 {
        None
    } else if entries[0].0 == key {
        Some(entries[0].1)
    } else {
        lookup(entries.drop_first(), key)
    }
}

/// `Value::get(key)`: lookup in an object, `None` for any other document.
pub open spec fn get(j: JsonView, key: Seq<char>) -> Option<JsonView> {
    match j {
        JsonView::Object(e) => lookup(e, key),
        _ => None,
    }
}

/// `Value::as_str`.
pub open spec fn as_str(j: Option<JsonView>) -> Option<Seq<char>> {
    match j {
        Some(JsonView::Str(s)) => Some(s),
        _ => None,
    }
}

/// `Value::as_bool`.
pub open spec fn as_bool(j: Option<JsonView>) -> Option<bool> {
    match j {
        Some(JsonView::Bool(b)) => Some(b),
        _ => None,
    }
}

/// `Value::as_u64`.
pub open spec fn as_u64(j: Option<JsonView>) -> Option<u64> {
    match j {
        Some(JsonView::Number(NumberView::PosInt(u, _))) => Some(u),
        _ => None,
    }
}

/// Doubling `m` until it reaches 2^52: the significand scaled into
/// `[2^52, 2^53)` and the number of doublings (`m` unchanged when 0).
pub open spec fn normalize(m: nat, k: nat) -> (nat, nat)
    decreases 0x20000000000000 - m,
{
    if m == 0 || m >= 0x10000000000000 {
        (m, k)
    } else {
        normalize(m * 2, k + 1)
    }
}

/// IEEE-754 double encoding of the integer `-m` (when `neg`) or `m`, for
/// `m <= 2^53`: sign bit, biased exponent `1023 + e` where `2^e <= m < 2^(e+1)`,
/// and the 52 bits of `m` after its leading one.
pub open spec fn int_f64_bits(neg: bool, m: nat) -> nat {
    let sign: nat = if neg { 0x8000000000000000 } else { 0 };
    if m == 0 {
        0
    } else if m == 0x20000000000000 {
        sign + 1076 * 0x10000000000000
    } else {
        sign + (1075 - normalize(m, 0).1) as nat * 0x10000000000000 + (normalize(m, 0).0 - 0x10000000000000) as nat
    }
}

/// `m / 2` rounded to the nearest integer, ties to the even one.
pub open spec fn half_to_even(m: nat) -> nat {
    if m % 2 == 1 && (m / 2) % 2 == 1 { m / 2 + 1 } else { m / 2 }
}

/// IEEE-754 double encoding of `±2q` for `2^52 <= q <= 2^53` (the doubles
/// between 2^53 and 2^54, which are spaced 2 apart).
pub open spec fn even_f64_bits(neg: bool, q: nat) -> nat {
    let sign: nat = if neg { 0x8000000000000000 } else { 0 };
    if q == 0x20000000000000 {
        sign + 1077 * 0x10000000000000
    } else {
        sign + 1076 * 0x10000000000000 + (q - 0x10000000000000) as nat
    }
}

/// Decimal text of `-n` (when `neg`) or `n`.
pub open spec fn signed_dec(neg: bool, n: nat) -> Seq<char> {
    if neg && n > 0 { "-"@ + text::dec(n) } else { text::dec(n) }
}

/// The float reading of the integer `-m` (when `neg`) or `m`, as `m as f64`
/// gives it (round to nearest, ties to even): exact up to 2^53; below 2^54 the
/// nearest even integer. The `Display` text of such a double is the decimal
/// text of its integer value. Beyond 2^54 that text is a shortest round-trip
/// digit string, which is not computed here: there the reading is undefined.
pub open spec fn int_reading(neg: bool, m: nat) -> Option<FloatView> {
    if m <= 0x20000000000000 {
        Some(FloatView { bits: int_f64_bits(neg, m) as u64, text: signed_dec(neg, m) })
    } else if m < 0x40000000000000 {
        Some(FloatView {
            bits: even_f64_bits(neg, half_to_even(m)) as u64,
            text: signed_dec(neg, 2 * half_to_even(m)),
        })
    } else {
        None
    }
}

/// `Value::as_f64`, as the bit pattern and text of the float: the reading an
/// integer carries, else the one derived from the integer.
pub open spec fn as_f64(j: Option<JsonView>) -> Option<FloatView> {
    match j {
        Some(JsonView::Number(NumberView::PosInt(n, f))) => match f {
            Some(x) => Some(x),
            None => int_reading(false, n as nat),
        },
        Some(JsonView::Number(NumberView::NegInt(i, f))) => match f {
            Some(x) => Some(x),
            None => if i < 0 { int_reading(true, (-i) as nat) } else { int_reading(false, i as nat) },
        },
        Some(JsonView::Number(NumberView::Float(f))) => Some(f),
        _ => None,
    }
}

/// `Value::as_array`.
pub open spec fn as_array(j: Option<JsonView>) -> Option<Seq<JsonView>> {
    match j {
        Some(JsonView::Array(a)) => Some(a),
        _ => None,
    }
}

/// The entries after storing `val` under `key`: the first entry with that key is
/// replaced, or a new entry is appended (as `Map::insert` / `HashMap::insert` do).
pub open spec fn put(entries: Seq<(Seq<char>, JsonView)>, key: Seq<char>, val: JsonView) -> Seq<(Seq<char>, JsonView)> {
    if exists|i: int| 0 <= i < entries.len() && entries[i].0 == key {
        let i = choose|i: int| 0 <= i < entries.len() && entries[i].0 == key && forall|j: int| 0 <= j < i ==> entries[j].0 != key;
        entries.update(i, (key, val))
    } else {
        entries.push((key, val))
    }
}

pub open spec fn str_view(s: Seq<char>) -> JsonView {
    JsonView::Str(s)
}

pub proof fn lemma_lookup_first(entries: Seq<(Seq<char>, JsonView)>, key: Seq<char>, i: int)
    requires
        0 <= i < entries.len(),
        entries[i].0 == key,
        forall|j: int| 0 <= j < i ==> entries[j].0 != key,
    ensures
        lookup(entries, key) == Some(entries[i].1),
    decreases i,
{
    if i > 0 {
        lemma_lookup_first(entries.drop_first(), key, i - 1);
    }
}

pub proof fn lemma_lookup_none(entries: Seq<(Seq<char>, JsonView)>, key: Seq<char>)
    requires
        forall|j: int| 0 <= j < entries.len() ==> entries[j].0 != key,
    ensures
        lookup(entries, key) is None,
    decreases entries.len(),
{
    if entries.len() > 0 {
        lemma_lookup_none(entries.drop_first(), key);
    }
}

pub proof fn lemma_lookup_push(entries: Seq<(Seq<char>, JsonView)>, k: Seq<char>, v: JsonView, key: Seq<char>)
    ensures
        lookup(entries.push((k, v)), key) == (if lookup(entries, key) is Some {
            lookup(entries, key)
        } else if k == key {
            Some(v)
        } else {
            None
        }),
    decreases entries.len(),
{
    let p = entries.push((k, v));
    if entries.len() > 0 {
        assert(p[0] == entries[0]);
        assert(p.drop_first() =~= entries.drop_first().push((k, v)));
        lemma_lookup_push(entries.drop_first(), k, v, key);
        if entries[0].0 == key {
            assert(lookup(p, key) == Some(entries[0].1));
        } else {
            assert(lookup(p, key) == lookup(p.drop_first(), key));
            assert(lookup(entries, key) == lookup(entries.drop_first(), key));
        }
    } else {
        assert(p.drop_first() =~= Seq::<(Seq<char>, JsonView)>::empty());
        assert(lookup(entries, key) is None);
        assert(p[0] == (k, v));
        if k != key {
            assert(lookup(p, key) == lookup(p.drop_first(), key));
        }
    }
}

proof fn lemma_lookup_update(entries: Seq<(Seq<char>, JsonView)>, i: int, k: Seq<char>, v: JsonView, key: Seq<char>)
    requires
        0 <= i < entries.len(),
        entries[i].0 == k,
        key != k,
    ensures
        lookup(entries.update(i, (k, v)), key) == lookup(entries, key),
    decreases entries.len(),
{
    let u = entries.update(i, (k, v));
    if i == 0 {
        assert(u.drop_first() =~= entries.drop_first());
    } else {
        assert(u[0] == entries[0]);
        assert(u.drop_first() =~= entries.drop_first().update(i - 1, (k, v)));
        lemma_lookup_update(entries.drop_first(), i - 1, k, v, key);
    }
}

/// After `put`, the key reads as the stored value and every other key as before.
pub proof fn lemma_lookup_put(entries: Seq<(Seq<char>, JsonView)>, k: Seq<char>, v: JsonView, key: Seq<char>)
    ensures
        lookup(put(entries, k, v), key) == (if key == k { Some(v) } else { lookup(entries, key) }),
{
    if exists|i: int| 0 <= i < entries.len() && entries[i].0 == k {
        let i = choose|i: int| 0 <= i < entries.len() && entries[i].0 == k && forall|j: int| 0 <= j < i ==> entries[j].0 != k;
        assert(exists|i: int| 0 <= i < entries.len() && entries[i].0 == k && forall|j: int| 0 <= j < i ==> entries[j].0 != k) by {
            let w = choose|w: int| 0 <= w < entries.len() && entries[w].0 == k;
            lemma_first_with_key(entries, k, w);
        }
        let u = entries.update(i, (k, v));
        if key == k {
            assert forall|j: int| 0 <= j < i implies u[j].0 != key by {
                assert(u[j] == entries[j]);
            }
            lemma_lookup_first(u, key, i);
        } else {
            lemma_lookup_update(entries, i, k, v, key);
        }
    } else {
        lemma_lookup_push(entries, k, v, key);
        if key == k {
            lemma_lookup_none(entries, key);
        }
    }
}

proof fn lemma_first_with_key(entries: Seq<(Seq<char>, JsonView)>, k: Seq<char>, w: int)
    requires
        0 <= w < entries.len(),
        entries[w].0 == k,
    ensures
        exists|i: int| 0 <= i < entries.len() && entries[i].0 == k && forall|j: int| 0 <= j < i ==> entries[j].0 != k,
    decreases w,
{
    if exists|j: int| 0 <= j < w && entries[j].0 == k {
        let j = choose|j: int| 0 <= j < w && entries[j].0 == k;
        lemma_first_with_key(entries, k, j);
    } else {
        assert(forall|j: int| 0 <= j < w ==> entries[j].0 != k);
    }
}

// ---------------------------------------------------------------------------
// Executable operations
// ---------------------------------------------------------------------------

impl Float64 {
    /// Copy of this float.
    pub fn copy(&self) -> (r: Float64)
        ensures
            r@ == self@,
    {
        Float64 { bits: self.bits, text: self.text.clone() }
    }
}

fn int_float(neg: bool, m: u64) -> (r: Option<Float64>)
    ensures
        opt_float_view(r) == int_reading(neg, m as nat),
{
    if m >= 0x40000000000000 {
        return None;
    }
    proof {
        reveal_strlit("-");
    }
    if m > 0x20000000000000 {
        let q0: u64 = m / 2;
        let q: u64 = if m % 2 == 1 && q0 % 2 == 1 { q0 + 1 } else { q0 };
        let digits = text::u64_to_string(2 * q);
        let t = if neg { text::concat("-", digits.as_str()) } else { digits };
        let sign: u64 = if neg { 0x8000000000000000 } else { 0 };
        let bits: u64 = if q == 0x20000000000000 {
            sign + 1077 * 0x10000000000000
        } else {
            sign + 1076 * 0x10000000000000 + (q - 0x10000000000000)
        };
        return Some(Float64 { bits, text: t });
    }
    let digits = text::u64_to_string(m);
    let t = if neg && m > 0 { text::concat("-", digits.as_str()) } else { digits };
    let sign: u64 = if neg { 0x8000000000000000 } else { 0 };
    let bits: u64 = if m == 0 {
        0
    } else if m == 0x20000000000000 {
        sign + 1076 * 0x10000000000000
    } else {
        let mut mm: u64 = m;
        let mut k: u64 = 0;
        proof {
            vstd::arithmetic::power2::lemma2_to64();
            vstd::arithmetic::power2::lemma2_to64_rest();
        }
        while mm < 0x10000000000000
            invariant
                1 <= mm < 0x20000000000000,
                k <= 52,
                vstd::arithmetic::power2::pow2(k as nat) <= mm,
                vstd::arithmetic::power2::pow2(52) == 0x10000000000000,
                normalize(m as nat, 0) == normalize(mm as nat, k as nat),
            decreases 0x20000000000000 - mm,
        {
            proof {
                if k >= 52 {
                    if k > 52 {
                        vstd::arithmetic::power2::lemma_pow2_strictly_increases(52, k as nat);
                    }
                    assert(false);
                }
                vstd::arithmetic::power2::lemma_pow2_unfold((k + 1) as nat);
                assert(normalize(mm as nat, k as nat) == normalize((mm * 2) as nat, (k + 1) as nat));
            }
            mm = mm * 2;
            k = k + 1;
        }
        proof {
            assert(normalize(mm as nat, k as nat) == (mm as nat, k as nat));
        }
        sign + (1075 - k) * 0x10000000000000 + (mm - 0x10000000000000)
    };
    Some(Float64 { bits, text: t })
}

fn copy_opt_float(f: &Option<Float64>) -> (r: Option<Float64>)
    ensures
        opt_float_view(r) == opt_float_view(*f),
{
    match f {
        Some(x) => Some(x.copy()),
        None => None,
    }
}

impl JsonNumber {
    /// Copy of this number.
    pub fn copy(&self) -> (r: JsonNumber)
        ensures
            r@ == self@,
    {
        match self {
            JsonNumber::PosInt(u, f) => JsonNumber::PosInt(*u, copy_opt_float(f)),
            JsonNumber::NegInt(i, f) => JsonNumber::NegInt(*i, copy_opt_float(f)),
            JsonNumber::Float(f) => JsonNumber::Float(f.copy()),
        }
    }
}

impl JsonValue {
    /// Deep copy of this document.
    pub fn deep_clone(&self) -> (r: JsonValue)
        ensures
            r@ == self@,
        decreases self,
    {
        match self {
            JsonValue::Null => JsonValue::Null,
            JsonValue::Bool(b) => JsonValue::Bool(*b),
            JsonValue::Number(n) => JsonValue::Number(n.copy()),
            JsonValue::Str(s) => JsonValue::Str(s.clone()),
            JsonValue::Array(v) => {
                let mut out: Vec<JsonValue> = Vec::new();
                let mut i: usize = 0;
                while i < v.len()
                    invariant
                        i <= v@.len(),
                        out@.len() == i,
                        forall|k: int| 0 <= k < i ==> json_view(#[trigger] out@[k]) == json_view(v@[k]),
                        *self is Array && self->Array_0 == *v,
                    decreases v.len() - i,
                {
                    assert(decreases_to!(*self => self->Array_0));
                    assert(decreases_to!(self->Array_0 => self->Array_0@));
                    assert(decreases_to!(self->Array_0@ => self->Array_0@[i as int]));
                    assert(decreases_to!(*self => v@[i as int]));
                    let c = v[i].deep_clone();
                    out.push(c);
                    i = i + 1;
                }
                proof {
                    lemma_array_view(out);
                    lemma_array_view(*v);
                    assert(values_view(out@) =~= values_view(v@));
                }
                JsonValue::Array(out)
            },
            JsonValue::Object(v) => {
                let mut out: Vec<(String, JsonValue)> = Vec::new();
                let mut i: usize = 0;
                while i < v.len()
                    invariant
                        i <= v@.len(),
                        out@.len() == i,
                        forall|k: int| 0 <= k < i ==> (#[trigger] out@[k]).0@ == v@[k].0@ && json_view(out@[k].1) == json_view(v@[k].1),
                        *self is Object && self->Object_0 == *v,
                    decreases v.len() - i,
                {
                    assert(decreases_to!(*self => self->Object_0));
                    assert(decreases_to!(self->Object_0 => self->Object_0@));
                    assert(decreases_to!(self->Object_0@ => self->Object_0@[i as int]));
                    assert(decreases_to!(self->Object_0@[i as int] => self->Object_0@[i as int].1));
                    assert(decreases_to!(*self => v@[i as int].1));
                    let c = v[i].1.deep_clone();
                    let k = v[i].0.clone();
                    out.push((k, c));
                    i = i + 1;
                }
                proof {
                    lemma_object_view(out);
                    lemma_object_view(*v);
                    assert(entries_view(out@) =~= entries_view(v@));
                }
                JsonValue::Object(out)
            },
        }
    }

    /// `Value::get(key)`.
    pub fn get(&self, key: &str) -> (r: Option<&JsonValue>)
        ensures
            match r {
                Some(x) => get(self@, key@) == Some(x@),
                None => get(self@, key@) is None,
            },
    {
        match self {
            JsonValue::Object(v) => {
                proof {
                    lemma_object_view(*v);
                }
                entries_get(v, key)
            },
            _ => None,
        }
    }

    /// `Value::as_str`.
    pub fn as_str(&self) -> (r: Option<&str>)
        ensures
            match r {
                Some(s) => as_str(Some(self@)) == Some(s@),
                None => as_str(Some(self@)) is None,
            },
    {
        match self {
            JsonValue::Str(s) => Some(s.as_str()),
            _ => None,
        }
    }

    /// `Value::as_bool`.
    pub fn as_bool(&self) -> (r: Option<bool>)
        ensures
            r == as_bool(Some(self@)),
    {
        match self {
            JsonValue::Bool(b) => Some(*b),
            _ => None,
        }
    }

    /// `Value::as_u64`.
    pub fn as_u64(&self) -> (r: Option<u64>)
        ensures
            r == as_u64(Some(self@)),
    {
        match self {
            JsonValue::Number(JsonNumber::PosInt(u, _)) => Some(*u),
            _ => None,
        }
    }

    /// `Value::as_f64`.
    pub fn as_f64(&self) -> (r: Option<Float64>)
        ensures
            opt_float_view(r) == as_f64(Some(self@)),
    {
        match self {
            JsonValue::Number(JsonNumber::PosInt(n, f)) => match f {
                Some(x) => Some(x.copy()),
                None => int_float(false, *n),
            },
            JsonValue::Number(JsonNumber::NegInt(i, f)) => match f {
                Some(x) => Some(x.copy()),
                None => if *i < 0 {
                    int_float(true, (0 - (*i as i128)) as u64)
                } else {
                    int_float(false, *i as u64)
                },
            },
            JsonValue::Number(JsonNumber::Float(f)) => Some(f.copy()),
            _ => None,
        }
    }

    /// `Value::as_array`.
    pub fn as_array(&self) -> (r: Option<&Vec<JsonValue>>)
        ensures
            match r {
                Some(a) => as_array(Some(self@)) == Some(values_view(a@)),
                None => as_array(Some(self@)) is None,
            },
    {
        match self {
            JsonValue::Array(a) => {
                proof {
                    lemma_array_view(*a);
                }
                Some(a)
            },
            _ => None,
        }
    }

    /// A string document.
    pub fn str(s: &str) -> (r: JsonValue)
        ensures
            r@ == JsonView::Str(s@),
    {
        JsonValue::Str(text::owned(s))
    }

    /// A non-negative integer document.
    pub fn uint(n: u64) -> (r: JsonValue)
        ensures
            r@ == JsonView::Number(NumberView::PosInt(n, None)),
    {
        JsonValue::Number(JsonNumber::PosInt(n, None))
    }

    /// An integer document (negative values become `NegInt`, as JSON numbers do).
    pub fn integer(n: i64) -> (r: JsonValue)
        ensures
            r@ == JsonView::Number(if n >= 0 { NumberView::PosInt(n as u64, None) } else { NumberView::NegInt(n, None) }),
    {
        if n >= 0 {
            JsonValue::Number(JsonNumber::PosInt(n as u64, None))
        } else {
            JsonValue::Number(JsonNumber::NegInt(n, None))
        }
    }

    /// A float document.
    pub fn float(f: Float64) -> (r: JsonValue)
        ensures
            r@ == JsonView::Number(NumberView::Float(f@)),
    {
        JsonValue::Number(JsonNumber::Float(f))
    }

    /// An array document.
    pub fn array(v: Vec<JsonValue>) -> (r: JsonValue)
        ensures
            r@ == JsonView::Array(values_view(v@)),
    {
        proof {
            lemma_array_view(v);
        }
        JsonValue::Array(v)
    }

    /// An object document.
    pub fn object(v: Vec<(String, JsonValue)>) -> (r: JsonValue)
        ensures
            r@ == JsonView::Object(entries_view(v@)),
    {
        proof {
            lemma_object_view(v);
        }
        JsonValue::Object(v)
    }

    /// An array of strings.
    pub fn str_array(v: &Vec<String>) -> (r: JsonValue)
        ensures
            r@ == JsonView::Array(Seq::new(v@.len(), |i: int| JsonView::Str(v@[i]@))),
    {
        let mut out: Vec<JsonValue> = Vec::new();
        let mut i: usize = 0;
        while i < v.len()
            invariant
                i <= v@.len(),
                out@.len() == i,
                forall|k: int| 0 <= k < i ==> json_view(#[trigger] out@[k]) == JsonView::Str(v@[k]@),
            decreases v.len() - i,
        {
            out.push(JsonValue::Str(v[i].clone()));
            i = i + 1;
        }
        proof {
            lemma_array_view(out);
            assert(values_view(out@) =~= Seq::new(v@.len(), |i: int| JsonView::Str(v@[i]@)));
        }
        JsonValue::Array(out)
    }
}

/// First value stored under `key` in a list of entries.
pub fn entries_get<'a>(v: &'a Vec<(String, JsonValue)>, key: &str) -> (r: Option<&'a JsonValue>)
    ensures
        match r {
            Some(x) => lookup(entries_view(v@), key@) == Some(x@),
            None => lookup(entries_view(v@), key@) is None,
        },
{
    let mut i: usize = 0;
    while i < v.len()
        invariant
            i <= v@.len(),
            forall|j: int| 0 <= j < i ==> v@[j].0@ != key@,
        decreases v.len() - i,
    {
        if text::eq(v[i].0.as_str(), key) {
            proof {
                lemma_lookup_first(entries_view(v@), key@, i as int);
            }
            return Some(&v[i].1);
        }
        i = i + 1;
    }
    proof {
        lemma_lookup_none(entries_view(v@), key@);
    }
    None
}

/// Whether an entry list holds `key`.
pub fn entries_contains(v: &Vec<(String, JsonValue)>, key: &str) -> (r: bool)
    ensures
        r == (lookup(entries_view(v@), key@) is Some),
{
    match entries_get(v, key) {
        Some(_) => true,
        None => false,
    }
}

/// Appends an entry.
pub fn push_entry(v: &mut Vec<(String, JsonValue)>, key: &str, val: JsonValue)
    ensures
        entries_view(final(v)@) == entries_view(old(v)@).push((key@, val@)),
{
    v.push((text::owned(key), val));
    proof {
        assert(entries_view(v@) =~= entries_view(old(v)@).push((key@, val@)));
    }
}

/// Index of the first entry stored under `key`.
pub fn find_entry(v: &Vec<(String, JsonValue)>, key: &str) -> (r: Option<usize>)
    ensures
        match r {
            Some(i) => i < v@.len() && v@[i as int].0@ == key@ && forall|j: int| 0 <= j < i ==> v@[j].0@ != key@,
            None => forall|j: int| 0 <= j < v@.len() ==> v@[j].0@ != key@,
        },
{
    let mut i: usize = 0;
    while i < v.len()
        invariant
            i <= v@.len(),
            forall|j: int| 0 <= j < i ==> v@[j].0@ != key@,
        decreases v.len() - i,
    {
        if text::eq(v[i].0.as_str(), key) {
            return Some(i);
        }
        i = i + 1;
    }
    None
}

/// Stores `val` under `key`: replaces the first entry with that key, or appends one.
pub fn put_entry(v: &mut Vec<(String, JsonValue)>, key: &str, val: JsonValue)
    ensures
        entries_view(final(v)@) == put(entries_view(old(v)@), key@, val@),
{
    let ghost e = entries_view(v@);
    let ghost vv = val@;
    match find_entry(v, key) {
        Some(i) => {
            v.set(i, (text::owned(key), val));
            proof {
                assert(e[i as int].0 == key@);
                assert(forall|j: int| 0 <= j < i ==> e[j].0 != key@);
                let w = choose|w: int| 0 <= w < e.len() && e[w].0 == key@ && forall|j: int| 0 <= j < w ==> e[j].0 != key@;
                if w < i {
                    assert(e[w].0 != key@);
                } else if w > i {
                    assert(e[i as int].0 != key@);
                }
                assert(entries_view(v@) =~= e.update(i as int, (key@, vv)));
            }
        },
        None => {
            v.push((text::owned(key), val));
            proof {
                assert(forall|j: int| 0 <= j < e.len() ==> e[j].0 != key@);
                assert(entries_view(v@) =~= e.push((key@, vv)));
            }
        },
    }
}

/// Deep copy of an entry list.
pub fn clone_entries(v: &Vec<(String, JsonValue)>) -> (r: Vec<(String, JsonValue)>)
    ensures
        entries_view(r@) == entries_view(v@),
{
    let mut out: Vec<(String, JsonValue)> = Vec::new();
    let mut i: usize = 0;
    while i < v.len()
        invariant
            i <= v@.len(),
            out@.len() == i,
            forall|k: int| 0 <= k < i ==> (#[trigger] out@[k]).0@ == v@[k].0@ && json_view(out@[k].1) == json_view(v@[k].1),
        decreases v.len() - i,
    {
        out.push((v[i].0.clone(), v[i].1.deep_clone()));
        i = i + 1;
    }
    proof {
        assert(entries_view(out@) =~= entries_view(v@));
    }
    out
}

} // verus!
