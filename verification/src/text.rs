//! Character-level string operations with exact specifications over `Seq<char>`.

use vstd::prelude::*;

verus! {

broadcast use vstd::string::group_string_axioms;

// ---------------------------------------------------------------------------
// Specifications
// ---------------------------------------------------------------------------

/// ASCII lower-casing of one character (non-ASCII letters are unchanged).
pub open spec fn lower_char(c: char) -> char {
    if 'A' <= c && c <= 'Z' {
        ((c as u32) + 32) as char
    } else {
        c
    }
}

/// ASCII lower-casing of a whole string.
pub open spec fn lower(s: Seq<char>) -> Seq<char> {
    s.map_values(|c: char| lower_char(c))
}

/// ASCII upper-casing of one character.
pub open spec fn upper_char(c: char) -> char {
    if 'a' <= c && c <= 'z' {
        ((c as u32) - 32) as char
    } else {
        c
    }
}

/// ASCII upper-casing of a whole string.
pub open spec fn upper(s: Seq<char>) -> Seq<char> {
    s.map_values(|c: char| upper_char(c))
}

/// Lower-casing twice is lower-casing once, and lower-casing forgets an
/// earlier upper-casing.
pub proof fn lemma_lower_forgets_case(s: Seq<char>)
    ensures
        lower(lower(s)) == lower(s),
        lower(upper(s)) == lower(s),
{
    assert forall|i: int| 0 <= i < s.len() implies #[trigger] lower_char(lower_char(s[i])) == lower_char(s[i]) by {
        let c = s[i];
        if 'A' <= c && c <= 'Z' {
            assert((((c as u32) + 32) as char) as u32 == (c as u32) + 32);
        }
    }
    assert forall|i: int| 0 <= i < s.len() implies #[trigger] lower_char(upper_char(s[i])) == lower_char(s[i]) by {
        let c = s[i];
        if 'a' <= c && c <= 'z' {
            assert((((c as u32) - 32) as char) as u32 == (c as u32) - 32);
        }
    }
    assert(lower(lower(s)) =~= lower(s));
    assert(lower(upper(s)) =~= lower(s));
}

/// `needle` occurs in `s` starting at index `i`.
pub open spec fn occurs_at(s: Seq<char>, needle: Seq<char>, i: int) -> bool {
    0 <= i && i + needle.len() <= s.len() && s.subrange(i, i + needle.len()) == needle
}

/// `needle` is a substring of `s`.
pub open spec fn has_sub(s: Seq<char>, needle: Seq<char>) -> bool {
    exists|i: int| occurs_at(s, needle, i)
}

pub open spec fn is_prefix(p: Seq<char>, s: Seq<char>) -> bool {
    p.len() <= s.len() && s.subrange(0, p.len() as int) == p
}

pub open spec fn is_suffix(p: Seq<char>, s: Seq<char>) -> bool {
    p.len() <= s.len() && s.subrange(s.len() - p.len(), s.len() as int) == p
}

/// Unicode `White_Space` (the characters `char::is_whitespace` accepts).
pub open spec fn is_ws(c: char) -> bool {
    ||| ('\u{9}' <= c && c <= '\u{d}')
    ||| c == ' '
    ||| c == '\u{85}'
    ||| c == '\u{a0}'
    ||| c == '\u{1680}'
    ||| ('\u{2000}' <= c && c <= '\u{200a}')
    ||| c == '\u{2028}'
    ||| c == '\u{2029}'
    ||| c == '\u{202f}'
    ||| c == '\u{205f}'
    ||| c == '\u{3000}'
}

/// Number of leading characters of `s` that satisfy `is_ws`.
pub open spec fn ws_prefix_len(s: Seq<char>) -> nat
    decreases s.len(),
{
    if s.len() > 0 && is_ws(s[0]) {
        1 + ws_prefix_len(s.drop_first())
    } else {
        0
    }
}

/// Number of trailing characters of `s` that satisfy `is_ws`.
pub open spec fn ws_suffix_len(s: Seq<char>) -> nat
    decreases s.len(),
{
    if s.len() > 0 && is_ws(s.last()) {
        1 + ws_suffix_len(s.drop_last())
    } else {
        0
    }
}

/// `str::trim`: strip leading and trailing whitespace.
pub open spec fn trimmed(s: Seq<char>) -> Seq<char> {
    let t = s.skip(ws_prefix_len(s) as int);
    t.take(t.len() - ws_suffix_len(t))
}

/// `str::trim_end_matches(c)` for a single character.
pub open spec fn trim_end_char(s: Seq<char>, c: char) -> Seq<char>
    decreases s.len(),
{
    if s.len() > 0 && s.last() == c {
        trim_end_char(s.drop_last(), c)
    } else {
        s
    }
}

/// `str::trim_start_matches(p)` for a pattern string (an empty pattern trims nothing).
pub open spec fn trim_start_str(s: Seq<char>, p: Seq<char>) -> Seq<char>
    decreases s.len(),
{
    if p.len() > 0 && is_prefix(p, s) {
        trim_start_str(s.skip(p.len() as int), p)
    } else {
        s
    }
}

/// Index of the first occurrence of `c` in `s`, if any.
pub open spec fn first_index(s: Seq<char>, c: char) -> Option<int> {
    if exists|i: int| 0 <= i < s.len() && s[i] == c {
        Some(choose|i: int| 0 <= i < s.len() && s[i] == c && forall|j: int| 0 <= j < i ==> s[j] != c)
    } else {
        None
    }
}

/// Index of the last occurrence of `c` in `s`, if any.
pub open spec fn last_index(s: Seq<char>, c: char) -> Option<int> {
    if exists|i: int| 0 <= i < s.len() && s[i] == c {
        Some(choose|i: int| 0 <= i < s.len() && s[i] == c && forall|j: int| i < j < s.len() ==> s[j] != c)
    } else {
        None
    }
}

/// Index of the first occurrence of `needle` in `s`, if any.
pub open spec fn first_occurrence(s: Seq<char>, needle: Seq<char>) -> Option<int> {
    if has_sub(s, needle) {
        Some(choose|i: int| occurs_at(s, needle, i) && forall|j: int| 0 <= j < i ==> !occurs_at(s, needle, j))
    } else {
        None
    }
}

/// Lexicographic order on strings by code point (the order of `str::cmp`).
pub open spec fn seq_lt(a: Seq<char>, b: Seq<char>) -> bool
    decreases a.len(),
{
    if a.len() == 0 {
        b.len() > 0
    } else if b.len() == 0 {
        false
    } else if a[0] != b[0] {
        a[0] < b[0]
    } else {
        seq_lt(a.drop_first(), b.drop_first())
    }
}

/// ASCII case-insensitive equality (`str::eq_ignore_ascii_case`).
pub open spec fn eq_ignore_case(a: Seq<char>, b: Seq<char>) -> bool {
    lower(a) == lower(b)
}

/// Decimal rendering of a natural number (no sign, no leading zeros).
pub open spec fn dec(n: nat) -> Seq<char>
    decreases n,
{
    if n < 10 {
        seq![digit_char(n)]
    } else {
        dec(n / 10).push(digit_char(n % 10))
    }
}

pub open spec fn digit_char(d: nat) -> char {
    if d < 10 { ((d + 48) as u32) as char } else { '?' }
}

/// Decimal rendering of an integer (as `Display` prints it).
pub open spec fn dec_int(i: int) -> Seq<char> {
    if i < 0 { seq!['-'] + dec((-i) as nat) } else { dec(i as nat) }
}

/// Lower-case hexadecimal rendering (as `{:x}` prints it).
pub open spec fn hex(n: nat) -> Seq<char>
    decreases n,
{
    if n < 16 {
        seq![hex_char(n, false)]
    } else {
        hex(n / 16).push(hex_char(n % 16, false))
    }
}

/// Upper-case hexadecimal rendering (as `{:X}` prints it).
pub open spec fn hex_upper(n: nat) -> Seq<char>
    decreases n,
{
    if n < 16 {
        seq![hex_char(n, true)]
    } else {
        hex_upper(n / 16).push(hex_char(n % 16, true))
    }
}

pub open spec fn hex_char(d: nat, upper: bool) -> char {
    if d < 10 {
        ((d + 48) as u32) as char
    } else if d < 16 {
        if upper { ((d + 55) as u32) as char } else { ((d + 87) as u32) as char }
    } else {
        '?'
    }
}

/// Left-pad with `'0'` to at least `width` characters (as `{:0width$}` does).
pub open spec fn zero_pad(s: Seq<char>, width: nat) -> Seq<char> {
    if s.len() >= width { s } else { Seq::new((width - s.len()) as nat, |i: int| '0') + s }
}

/// Decimal digit string accepted by `str::parse::<uN>()`: optional `+`, then one or more ASCII digits.
pub open spec fn is_digit(c: char) -> bool {
    '0' <= c && c <= '9'
}

pub open spec fn digits_value(s: Seq<char>) -> nat
    decreases s.len(),
{
    if s.len() == 0 {
        0
    } else {
        digits_value(s.drop_last()) * 10 + ((s.last() as u32) - 48) as nat
    }
}

pub open spec fn unsigned_body(s: Seq<char>) -> Seq<char> {
    if s.len() > 0 && s[0] == '+' { s.drop_first() } else { s }
}

/// `s` parses as an unsigned integer (any size) with value `digits_value(unsigned_body(s))`.
pub open spec fn is_unsigned_text(s: Seq<char>) -> bool {
    let b = unsigned_body(s);
    b.len() > 0 && forall|i: int| 0 <= i < b.len() ==> is_digit(b[i])
}

/// Result of `s.parse::<T>()` for an unsigned type whose maximum is `max`.
pub open spec fn parse_unsigned(s: Seq<char>, max: nat) -> Option<nat> {
    if is_unsigned_text(s) && digits_value(unsigned_body(s)) <= max {
        Some(digits_value(unsigned_body(s)))
    } else {
        None
    }
}

/// Pieces of `s` separated by `sep` (as `str::split(char)` yields them).
#[verifier::opaque]
pub open spec fn split_pieces(s: Seq<char>, sep: char) -> Seq<Seq<char>>
    decreases s.len(),
{
    match first_index(s, sep) {
        None => seq![s],
        Some(i) => if 0 <= i < s.len() {
            seq![s.take(i)] + split_pieces(s.skip(i + 1), sep)
        } else {
            seq![s]
        },
    }
}

/// `s.trim().to_ascii_lowercase()` is one of `1`, `true`, `yes`, `on`.
pub open spec fn is_truthy(s: Seq<char>) -> bool {
    let t = lower(trimmed(s));
    t == "1"@ || t == "true"@ || t == "yes"@ || t == "on"@
}

// ---------------------------------------------------------------------------
// Trusted bridge to `String::push` (std; vstd does not specify it)
// ---------------------------------------------------------------------------

/// `String::push`: appends one character.
#[verifier::external_body]
pub(crate) fn push_char(s: &mut String, c: char)
    ensures
        final(s)@ == old(s)@.push(c),
{
    s.push(c);
}

/// `str::to_uppercase`: full Unicode upper-casing. Its result is named by
/// [`spec_to_uppercase`]; no clause here says how each character maps.
#[verifier::external_body]
pub(crate) fn to_uppercase(s: &str) -> (r: String)
    ensures
        r@ == spec_to_uppercase(s@),
{
    s.to_uppercase()
}

/// What `str::to_uppercase` returns for a given string.
pub uninterp spec fn spec_to_uppercase(s: Seq<char>) -> Seq<char>;

/// `str::to_lowercase`: full Unicode lower-casing. Its result is named by
/// [`spec_to_lowercase`]; no clause here says how each character maps.
#[verifier::external_body]
pub(crate) fn to_lowercase(s: &str) -> (r: String)
    ensures
        r@ == spec_to_lowercase(s@),
{
    s.to_lowercase()
}

/// What `str::to_lowercase` returns for a given string.
pub uninterp spec fn spec_to_lowercase(s: Seq<char>) -> Seq<char>;

// ---------------------------------------------------------------------------
// Executable operations
// ---------------------------------------------------------------------------

/// The characters of `s`.
pub fn chars_of(s: &str) -> (v: Vec<char>)
    ensures
        v@ == s@,
{
    let mut v: Vec<char> = Vec::new();
    for c in it: s.chars()
        invariant
            v@ == it.seq().take(it.index() as int),
    {
        v.push(c);
    }
    v
}

/// Number of characters of `s`.
pub fn char_count(s: &str) -> (r: usize)
    ensures
        r == s@.len(),
{
    s.unicode_len()
}

/// `s` has no characters.
pub fn is_empty(s: &str) -> (r: bool)
    ensures
        r == (s@.len() == 0),
{
    s.unicode_len() == 0
}

/// A `String` holding exactly the given characters.
pub fn from_chars(v: &[char]) -> (s: String)
    ensures
        s@ == v@,
{
    let mut s = String::new();
    let mut i: usize = 0;
    while i < v.len()
        invariant
            i <= v@.len(),
            s@ == v@.take(i as int),
        decreases v.len() - i,
    {
        push_char(&mut s, v[i]);
        proof {
            assert(v@.take(i as int).push(v@[i as int]) =~= v@.take(i + 1));
        }
        i = i + 1;
    }
    proof {
        assert(v@.take(v@.len() as int) =~= v@);
    }
    s
}

/// Owned copy of a string slice.
pub fn owned(s: &str) -> (r: String)
    ensures
        r@ == s@,
{
    s.to_string()
}

/// Appends `t` to `s`.
pub fn push_str(s: &mut String, t: &str)
    ensures
        final(s)@ == old(s)@ + t@,
{
    let v = chars_of(t);
    let ghost s0 = s@;
    let mut i: usize = 0;
    while i < v.len()
        invariant
            i <= v@.len(),
            v@ == t@,
            s@ == s0 + v@.take(i as int),
        decreases v.len() - i,
    {
        push_char(s, v[i]);
        proof {
            assert(v@.take(i as int).push(v@[i as int]) =~= v@.take(i + 1));
            assert(s0 + v@.take(i as int).push(v@[i as int]) =~= (s0 + v@.take(i as int)).push(v@[i as int]));
        }
        i = i + 1;
    }
    proof {
        assert(v@.take(v@.len() as int) =~= v@);
    }
}

/// Concatenation of two strings.
pub fn concat(a: &str, b: &str) -> (r: String)
    ensures
        r@ == a@ + b@,
{
    let mut r = owned(a);
    push_str(&mut r, b);
    r
}

/// Concatenation of three strings.
pub fn concat3(a: &str, b: &str, c: &str) -> (r: String)
    ensures
        r@ == a@ + b@ + c@,
{
    let mut r = owned(a);
    push_str(&mut r, b);
    push_str(&mut r, c);
    r
}

/// Equality of two strings.
pub fn eq(a: &str, b: &str) -> (r: bool)
    ensures
        r == (a@ == b@),
{
    let x = chars_of(a);
    let y = chars_of(b);
    seq_eq(&x, &y)
}

/// Equality of two character sequences.
pub fn seq_eq(x: &[char], y: &[char]) -> (r: bool)
    ensures
        r == (x@ == y@),
{
    if x.len() != y.len() {
        return false;
    }
    let mut i: usize = 0;
    while i < x.len()
        invariant
            i <= x@.len(),
            x@.len() == y@.len(),
            forall|j: int| 0 <= j < i ==> x@[j] == y@[j],
        decreases x.len() - i,
    {
        if x[i] != y[i] {
            return false;
        }
        i = i + 1;
    }
    proof {
        assert(x@ =~= y@);
    }
    true
}

/// `str::to_ascii_lowercase`.
pub fn to_ascii_lowercase(s: &str) -> (r: String)
    ensures
        r@ == lower(s@),
{
    let v = chars_of(s);
    let mut out: Vec<char> = Vec::new();
    let mut i: usize = 0;
    while i < v.len()
        invariant
            i <= v@.len(),
            v@ == s@,
            out@ == lower(v@.take(i as int)),
        decreases v.len() - i,
    {
        let c = v[i];
        let d = if 'A' <= c && c <= 'Z' {
            let u: u32 = c as u32 + 32;
            char_from_ascii(u)
        } else {
            c
        };
        out.push(d);
        proof {
            assert(lower(v@.take(i as int)).push(lower_char(v@[i as int])) =~= lower(v@.take(i + 1)));
        }
        i = i + 1;
    }
    proof {
        assert(v@.take(v@.len() as int) =~= v@);
    }
    from_chars(&out)
}

/// The ASCII character with code `u` (`u < 128`).
pub fn char_from_ascii(u: u32) -> (c: char)
    requires
        u < 128,
    ensures
        c == u as char,
        c as u32 == u,
{
    let b: u8 = u as u8;
    b as char
}

/// `needle` occurs in `s` at position `i` (executable).
fn occurs_at_exec(s: &[char], needle: &[char], i: usize) -> (r: bool)
    ensures
        r == occurs_at(s@, needle@, i as int),
{
    if needle.len() > s.len() || i > s.len() - needle.len() {
        return false;
    }
    let mut j: usize = 0;
    while j < needle.len()
        invariant
            j <= needle@.len(),
            i + needle@.len() <= s@.len(),
            s@.len() <= usize::MAX,
            forall|k: int| 0 <= k < j ==> s@[i + k] == needle@[k],
        decreases needle.len() - j,
    {
        if s[i + j] != needle[j] {
            proof {
                assert(s@.subrange(i as int, i + needle@.len())[j as int] != needle@[j as int]);
            }
            return false;
        }
        j = j + 1;
    }
    proof {
        assert(s@.subrange(i as int, i + needle@.len()) =~= needle@);
    }
    true
}

/// Position of the first occurrence of `needle` in `s` (over characters).
pub fn find_sub(s: &[char], needle: &[char]) -> (r: Option<usize>)
    ensures
        match r {
            Some(i) => first_occurrence(s@, needle@) == Some(i as int) && occurs_at(s@, needle@, i as int),
            None => first_occurrence(s@, needle@) is None,
        },
{
    let mut i: usize = 0;
    if needle.len() > s.len() {
        proof {
            assert forall|k: int| !occurs_at(s@, needle@, k) by {}
        }
        return None;
    }
    if needle.len() == 0 {
        proof {
            assert(s@.subrange(0, 0) =~= needle@);
            assert(occurs_at(s@, needle@, 0));
            let w = choose|w: int| occurs_at(s@, needle@, w) && forall|j: int| 0 <= j < w ==> !occurs_at(s@, needle@, j);
            if w > 0 {
                assert(!occurs_at(s@, needle@, 0));
            }
        }
        return Some(0);
    }
    let last = s.len() - needle.len();
    while i <= last
        invariant
            last == s@.len() - needle@.len(),
            last < s@.len(),
            s@.len() <= usize::MAX,
            i <= last + 1,
            forall|k: int| 0 <= k < i ==> !occurs_at(s@, needle@, k),
        decreases last + 1 - i,
    {
        if occurs_at_exec(s, needle, i) {
            proof {
                let w = choose|w: int| occurs_at(s@, needle@, w) && forall|j: int| 0 <= j < w ==> !occurs_at(s@, needle@, j);
                assert(occurs_at(s@, needle@, w));
                if w < i {
                } else if w > i {
                    assert(!occurs_at(s@, needle@, i as int));
                }
            }
            return Some(i);
        }
        i = i + 1;
    }
    proof {
        assert forall|k: int| !occurs_at(s@, needle@, k) by {
            if k > last {
                assert(k + needle@.len() > s@.len());
            }
        }
    }
    None
}

/// `str::contains(&str)`.
pub fn contains(s: &str, needle: &str) -> (r: bool)
    ensures
        r == has_sub(s@, needle@),
{
    let x = chars_of(s);
    let y = chars_of(needle);
    match find_sub(&x, &y) {
        Some(_) => true,
        None => false,
    }
}

/// `str::starts_with(&str)`.
pub fn starts_with(s: &str, prefix: &str) -> (r: bool)
    ensures
        r == is_prefix(prefix@, s@),
{
    let x = chars_of(s);
    let y = chars_of(prefix);
    if y.len() > x.len() {
        return false;
    }
    let r = occurs_at_exec(&x, &y, 0);
    proof {
        assert(x@.subrange(0, y@.len() as int) == x@.subrange(0int, 0int + y@.len()));
    }
    r
}

/// `str::ends_with(&str)`.
pub fn ends_with(s: &str, suffix: &str) -> (r: bool)
    ensures
        r == is_suffix(suffix@, s@),
{
    let x = chars_of(s);
    let y = chars_of(suffix);
    if y.len() > x.len() {
        return false;
    }
    occurs_at_exec(&x, &y, x.len() - y.len())
}

/// Sub-string of the characters `v[from..to]`.
pub fn slice_string(v: &[char], from: usize, to: usize) -> (r: String)
    requires
        from <= to <= v@.len(),
    ensures
        r@ == v@.subrange(from as int, to as int),
{
    let mut s = String::new();
    let mut i: usize = from;
    while i < to
        invariant
            from <= i <= to,
            to <= v@.len(),
            s@ == v@.subrange(from as int, i as int),
        decreases to - i,
    {
        push_char(&mut s, v[i]);
        proof {
            assert(v@.subrange(from as int, i as int).push(v@[i as int]) =~= v@.subrange(from as int, i + 1));
        }
        i = i + 1;
    }
    s
}

pub fn is_ws_char(c: char) -> (r: bool)
    ensures
        r == is_ws(c),
{
    ('\u{9}' <= c && c <= '\u{d}') || c == ' ' || c == '\u{85}' || c == '\u{a0}' || c == '\u{1680}'
        || ('\u{2000}' <= c && c <= '\u{200a}') || c == '\u{2028}' || c == '\u{2029}'
        || c == '\u{202f}' || c == '\u{205f}' || c == '\u{3000}'
}

proof fn lemma_ws_prefix(s: Seq<char>, i: int)
    requires
        0 <= i <= s.len(),
        forall|k: int| 0 <= k < i ==> is_ws(s[k]),
        i == s.len() || !is_ws(s[i]),
    ensures
        ws_prefix_len(s) == i,
    decreases i,
{
    if i > 0 {
        lemma_ws_prefix(s.drop_first(), i - 1);
    }
}

proof fn lemma_ws_suffix(s: Seq<char>, i: int)
    requires
        0 <= i <= s.len(),
        forall|k: int| s.len() - i <= k < s.len() ==> is_ws(s[k]),
        i == s.len() || !is_ws(s[s.len() - i - 1]),
    ensures
        ws_suffix_len(s) == i,
    decreases i,
{
    if i > 0 {
        assert forall|k: int| s.drop_last().len() - (i - 1) <= k < s.drop_last().len() implies is_ws(s.drop_last()[k]) by {
        }
        lemma_ws_suffix(s.drop_last(), i - 1);
    }
}

/// `str::trim`.
pub fn trim(s: &str) -> (r: String)
    ensures
        r@ == trimmed(s@),
{
    let v = chars_of(s);
    let mut a: usize = 0;
    while a < v.len() && is_ws_char(v[a])
        invariant
            a <= v@.len(),
            forall|k: int| 0 <= k < a ==> is_ws(v@[k]),
        decreases v.len() - a,
    {
        a = a + 1;
    }
    proof {
        lemma_ws_prefix(v@, a as int);
    }
    let mut b: usize = v.len();
    while b > a && is_ws_char(v[b - 1])
        invariant
            a <= b <= v@.len(),
            forall|k: int| b <= k < v@.len() ==> is_ws(v@[k]),
        decreases b,
    {
        b = b - 1;
    }
    proof {
        let t = v@.skip(a as int);
        assert forall|k: int| t.len() - (v@.len() - b) <= k < t.len() implies is_ws(t[k]) by {
        }
        if b > a {
            assert(t[t.len() - (v@.len() - b) - 1] == v@[b - 1]);
        }
        lemma_ws_suffix(t, (v@.len() - b) as int);
        assert(t.take(t.len() - ws_suffix_len(t)) =~= v@.subrange(a as int, b as int));
    }
    slice_string(&v, a, b)
}

/// `str::trim_end_matches(c)` for one character.
pub fn trim_end_matches(s: &str, c: char) -> (r: String)
    ensures
        r@ == trim_end_char(s@, c),
{
    let v = chars_of(s);
    let mut b: usize = v.len();
    proof {
        assert(v@.take(v@.len() as int) =~= v@);
    }
    while b > 0 && v[b - 1] == c
        invariant
            b <= v@.len(),
            trim_end_char(v@, c) == trim_end_char(v@.take(b as int), c),
        decreases b,
    {
        proof {
            assert(v@.take(b as int).drop_last() =~= v@.take(b - 1));
        }
        b = b - 1;
    }
    proof {
        assert(v@.take(b as int) =~= v@.subrange(0, b as int));
    }
    slice_string(&v, 0, b)
}

/// `str::trim_start_matches(p)`: strips leading repeats of `p` (none when `p` is empty).
pub fn trim_start_matches(s: &str, p: &str) -> (r: String)
    ensures
        r@ == trim_start_str(s@, p@),
{
    let v = chars_of(s);
    let w = chars_of(p);
    if w.len() == 0 {
        return owned(s);
    }
    let mut a: usize = 0;
    proof {
        assert(v@.skip(0) =~= v@);
    }
    while a <= v.len() && w.len() <= v.len() - a && occurs_at_exec(&v, &w, a)
        invariant
            a <= v@.len(),
            w@ == p@,
            w@.len() > 0,
            trim_start_str(v@, w@) == trim_start_str(v@.skip(a as int), w@),
        decreases v.len() - a,
    {
        proof {
            let t = v@.skip(a as int);
            assert(t.subrange(0, w@.len() as int) =~= v@.subrange(a as int, a + w@.len()));
            assert(t.skip(w@.len() as int) =~= v@.skip(a + w@.len()));
        }
        a = a + w.len();
    }
    proof {
        let t = v@.skip(a as int);
        if w@.len() <= t.len() {
            assert(t.subrange(0, w@.len() as int) =~= v@.subrange(a as int, a + w@.len()));
        }
        assert(t =~= v@.subrange(a as int, v@.len() as int));
    }
    slice_string(&v, a, v.len())
}

/// Position of the first `c` in `v`.
pub fn find_char(v: &[char], c: char) -> (r: Option<usize>)
    ensures
        match r {
            Some(i) => first_index(v@, c) == Some(i as int) && i < v@.len() && v@[i as int] == c
                && forall|j: int| 0 <= j < i ==> v@[j] != c,
            None => first_index(v@, c) is None && forall|j: int| 0 <= j < v@.len() ==> v@[j] != c,
        },
{
    let mut i: usize = 0;
    while i < v.len()
        invariant
            i <= v@.len(),
            forall|j: int| 0 <= j < i ==> v@[j] != c,
        decreases v.len() - i,
    {
        if v[i] == c {
            proof {
                let w = choose|w: int| 0 <= w < v@.len() && v@[w] == c && forall|j: int| 0 <= j < w ==> v@[j] != c;
                if w < i {
                } else if w > i {
                }
            }
            return Some(i);
        }
        i = i + 1;
    }
    None
}

/// Position of the last `c` in `v`.
pub fn rfind_char(v: &[char], c: char) -> (r: Option<usize>)
    ensures
        match r {
            Some(i) => last_index(v@, c) == Some(i as int) && i < v@.len() && v@[i as int] == c,
            None => last_index(v@, c) is None,
        },
{
    let mut i: usize = v.len();
    while i > 0
        invariant
            i <= v@.len(),
            forall|j: int| i <= j < v@.len() ==> v@[j] != c,
        decreases i,
    {
        if v[i - 1] == c {
            proof {
                let w = choose|w: int| 0 <= w < v@.len() && v@[w] == c && forall|j: int| w < j < v@.len() ==> v@[j] != c;
                if w < i - 1 {
                } else if w > i - 1 {
                }
            }
            return Some(i - 1);
        }
        i = i - 1;
    }
    None
}

/// `str::split_once(c)`: the parts before and after the first `c`.
pub fn split_once(s: &str, c: char) -> (r: Option<(String, String)>)
    ensures
        match first_index(s@, c) {
            Some(i) => r matches Some(p) && p.0@ == s@.take(i) && p.1@ == s@.skip(i + 1),
            None => r is None,
        },
{
    let v = chars_of(s);
    match find_char(&v, c) {
        Some(i) => {
            let n = v.len();
            assert(i < n);
            let a = slice_string(&v, 0, i);
            let b = slice_string(&v, i + 1, v.len());
            proof {
                assert(v@.subrange(0, i as int) =~= v@.take(i as int));
                assert(v@.subrange(i + 1, v@.len() as int) =~= v@.skip(i + 1));
            }
            Some((a, b))
        },
        None => None,
    }
}

/// Lexicographic comparison `a < b` by code point.
pub fn lt(a: &[char], b: &[char]) -> (r: bool)
    ensures
        r == seq_lt(a@, b@),
{
    let mut i: usize = 0;
    proof {
        assert(a@.skip(0) =~= a@);
        assert(b@.skip(0) =~= b@);
    }
    while i < a.len() && i < b.len() && a[i] == b[i]
        invariant
            i <= a@.len(),
            i <= b@.len(),
            seq_lt(a@, b@) == seq_lt(a@.skip(i as int), b@.skip(i as int)),
        decreases a.len() - i,
    {
        proof {
            assert(a@.skip(i as int).drop_first() =~= a@.skip(i + 1));
            assert(b@.skip(i as int).drop_first() =~= b@.skip(i + 1));
        }
        i = i + 1;
    }
    if i == a.len() {
        i < b.len()
    } else if i == b.len() {
        false
    } else {
        a[i] < b[i]
    }
}

/// Lexicographic comparison of two strings.
pub fn str_lt(a: &str, b: &str) -> (r: bool)
    ensures
        r == seq_lt(a@, b@),
{
    let x = chars_of(a);
    let y = chars_of(b);
    lt(&x, &y)
}

/// `str::eq_ignore_ascii_case`.
pub fn eq_ignore_ascii_case(a: &str, b: &str) -> (r: bool)
    ensures
        r == eq_ignore_case(a@, b@),
{
    let x = to_ascii_lowercase(a);
    let y = to_ascii_lowercase(b);
    eq(x.as_str(), y.as_str())
}

/// Truthy flag value: `1`, `true`, `yes` or `on` after trimming, ASCII case-insensitively.
pub fn truthy(s: &str) -> (r: bool)
    ensures
        r == is_truthy(s@),
{
    let t = trim(s);
    let l = to_ascii_lowercase(t.as_str());
    eq(l.as_str(), "1") || eq(l.as_str(), "true") || eq(l.as_str(), "yes") || eq(l.as_str(), "on")
}


fn digit_exec(d: u64, upper: bool) -> (c: char)
    requires
        d < 16,
    ensures
        c == hex_char(d as nat, upper),
{
    if d < 10 {
        char_from_ascii((d + 48) as u32)
    } else if upper {
        char_from_ascii((d + 55) as u32)
    } else {
        char_from_ascii((d + 87) as u32)
    }
}

fn dec_chars(n: u64) -> (v: Vec<char>)
    ensures
        v@ == dec(n as nat),
    decreases n,
{
    if n < 10 {
        let mut v = Vec::new();
        v.push(digit_exec(n, false));
        v
    } else {
        let mut v = dec_chars(n / 10);
        v.push(digit_exec(n % 10, false));
        v
    }
}

/// Decimal rendering of an unsigned integer (`u64::to_string`).
pub fn u64_to_string(n: u64) -> (r: String)
    ensures
        r@ == dec(n as nat),
{
    let v = dec_chars(n);
    from_chars(&v)
}

fn dec_chars_wide(n: u128) -> (v: Vec<char>)
    ensures
        v@ == dec(n as nat),
    decreases n,
{
    if n < 10 {
        let mut v = Vec::new();
        v.push(digit_exec(n as u64, false));
        v
    } else {
        let mut v = dec_chars_wide(n / 10);
        v.push(digit_exec((n % 10) as u64, false));
        v
    }
}

/// Decimal rendering of a `u128` (`u128::to_string`).
pub fn u128_to_string(n: u128) -> (r: String)
    ensures
        r@ == dec(n as nat),
{
    let v = dec_chars_wide(n);
    from_chars(&v)
}

/// Decimal rendering of a signed integer (`i64::to_string`).
pub fn i64_to_string(n: i64) -> (r: String)
    ensures
        r@ == dec_int(n as int),
{
    if n < 0 {
        let m: u64 = if n == i64::MIN { 9223372036854775808u64 } else { (-n) as u64 };
        let mut r = String::new();
        push_char(&mut r, '-');
        let d = u64_to_string(m);
        push_str(&mut r, d.as_str());
        r
    } else {
        u64_to_string(n as u64)
    }
}

fn hex_chars(n: u128, upper: bool) -> (v: Vec<char>)
    ensures
        v@ == (if upper { hex_upper(n as nat) } else { hex(n as nat) }),
    decreases n,
{
    if n < 16 {
        let mut v = Vec::new();
        v.push(digit_exec(n as u64, upper));
        v
    } else {
        let mut v = hex_chars(n / 16, upper);
        v.push(digit_exec((n % 16) as u64, upper));
        v
    }
}

/// Lower-case hexadecimal rendering (`format!("{:x}", n)`).
pub fn to_hex(n: u128) -> (r: String)
    ensures
        r@ == hex(n as nat),
{
    let v = hex_chars(n, false);
    from_chars(&v)
}

/// Upper-case hexadecimal rendering, zero-padded to `width` (`format!("{:0width$X}", n)`).
pub fn to_hex_upper_padded(n: u128, width: usize) -> (r: String)
    ensures
        r@ == zero_pad(hex_upper(n as nat), width as nat),
{
    let v = hex_chars(n, true);
    let mut r = String::new();
    if v.len() < width {
        let mut k: usize = 0;
        let pad = width - v.len();
        while k < pad
            invariant
                k <= pad,
                r@ == Seq::new(k as nat, |i: int| '0'),
            decreases pad - k,
        {
            push_char(&mut r, '0');
            proof {
                assert(Seq::new(k as nat, |i: int| '0').push('0') =~= Seq::new((k + 1) as nat, |i: int| '0'));
            }
            k = k + 1;
        }
    }
    let t = from_chars(&v);
    push_str(&mut r, t.as_str());
    proof {
        if v@.len() >= width {
            assert(r@ =~= v@);
        }
    }
    r
}

/// Lower-case hexadecimal rendering, zero-padded to `width` (`format!("{:0width$x}", n)`).
pub fn to_hex_padded(n: u128, width: usize) -> (r: String)
    ensures
        r@ == zero_pad(hex(n as nat), width as nat),
{
    let v = hex_chars(n, false);
    let mut r = String::new();
    if v.len() < width {
        let mut k: usize = 0;
        let pad = width - v.len();
        while k < pad
            invariant
                k <= pad,
                r@ == Seq::new(k as nat, |i: int| '0'),
            decreases pad - k,
        {
            push_char(&mut r, '0');
            proof {
                assert(Seq::new(k as nat, |i: int| '0').push('0') =~= Seq::new((k + 1) as nat, |i: int| '0'));
            }
            k = k + 1;
        }
    }
    let t = from_chars(&v);
    push_str(&mut r, t.as_str());
    proof {
        if v@.len() >= width {
            assert(r@ =~= v@);
        }
    }
    r
}

proof fn lemma_digits_monotone(b: Seq<char>, k: int)
    requires
        0 <= k <= b.len(),
        forall|i: int| 0 <= i < b.len() ==> is_digit(b[i]),
    ensures
        digits_value(b.take(k)) <= digits_value(b),
    decreases b.len() - k,
{
    if k < b.len() {
        lemma_digits_monotone(b, k + 1);
        assert(b.take(k + 1).drop_last() =~= b.take(k));
    } else {
        assert(b.take(k) =~= b);
    }
}

/// `s.parse::<T>()` for an unsigned integer type whose maximum is `max`.
pub fn parse_unsigned_exec(s: &str, max: u64) -> (r: Option<u64>)
    ensures
        match parse_unsigned(s@, max as nat) {
            Some(v) => r == Some(v as u64),
            None => r is None,
        },
{
    let v = chars_of(s);
    let start: usize = if v.len() > 0 && v[0] == '+' { 1 } else { 0 };
    let ghost b = unsigned_body(s@);
    proof {
        assert(b =~= v@.skip(start as int));
    }
    if start >= v.len() {
        return None;
    }
    let mut acc: u64 = 0;
    let mut i: usize = start;
    while i < v.len()
        invariant
            start <= i <= v@.len(),
            start <= 1,
            b == v@.skip(start as int),
            b == unsigned_body(s@),
            v@ == s@,
            acc as nat == digits_value(b.take(i - start)),
            acc <= max,
            forall|k: int| 0 <= k < i - start ==> is_digit(b[k]),
        decreases v.len() - i,
    {
        let c = v[i];
        if !('0' <= c && c <= '9') {
            proof {
                assert(b[i - start] == c);
                assert(!is_digit(b[i - start]));
                assert(b == unsigned_body(s@));
                assert(0 <= i - start < b.len());
                assert(!is_unsigned_text(s@));
            }
            return None;
        }
        let d: u64 = (c as u32 - 48) as u64;
        proof {
            assert(b.take(i - start + 1).drop_last() =~= b.take(i - start));
            assert(b.take(i - start + 1).last() == c);
        }
        if d > max || acc > (max - d) / 10 {
            proof {
                if d <= max {
                    assert(acc * 10 + d > max) by (nonlinear_arith)
                        requires acc > (max - d) / 10, d <= max;
                }
                assert(digits_value(b.take(i - start + 1)) == acc * 10 + d);
                if forall|k: int| 0 <= k < b.len() ==> is_digit(b[k]) {
                    lemma_digits_monotone(b, i - start + 1);
                }
            }
            return None;
        }
        acc = acc * 10 + d;
        i = i + 1;
    }
    proof {
        assert(b.take(i - start) =~= b);
    }
    Some(acc)
}


// ---------------------------------------------------------------------------
// Order facts about `seq_lt`
// ---------------------------------------------------------------------------

pub proof fn lemma_lt_irreflexive(a: Seq<char>)
    ensures
        !seq_lt(a, a),
    decreases a.len(),
{
    if a.len() > 0 {
        lemma_lt_irreflexive(a.drop_first());
    }
}

pub proof fn lemma_lt_transitive(a: Seq<char>, b: Seq<char>, c: Seq<char>)
    requires
        seq_lt(a, b),
        seq_lt(b, c),
    ensures
        seq_lt(a, c),
    decreases a.len(),
{
    if a.len() > 0 && b.len() > 0 && c.len() > 0 {
        if a[0] == b[0] && b[0] == c[0] {
            lemma_lt_transitive(a.drop_first(), b.drop_first(), c.drop_first());
        }
    }
}

pub proof fn lemma_lt_total(a: Seq<char>, b: Seq<char>)
    requires
        a != b,
    ensures
        seq_lt(a, b) || seq_lt(b, a),
    decreases a.len(),
{
    if a.len() > 0 && b.len() > 0 {
        if a[0] == b[0] {
            if a.drop_first() == b.drop_first() {
                assert(a =~= seq![a[0]] + a.drop_first());
                assert(b =~= seq![b[0]] + b.drop_first());
            }
            lemma_lt_total(a.drop_first(), b.drop_first());
        } else {
        }
    } else if a.len() == 0 && b.len() == 0 {
        assert(a =~= b);
    }
}

pub proof fn lemma_lt_asymmetric(a: Seq<char>, b: Seq<char>)
    requires
        seq_lt(a, b),
    ensures
        !seq_lt(b, a),
{
    if seq_lt(b, a) {
        lemma_lt_transitive(a, b, a);
        lemma_lt_irreflexive(a);
    }
}


/// View of a list of strings.
pub open spec fn strings_view(v: Seq<String>) -> Seq<Seq<char>> {
    v.map_values(|x: String| x@)
}

proof fn lemma_split_some(t: Seq<char>, c: char, i: int)
    requires
        first_index(t, c) == Some(i),
        0 <= i < t.len(),
    ensures
        split_pieces(t, c) == seq![t.take(i)] + split_pieces(t.skip(i + 1), c),
{
    reveal(split_pieces);
}

proof fn lemma_split_none(t: Seq<char>, c: char)
    requires
        first_index(t, c) is None,
    ensures
        split_pieces(t, c) == seq![t],
{
    reveal(split_pieces);
}

proof fn lemma_strings_push(o: Seq<String>, n: Seq<String>, x: String)
    requires
        n == o.push(x),
    ensures
        strings_view(n) == strings_view(o).push(x@),
{
    assert(strings_view(n) =~= strings_view(o).push(x@));
}

/// `s.split(c)`, collected.
pub fn split_char(s: &str, c: char) -> (r: Vec<String>)
    ensures
        strings_view(r@) == split_pieces(s@, c),
{
    let v = chars_of(s);
    let mut out: Vec<String> = Vec::new();
    let mut start: usize = 0;
    proof {
        assert(v@.skip(0) =~= v@);
        assert(strings_view(out@) =~= Seq::<Seq<char>>::empty());
        assert(strings_view(out@) + split_pieces(v@, c) =~= split_pieces(v@, c));
    }
    loop
        invariant
            start <= v@.len(),
            v@ == s@,
            strings_view(out@) + split_pieces(v@.skip(start as int), c) == split_pieces(s@, c),
        decreases v@.len() - start,
    {
        let rest: Vec<char> = slice_chars(&v, start, v.len());
        proof {
            assert(rest@ =~= v@.skip(start as int));
        }
        match find_char(&rest, c) {
            Some(i) => {
                let piece = slice_string(&rest, 0, i);
                let ghost o = out@;
                out.push(piece);
                proof {
                    let t = v@.skip(start as int);
                    assert(rest@.subrange(0, i as int) =~= t.take(i as int));
                    assert(t.skip(i + 1) =~= v@.skip(start + i + 1));
                    lemma_split_some(t, c, i as int);
                    lemma_strings_push(o, out@, piece);
                    assert(strings_view(o).push(t.take(i as int)) + split_pieces(t.skip(i + 1), c)
                        =~= strings_view(o) + (seq![t.take(i as int)] + split_pieces(t.skip(i + 1), c)));
                }
                start = start + i + 1;
            },
            None => {
                let piece = slice_string(&rest, 0, rest.len());
                let ghost o = out@;
                out.push(piece);
                proof {
                    let t = v@.skip(start as int);
                    assert(rest@.subrange(0, rest@.len() as int) =~= t);
                    lemma_split_none(t, c);
                    lemma_strings_push(o, out@, piece);
                    assert(strings_view(o).push(t) =~= strings_view(o) + seq![t]);
                }
                return out;
            },
        }
    }
}

/// The characters `v[from..to]`.
pub fn slice_chars(v: &[char], from: usize, to: usize) -> (r: Vec<char>)
    requires
        from <= to <= v@.len(),
    ensures
        r@ == v@.subrange(from as int, to as int),
{
    let mut out: Vec<char> = Vec::new();
    let mut i: usize = from;
    while i < to
        invariant
            from <= i <= to,
            to <= v@.len(),
            out@ == v@.subrange(from as int, i as int),
        decreases to - i,
    {
        out.push(v[i]);
        proof {
            assert(v@.subrange(from as int, i as int).push(v@[i as int]) =~= v@.subrange(from as int, i + 1));
        }
        i = i + 1;
    }
    out
}

} // verus!
