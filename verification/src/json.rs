//! Reading fields of a JSON text with `serde_json`.
//!
//! The result of reading a field is named: it is a function of the text and
//! the key alone.

use serde_json::Value;
use vstd::prelude::*;

verus! {

/// The string held by field `key` of the JSON object `json`, when `json`
/// parses as an object with a string under `key`.
pub uninterp spec fn spec_json_str_field(json: Seq<char>, key: Seq<char>) -> Option<Seq<char>>;

/// The boolean held by field `key` of the JSON object `json`, when there is one.
pub uninterp spec fn spec_json_bool_field(json: Seq<char>, key: Seq<char>) -> Option<bool>;

/// The elements of the array held by field `key` of the JSON object `json`,
/// when there is such an array: each element's string, or `None` for an
/// element that is not a string.
pub uninterp spec fn spec_json_array_field(json: Seq<char>, key: Seq<char>) -> Option<
    Seq<Option<Seq<char>>>,
>;

/// `serde_json::from_str::<Value>` then `Value::get(key)`, kept when it is a
/// JSON string: the string field `key` of `json`. A text that does not parse
/// and a missing or non-string field both give `None`.
#[verifier::external_body]
pub(crate) fn json_str_field(json: &str, key: &str) -> (r: Option<String>)
    ensures
        match r {
            Some(v) => spec_json_str_field(json@, key@) == Some(v@),
            None => spec_json_str_field(json@, key@) is None,
        },
{
    let v: Value = match serde_json::from_str(json) {
        Ok(v) => v,
        Err(_) => return None,
    };
    match v.get(key) {
        Some(Value::String(s)) => Some(s.clone()),
        _ => None,
    }
}

/// `serde_json::from_str::<Value>` then `Value::get(key)`, kept when it is a
/// JSON boolean.
#[verifier::external_body]
pub(crate) fn json_bool_field(json: &str, key: &str) -> (r: Option<bool>)
    ensures
        r == spec_json_bool_field(json@, key@),
{
    let v: Value = match serde_json::from_str(json) {
        Ok(v) => v,
        Err(_) => return None,
    };
    match v.get(key) {
        Some(Value::Bool(b)) => Some(*b),
        _ => None,
    }
}

/// The views of a list of optional strings.
pub open spec fn opt_views(v: Seq<Option<String>>) -> Seq<Option<Seq<char>>> {
    v.map_values(|o: Option<String>| match o {
        Some(s) => Some(s@),
        None => None,
    })
}

/// `serde_json::from_str::<Value>` then `Value::get(key)`, kept when it is a
/// JSON array; each element converted to its string, or `None` when it is not
/// a string.
#[verifier::external_body]
fn json_array_field(json: &str, key: &str) -> (r: Option<Vec<Option<String>>>)
    ensures
        match r {
            Some(v) => spec_json_array_field(json@, key@) == Some(opt_views(v@)),
            None => spec_json_array_field(json@, key@) is None,
        },
{
    let v: Value = match serde_json::from_str(json) {
        Ok(v) => v,
        Err(_) => return None,
    };
    match v.get(key) {
        Some(Value::Array(a)) => Some(
            a.iter().map(|e| match e {
                Value::String(s) => Some(s.clone()),
                _ => None,
            }).collect(),
        ),
        _ => None,
    }
}

/// The strings among `v`, in order.
pub open spec fn somes(v: Seq<Option<Seq<char>>>) -> Seq<Seq<char>>
    decreases v.len(),
{
    if v.len() == 0 {
        Seq::empty()
    } else {
        match v.last() {
            Some(s) => somes(v.drop_last()).push(s),
            None => somes(v.drop_last()),
        }
    }
}

/// The string elements, in order, of the array field `key` of `json`, when
/// there is such an array (non-string elements are skipped).
pub fn json_str_array_field(json: &str, key: &str) -> (r: Option<Vec<String>>)
    ensures
        match r {
            Some(v) => spec_json_array_field(json@, key@) matches Some(a) && somes(a)
                == v@.map_values(|s: String| s@),
            None => spec_json_array_field(json@, key@) is None,
        },
{
    let a = match json_array_field(json, key) {
        Some(a) => a,
        None => return None,
    };
    let ghost av = opt_views(a@);
    let mut out: Vec<String> = Vec::new();
    let mut i: usize = 0;
    while i < a.len()
        invariant
            i <= a@.len(),
            av == opt_views(a@),
            out@.map_values(|s: String| s@) == somes(av.take(i as int)),
        decreases a@.len() - i,
    {
        proof {
            assert(av.take(i + 1).drop_last() =~= av.take(i as int));
        }
        match &a[i] {
            Some(s) => {
                let ghost before = out@;
                out.push(s.clone());
                assert(out@.map_values(|s: String| s@) =~= before.map_values(|s: String| s@).push(
                    s@,
                ));
            },
            None => {},
        }
        i += 1;
    }
    assert(av.take(a@.len() as int) =~= av);
    Some(out)
}

} // verus!

verus! {

/// The elements of the array held by field `key` of the JSON object `json`,
/// each as its own JSON text, when there is such an array.
pub uninterp spec fn spec_json_array_items(json: Seq<char>, key: Seq<char>) -> Option<Seq<Seq<char>>>;

/// `serde_json::from_str::<Value>` then `Value::get(key)`, kept when it is a
/// JSON array; each element written back as JSON text (`Value::to_string`).
#[verifier::external_body]
pub(crate) fn json_array_items(json: &str, key: &str) -> (r: Option<Vec<String>>)
    ensures
        match r {
            Some(v) => spec_json_array_items(json@, key@) == Some(v@.map_values(|s: String| s@)),
            None => spec_json_array_items(json@, key@) is None,
        },
{
    let v: Value = match serde_json::from_str(json) {
        Ok(v) => v,
        Err(_) => return None,
    };
    match v.get(key) {
        Some(Value::Array(a)) => Some(a.iter().map(|e| e.to_string()).collect()),
        _ => None,
    }
}

} // verus!

verus! {

// ---------------------------------------------------------------------------
// JSON values held as text
// ---------------------------------------------------------------------------

/// A hexadecimal digit, lowercase, of a value below 16.
pub open spec fn hex_digit_char(n: u32) -> char {
    if n < 10 {
        ((n + 48) as u8) as char
    } else {
        ((n + 87) as u8) as char
    }
}

/// How `serde_json` writes one character inside a string: `"` and `\` and
/// the control characters escaped (the short forms `\b \t \n \f \r`
/// where there is one, else `\u00xx` in lowercase hexadecimal), every other
/// character as itself.
pub open spec fn json_escape(c: char) -> Seq<char> {
    if c == '"' {
        seq!['\\', '"']
    } else if c == '\\' {
        seq!['\\', '\\']
    } else if c == '\u{8}' {
        seq!['\\', 'b']
    } else if c == '\t' {
        seq!['\\', 't']
    } else if c == '\n' {
        seq!['\\', 'n']
    } else if c == '\u{c}' {
        seq!['\\', 'f']
    } else if c == '\r' {
        seq!['\\', 'r']
    } else if (c as u32) < 0x20 {
        seq!['\\', 'u', '0', '0', hex_digit_char((c as u32) / 16), hex_digit_char((c as u32) % 16)]
    } else {
        seq![c]
    }
}

/// The characters of a string, each written as `json_escape` says.
pub open spec fn json_escaped(s: Seq<char>) -> Seq<char>
    decreases s.len(),
{
    if s.len() == 0 {
        Seq::empty()
    } else {
        json_escaped(s.drop_last()) + json_escape(s.last())
    }
}

/// The JSON text of a string (`serde_json::to_string` of a `str`): the
/// escaped characters between double quotes.
pub open spec fn spec_json_quote(s: Seq<char>) -> Seq<char> {
    seq!['"'] + json_escaped(s) + seq!['"']
}

/// The value under `key` of the JSON object that `json` parses to, as JSON
/// text (`None` when `json` is not an object holding `key`).
pub uninterp spec fn spec_json_get(json: Seq<char>, key: Seq<char>) -> Option<Seq<char>>;

/// The element at `i` of the JSON array that `json` parses to, as JSON text.
pub uninterp spec fn spec_json_at(json: Seq<char>, i: int) -> Option<Seq<char>>;

/// The string that `json` parses to, when it is a JSON string.
pub uninterp spec fn spec_json_as_str(json: Seq<char>) -> Option<Seq<char>>;

/// The number that `json` parses to, when it is a non-negative integer that
/// fits in 64 bits.
pub uninterp spec fn spec_json_as_u64(json: Seq<char>) -> Option<u64>;

/// The length of the JSON array that `json` parses to, when it is an array.
pub uninterp spec fn spec_json_len(json: Seq<char>) -> Option<nat>;

/// The compact JSON text of the value that `json` parses to, when it parses.
pub uninterp spec fn spec_json_normalize(json: Seq<char>) -> Option<Seq<char>>;

/// The text of the error `serde_json` reports when `json` does not parse to
/// a value, or `None` when it parses.
pub uninterp spec fn spec_json_parse_error(json: Seq<char>) -> Option<Seq<char>>;

/// `serde_json::from_str::<Value>`, keeping only its error, as text.
#[verifier::external_body]
pub(crate) fn json_parse_error(json: &str) -> (r: Option<String>)
    ensures
        match r {
            Some(e) => spec_json_parse_error(json@) == Some(e@),
            None => spec_json_parse_error(json@) is None,
        },
{
    serde_json::from_str::<Value>(json).err().map(|e| e.to_string())
}

fn hex_digit(n: u32) -> (r: char)
    requires
        n < 16,
    ensures
        r == hex_digit_char(n),
{
    if n < 10 {
        ((n + 48) as u8) as char
    } else {
        ((n + 87) as u8) as char
    }
}

/// The JSON text of a string, as `serde_json::to_string` writes it.
pub(crate) fn json_quote(s: &str) -> (r: String)
    ensures
        r@ == spec_json_quote(s@),
{
    let v = crate::text::chars_of(s);
    let mut out = String::new();
    crate::text::push_char(&mut out, '"');
    let mut i: usize = 0;
    while i < v.len()
        invariant
            i <= v@.len(),
            v@ == s@,
            out@ == seq!['"'] + json_escaped(v@.take(i as int)),
        decreases v@.len() - i,
    {
        let c = v[i];
        let ghost before = out@;
        if c == '"' {
            crate::text::push_char(&mut out, '\\');
            crate::text::push_char(&mut out, '"');
        } else if c == '\\' {
            crate::text::push_char(&mut out, '\\');
            crate::text::push_char(&mut out, '\\');
        } else if c == '\u{8}' {
            crate::text::push_char(&mut out, '\\');
            crate::text::push_char(&mut out, 'b');
        } else if c == '\t' {
            crate::text::push_char(&mut out, '\\');
            crate::text::push_char(&mut out, 't');
        } else if c == '\n' {
            crate::text::push_char(&mut out, '\\');
            crate::text::push_char(&mut out, 'n');
        } else if c == '\u{c}' {
            crate::text::push_char(&mut out, '\\');
            crate::text::push_char(&mut out, 'f');
        } else if c == '\r' {
            crate::text::push_char(&mut out, '\\');
            crate::text::push_char(&mut out, 'r');
        } else if (c as u32) < 0x20 {
            crate::text::push_char(&mut out, '\\');
            crate::text::push_char(&mut out, 'u');
            crate::text::push_char(&mut out, '0');
            crate::text::push_char(&mut out, '0');
            crate::text::push_char(&mut out, hex_digit((c as u32) / 16));
            crate::text::push_char(&mut out, hex_digit((c as u32) % 16));
        } else {
            crate::text::push_char(&mut out, c);
        }
        assert(out@ =~= before + json_escape(c));
        assert(v@.take(i + 1).drop_last() =~= v@.take(i as int));
        assert(v@.take(i + 1).last() == c);
        i += 1;
    }
    assert(v@.take(v@.len() as int) =~= v@);
    crate::text::push_char(&mut out, '"');
    out
}

/// `serde_json::from_str::<Value>` then `Value::get(key)`, written back as
/// JSON text.
#[verifier::external_body]
pub(crate) fn json_get(json: &str, key: &str) -> (r: Option<String>)
    ensures
        match r {
            Some(v) => spec_json_get(json@, key@) == Some(v@),
            None => spec_json_get(json@, key@) is None,
        },
{
    match serde_json::from_str::<Value>(json) {
        Ok(v) => v.get(key).map(|x| x.to_string()),
        Err(_) => None,
    }
}

/// `serde_json::from_str::<Value>` then `Value::get(i)` on an array, written
/// back as JSON text.
#[verifier::external_body]
pub(crate) fn json_at(json: &str, i: usize) -> (r: Option<String>)
    ensures
        match r {
            Some(v) => spec_json_at(json@, i as int) == Some(v@),
            None => spec_json_at(json@, i as int) is None,
        },
{
    match serde_json::from_str::<Value>(json) {
        Ok(v) => v.get(i).map(|x| x.to_string()),
        Err(_) => None,
    }
}

/// `serde_json::from_str::<Value>` then `Value::as_str`.
#[verifier::external_body]
pub(crate) fn json_as_str(json: &str) -> (r: Option<String>)
    ensures
        match r {
            Some(v) => spec_json_as_str(json@) == Some(v@),
            None => spec_json_as_str(json@) is None,
        },
{
    match serde_json::from_str::<Value>(json) {
        Ok(v) => v.as_str().map(|s| s.to_string()),
        Err(_) => None,
    }
}

/// `serde_json::from_str::<Value>` then `Value::as_u64`.
#[verifier::external_body]
pub(crate) fn json_as_u64(json: &str) -> (r: Option<u64>)
    ensures
        r == spec_json_as_u64(json@),
{
    match serde_json::from_str::<Value>(json) {
        Ok(v) => v.as_u64(),
        Err(_) => None,
    }
}

/// `serde_json::from_str::<Value>` then the length of `Value::as_array`.
#[verifier::external_body]
pub(crate) fn json_len(json: &str) -> (r: Option<usize>)
    ensures
        match r {
            Some(n) => spec_json_len(json@) == Some(n as nat),
            None => spec_json_len(json@) is None,
        },
{
    match serde_json::from_str::<Value>(json) {
        Ok(v) => v.as_array().map(|a| a.len()),
        Err(_) => None,
    }
}

/// `serde_json::from_str::<Value>` then `Value::to_string`.
#[verifier::external_body]
pub(crate) fn json_normalize(json: &str) -> (r: Option<String>)
    ensures
        match r {
            Some(v) => spec_json_normalize(json@) == Some(v@),
            None => spec_json_normalize(json@) is None,
        },
{
    match serde_json::from_str::<Value>(json) {
        Ok(v) => Some(v.to_string()),
        Err(_) => None,
    }
}

/// The string under `key` of a JSON object text, if there is one.
pub open spec fn str_at_key(json: Seq<char>, key: Seq<char>) -> Option<Seq<char>> {
    match spec_json_get(json, key) {
        Some(v) => spec_json_as_str(v),
        None => None,
    }
}

/// The string under `key` of a JSON object text, if there is one.
pub fn get_str(json: &str, key: &str) -> (r: Option<String>)
    ensures
        match r {
            Some(v) => str_at_key(json@, key@) == Some(v@),
            None => str_at_key(json@, key@) is None,
        },
{
    match json_get(json, key) {
        Some(v) => json_as_str(v.as_str()),
        None => None,
    }
}

/// The value under a path of keys of a JSON text.
pub open spec fn value_at_path(json: Seq<char>, path: Seq<Seq<char>>) -> Option<Seq<char>>
    decreases path.len(),
{
    if path.len() == 0 {
        Some(json)
    } else {
        match spec_json_get(json, path[0]) {
            Some(v) => value_at_path(v, path.drop_first()),
            None => None,
        }
    }
}

/// The string under the keys `a`, then `b`.
pub open spec fn str_at2(json: Seq<char>, a: Seq<char>, b: Seq<char>) -> Option<Seq<char>> {
    match spec_json_get(json, a) {
        Some(v) => str_at_key(v, b),
        None => None,
    }
}

/// The string under the keys `a`, then `b`.
pub fn get_str2(json: &str, a: &str, b: &str) -> (r: Option<String>)
    ensures
        match r {
            Some(v) => str_at2(json@, a@, b@) == Some(v@),
            None => str_at2(json@, a@, b@) is None,
        },
{
    match json_get(json, a) {
        Some(v) => get_str(v.as_str(), b),
        None => None,
    }
}

/// The number under the key `key`.
pub open spec fn u64_at_key(json: Seq<char>, key: Seq<char>) -> Option<u64> {
    match spec_json_get(json, key) {
        Some(v) => spec_json_as_u64(v),
        None => None,
    }
}

/// The number under the key `key`.
pub fn get_u64(json: &str, key: &str) -> (r: Option<u64>)
    ensures
        r == u64_at_key(json@, key@),
{
    match json_get(json, key) {
        Some(v) => json_as_u64(v.as_str()),
        None => None,
    }
}

/// The number under the keys `a`, then `b`.
pub open spec fn u64_at2(json: Seq<char>, a: Seq<char>, b: Seq<char>) -> Option<u64> {
    match spec_json_get(json, a) {
        Some(v) => u64_at_key(v, b),
        None => None,
    }
}

/// The number under the keys `a`, then `b`.
pub fn get_u64_2(json: &str, a: &str, b: &str) -> (r: Option<u64>)
    ensures
        r == u64_at2(json@, a@, b@),
{
    match json_get(json, a) {
        Some(v) => get_u64(v.as_str(), b),
        None => None,
    }
}

} // verus!
