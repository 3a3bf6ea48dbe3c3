//! A JSON document as the backends' HTTP APIs answer it, and the lookups the
//! backends make in it: member access that yields `null` for what is absent,
//! and the typed views of a value.

use vstd::prelude::*;

verus! {

/// A JSON number, by the integer readings it admits and its text.
#[derive(Debug)]
pub struct JsonNumber {
    /// The number as a signed 64-bit integer, where it is one.
    pub as_i64: Option<i64>,
    /// The number as an unsigned 64-bit integer, where it is one.
    pub as_u64: Option<u64>,
    /// The number as JSON writes it.
    pub text: String,
}

/// A JSON value. The members of an object are listed in the order the
/// document's map walks them, each key once.
#[derive(Debug)]
pub enum JsonValue {
    Null,
    Bool(bool),
    Num(JsonNumber),
    Str(String),
    Array(Vec<JsonValue>),
    Object(Vec<(String, JsonValue)>),
}

/// The value of the first member named `key`.
pub open spec fn member_value(members: Seq<(String, JsonValue)>, key: Seq<char>) -> Option<JsonValue>
    decreases members.len(),
{
    if members.len() == 0 {
        None
    } else if members[0].0@ == key {
        Some(members[0].1)
    } else {
        member_value(members.drop_first(), key)
    }
}

/// `v[key]`: the member `key` of an object, and `null` for a missing member or
/// a value that is no object.
pub open spec fn json_index(v: JsonValue, key: Seq<char>) -> JsonValue {
    match v {
        JsonValue::Object(members) => match member_value(members@, key) {
            Some(x) => x,
            None => JsonValue::Null,
        },
        _ => JsonValue::Null,
    }
}

/// `v.get(key)`: the member `key` of an object, `None` when it is missing or
/// `v` is no object.
pub open spec fn json_get(v: JsonValue, key: Seq<char>) -> Option<JsonValue> {
    match v {
        JsonValue::Object(members) => member_value(members@, key),
        _ => None,
    }
}

/// The text of a string value.
pub open spec fn json_as_str(v: JsonValue) -> Option<Seq<char>> {
    match v {
        JsonValue::Str(s) => Some(s@),
        _ => None,
    }
}

/// The truth value of a boolean value.
pub open spec fn json_as_bool(v: JsonValue) -> Option<bool> {
    match v {
        JsonValue::Bool(b) => Some(b),
        _ => None,
    }
}

/// A number value as a signed 64-bit integer.
pub open spec fn json_as_i64(v: JsonValue) -> Option<i64> {
    match v {
        JsonValue::Num(n) => n.as_i64,
        _ => None,
    }
}

/// A number value as an unsigned 64-bit integer.
pub open spec fn json_as_u64(v: JsonValue) -> Option<u64> {
    match v {
        JsonValue::Num(n) => n.as_u64,
        _ => None,
    }
}

/// The elements of an array value.
pub open spec fn json_as_array(v: JsonValue) -> Option<Seq<JsonValue>> {
    match v {
        JsonValue::Array(items) => Some(items@),
        _ => None,
    }
}

/// The members of an object value.
pub open spec fn json_as_object(v: JsonValue) -> Option<Seq<(String, JsonValue)>> {
    match v {
        JsonValue::Object(members) => Some(members@),
        _ => None,
    }
}

impl JsonValue {
    /// The member `key`, when `self` is an object that has one; `None`
    /// stands for the `null` that indexing gives otherwise.
    pub fn at(&self, key: &str) -> (r: Option<&JsonValue>)
        ensures
            match r {
                Some(x) => json_get(*self, key@) == Some(*x) && *x == json_index(*self, key@),
                None => json_get(*self, key@) is None && json_index(*self, key@) == JsonValue::Null,
            },
    {
        match self {
            JsonValue::Object(members) => {
                let k = String::from_str(key);
                let mut i: usize = 0;
                proof {
                    assert(members@.subrange(0, members.len() as int) =~= members@);
                }
                while i < members.len()
                    invariant
                        *self == JsonValue::Object(*members),
                        k@ == key@,
                        i <= members.len(),
                        member_value(members@, key@) == member_value(
                            members@.subrange(i as int, members.len() as int),
                            key@,
                        ),
                    decreases members.len() - i,
                {
                    let ghost rest = members@.subrange(i as int, members.len() as int);
                    if members[i].0 == k {
                        proof {
                            assert(rest[0] == members@[i as int]);
                            assert(members@[i as int].0@ == key@);
                            assert(member_value(rest, key@) == Some(members@[i as int].1));
                        }
                        return Some(&members[i].1);
                    }
                    proof {
                        assert(rest.drop_first() =~= members@.subrange(i + 1, members.len() as int));
                    }
                    i = i + 1;
                }
                None
            },
            _ => None,
        }
    }

    /// The text, when `self` is a string.
    pub fn as_str(&self) -> (r: Option<&String>)
        ensures
            r.deep_view() == json_as_str(*self),
    {
        match self {
            JsonValue::Str(s) => Some(s),
            _ => None,
        }
    }

    /// The truth value, when `self` is a boolean.
    pub fn as_bool(&self) -> (r: Option<bool>)
        ensures
            r == json_as_bool(*self),
    {
        match self {
            JsonValue::Bool(b) => Some(*b),
            _ => None,
        }
    }

    /// The number as a signed 64-bit integer, when it is one.
    pub fn as_i64(&self) -> (r: Option<i64>)
        ensures
            r == json_as_i64(*self),
    {
        match self {
            JsonValue::Num(n) => n.as_i64,
            _ => None,
        }
    }

    /// The number as an unsigned 64-bit integer, when it is one.
    pub fn as_u64(&self) -> (r: Option<u64>)
        ensures
            r == json_as_u64(*self),
    {
        match self {
            JsonValue::Num(n) => n.as_u64,
            _ => None,
        }
    }

    /// The elements, when `self` is an array.
    pub fn as_array(&self) -> (r: Option<&Vec<JsonValue>>)
        ensures
            match r {
                Some(items) => json_as_array(*self) == Some(items@),
                None => json_as_array(*self) is None,
            },
    {
        match self {
            JsonValue::Array(items) => Some(items),
            _ => None,
        }
    }

    /// The members, when `self` is an object.
    pub fn as_object(&self) -> (r: Option<&Vec<(String, JsonValue)>>)
        ensures
            match r {
                Some(members) => json_as_object(*self) == Some(members@),
                None => json_as_object(*self) is None,
            },
    {
        match self {
            JsonValue::Object(members) => Some(members),
            _ => None,
        }
    }
}

/// The text of `v[key]` when it is a string.
pub open spec fn str_at(v: JsonValue, key: Seq<char>) -> Option<Seq<char>> {
    json_as_str(json_index(v, key))
}

/// The text of the member `key` of `v`, when it is a string.
pub fn str_member(v: &JsonValue, key: &str) -> (r: Option<String>)
    ensures
        r.deep_view() == str_at(*v, key@),
{
    match v.at(key) {
        Some(x) => match x.as_str() {
            Some(s) => Some(s.clone()),
            None => None,
        },
        None => None,
    }
}

/// The text of a string, or `default` for anything else.
pub fn str_or(v: Option<String>, default: &str) -> (r: String)
    ensures
        r@ == match v.deep_view() {
            Some(s) => s,
            None => default@,
        },
{
    match v {
        Some(s) => s,
        None => String::from_str(default),
    }
}

/// The string elements of an array, in order, skipping the rest.
pub open spec fn strings_of(items: Seq<JsonValue>) -> Seq<Seq<char>>
    decreases items.len(),
{
    if items.len() == 0 {
        Seq::empty()
    } else {
        let before = strings_of(items.drop_last());
        match json_as_str(items.last()) {
            Some(s) => before.push(s),
            None => before,
        }
    }
}

/// The string elements of `items`, in order.
pub fn string_elements(items: &Vec<JsonValue>) -> (r: Vec<String>)
    ensures
        r.deep_view() == strings_of(items@),
{
    let mut out: Vec<String> = Vec::new();
    for i in 0..items.len()
        invariant
            out.deep_view() == strings_of(items@.take(i as int)),
    {
        proof {
            assert(items@.take(i + 1).drop_last() =~= items@.take(i as int));
        }
        match items[i].as_str() {
            Some(s) => {
                let ghost before = out.deep_view();
                out.push(s.clone());
                proof {
                    assert(out.deep_view() =~= before.push(s@));
                }
            },
            None => {},
        }
    }
    proof {
        assert(items@.take(items.len() as int) =~= items@);
    }
    out
}

/// The value of an object that has the single member `key`.
pub open spec fn sole_member(v: JsonValue, key: Seq<char>) -> Option<JsonValue> {
    match v {
        JsonValue::Object(members) => if members@.len() == 1 && members@[0].0@ == key {
            Some(members@[0].1)
        } else {
            None
        },
        _ => None,
    }
}

/// The object whose single member is `key` with value `value`.
pub fn object_of(key: &str, value: JsonValue) -> (v: JsonValue)
    ensures
        sole_member(v, key@) == Some(value),
{
    let mut members: Vec<(String, JsonValue)> = Vec::new();
    members.push((String::from_str(key), value));
    JsonValue::Object(members)
}

/// The array of the strings `items`, in order.
pub open spec fn string_array(v: JsonValue, items: Seq<Seq<char>>) -> bool {
    match v {
        JsonValue::Array(elements) => elements@.len() == items.len() && forall|i: int|
            0 <= i < items.len() ==> json_as_str(#[trigger] elements@[i]) == Some(items[i]),
        _ => false,
    }
}

/// The array of the strings `items`.
pub fn array_of_strings(items: &Vec<String>) -> (v: JsonValue)
    ensures
        string_array(v, items.deep_view()),
{
    let mut elements: Vec<JsonValue> = Vec::new();
    for i in 0..items.len()
        invariant
            elements@.len() == i,
            forall|j: int| 0 <= j < i ==> json_as_str(#[trigger] elements@[j]) == Some(items@[j]@),
    {
        elements.push(JsonValue::Str(items[i].clone()));
    }
    JsonValue::Array(elements)
}

/// `v` is the JSON number `n`.
pub open spec fn u64_number(v: JsonValue, n: u64) -> bool {
    v matches JsonValue::Num(x) && x.as_u64 == Some(n) && x.as_i64 == (if n <= i64::MAX {
        Some(n as i64)
    } else {
        None
    }) && x.text@ == crate::text::decimal(n as nat)
}

/// The JSON number `n`.
pub fn number_from_u64(n: u64) -> (v: JsonValue)
    ensures
        u64_number(v, n),
{
    let as_i64 = if n <= i64::MAX as u64 {
        Some(n as i64)
    } else {
        None
    };
    JsonValue::Num(JsonNumber { as_i64, as_u64: Some(n), text: crate::text::decimal_string(n) })
}

/// `v` is an object of exactly two members: `k1` with value `v1`, then `k2`
/// with value `v2`.
pub open spec fn two_members(v: JsonValue, k1: Seq<char>, k2: Seq<char>) -> Option<(JsonValue, JsonValue)> {
    match v {
        JsonValue::Object(members) => if members@.len() == 2 && members@[0].0@ == k1
            && members@[1].0@ == k2 {
            Some((members@[0].1, members@[1].1))
        } else {
            None
        },
        _ => None,
    }
}

/// The object of the two members `k1: v1` and `k2: v2`, in that order.
pub fn object_of_two(k1: &str, v1: JsonValue, k2: &str, v2: JsonValue) -> (v: JsonValue)
    ensures
        two_members(v, k1@, k2@) == Some((v1, v2)),
{
    let mut members: Vec<(String, JsonValue)> = Vec::new();
    members.push((String::from_str(k1), v1));
    members.push((String::from_str(k2), v2));
    JsonValue::Object(members)
}

/// The lower-case hexadecimal digit of `d`, below sixteen.
pub open spec fn hex_digit(d: int) -> char {
    if d < 10 {
        ('0' as int + d) as char
    } else {
        ('a' as int + (d - 10)) as char
    }
}

/// How JSON writes the character `c` inside a string: a quote and a
/// backslash behind a backslash; backspace, form feed, line feed, carriage
/// return and tab as `\b`, `\f`, `\n`, `\r` and `\t`; the other control
/// characters below `0x20` as `\u00` and two hexadecimal digits; every other
/// character as itself.
pub open spec fn escaped_char(c: char) -> Seq<char> {
    if c == '"' {
        seq!['\\', '"']
    } else if c == '\\' {
        seq!['\\', '\\']
    } else if c == '\u{8}' {
        seq!['\\', 'b']
    } else if c == '\u{c}' {
        seq!['\\', 'f']
    } else if c == '\n' {
        seq!['\\', 'n']
    } else if c == '\r' {
        seq!['\\', 'r']
    } else if c == '\t' {
        seq!['\\', 't']
    } else if (c as int) < 0x20 {
        seq!['\\', 'u', '0', '0', hex_digit((c as int) / 16), hex_digit((c as int) % 16)]
    } else {
        seq![c]
    }
}

/// The characters of `s`, each as JSON writes it inside a string.
pub open spec fn escaped_text(s: Seq<char>) -> Seq<char>
    decreases s.len(),
{
    if s.len() == 0 {
        Seq::empty()
    } else {
        escaped_text(s.drop_last()) + escaped_char(s.last())
    }
}

/// How JSON writes the string `s`: its escaped characters in double quotes.
pub open spec fn json_string_literal(s: Seq<char>) -> Seq<char> {
    seq!['"'] + escaped_text(s) + seq!['"']
}

/// `serde_json::to_string` on a string slice: its JSON literal, by the escape
/// table of its writer. Writing a string to memory cannot fail, so the empty
/// default is never taken.
#[verifier::external_body]
pub fn quote_json_string(s: &str) -> (q: String)
    ensures
        q@ == json_string_literal(s@),
{
    serde_json::to_string(s).unwrap_or_default()
}

/// The compact JSON text of a value.
pub open spec fn json_text(v: JsonValue) -> Seq<char>
    decreases v, 1nat,
{
    match v {
        JsonValue::Null => "null"@,
        JsonValue::Bool(b) => if b {
            "true"@
        } else {
            "false"@
        },
        JsonValue::Num(n) => n.text@,
        JsonValue::Str(s) => json_string_literal(s@),
        JsonValue::Array(items) => "["@ + items_text(items@) + "]"@,
        JsonValue::Object(members) => "{"@ + members_text(members@) + "}"@,
    }
}

/// The texts of the elements, separated by commas.
pub open spec fn items_text(items: Seq<JsonValue>) -> Seq<char>
    decreases items, 0nat,
{
    if items.len() == 0 {
        Seq::empty()
    } else if items.len() == 1 {
        json_text(items[0])
    } else {
        json_text(items[0]) + ","@ + items_text(items.drop_first())
    }
}

/// The members as `"key":value`, separated by commas.
pub open spec fn members_text(members: Seq<(String, JsonValue)>) -> Seq<char>
    decreases members, 0nat,
{
    if members.len() == 0 {
        Seq::empty()
    } else if members.len() == 1 {
        json_string_literal(members[0].0@) + ":"@ + json_text(members[0].1)
    } else {
        json_string_literal(members[0].0@) + ":"@ + json_text(members[0].1) + ","@ + members_text(
            members.drop_first(),
        )
    }
}

/// The compact JSON text of `v`, as JSON values print.
pub fn json_text_of(v: &JsonValue) -> (t: String)
    ensures
        t@ == json_text(*v),
    decreases v,
{
    match v {
        JsonValue::Null => String::from_str("null"),
        JsonValue::Bool(b) => if *b {
            String::from_str("true")
        } else {
            String::from_str("false")
        },
        JsonValue::Num(n) => n.text.clone(),
        JsonValue::Str(s) => quote_json_string(s.as_str()),
        JsonValue::Array(items) => {
            let mut body = String::new();
            let n = items.len();
            let mut i: usize = n;
            proof {
                assert(items@.subrange(n as int, n as int).len() == 0);
            }
            while i > 0
                invariant
                    *v == JsonValue::Array(*items),
                    n == items.len(),
                    i <= n,
                    body@ == items_text(items@.subrange(i as int, n as int)),
                decreases i,
            {
                let ghost rest = items@.subrange(i as int, n as int);
                proof {
                    assert(decreases_to!(*items => items[i - 1]));
                    assert(decreases_to!(*v => v->Array_0));
                }
                let item = json_text_of(&items[i - 1]);
                let ghost whole = items@.subrange(i - 1, n as int);
                proof {
                    assert(whole[0] == items@[i - 1]);
                    assert(whole.drop_first() =~= rest);
                }
                if i == n {
                    body = item;
                } else {
                    body = item.concat(",").concat(body.as_str());
                }
                i = i - 1;
            }
            proof {
                assert(items@.subrange(0, n as int) =~= items@);
            }
            String::from_str("[").concat(body.as_str()).concat("]")
        },
        JsonValue::Object(members) => {
            let mut body = String::new();
            let n = members.len();
            let mut i: usize = n;
            proof {
                assert(members@.subrange(n as int, n as int).len() == 0);
            }
            while i > 0
                invariant
                    *v == JsonValue::Object(*members),
                    n == members.len(),
                    i <= n,
                    body@ == members_text(members@.subrange(i as int, n as int)),
                decreases i,
            {
                let ghost rest = members@.subrange(i as int, n as int);
                proof {
                    assert(decreases_to!(*members => members[i - 1]));
                    assert(decreases_to!(members[i - 1] => members[i - 1].1));
                    assert(decreases_to!(*v => v->Object_0));
                }
                let value = json_text_of(&members[i - 1].1);
                let key = quote_json_string(members[i - 1].0.as_str());
                let entry = key.concat(":").concat(value.as_str());
                let ghost whole = members@.subrange(i - 1, n as int);
                proof {
                    assert(whole[0] == members@[i - 1]);
                    assert(whole.drop_first() =~= rest);
                }
                if i == n {
                    body = entry;
                } else {
                    body = entry.concat(",").concat(body.as_str());
                }
                i = i - 1;
            }
            proof {
                assert(members@.subrange(0, n as int) =~= members@);
            }
            String::from_str("{").concat(body.as_str()).concat("}")
        },
    }
}

} // verus!
