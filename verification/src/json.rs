//! A minimal JSON value: just enough to speak JSON-RPC with a language server.
//!
//! A number is a double: the one nearest to what is read, written as the
//! shortest text that reads as it.

use crate::numbers::{
    a_double_reads_back, double_nearest, double_of, double_text, is_number, number_char,
    number_chars, truncated, Double,
};
use crate::text::{
    at_index, chars_of, digit, equal, is_digit, is_white, owned, slice, stands_at, white,
};
use vstd::prelude::*;

verus! {

/// `char::from_u32`: the character with this code, which exists exactly when
/// the code is a Unicode scalar value.
pub assume_specification[ char::from_u32 ](i: u32) -> (r: Option<char>)
    ensures
        r is Some <==> (i < 0xD800 || 0xE000 <= i <= 0x10FFFF),
        r matches Some(c) ==> c as u32 == i,
;

// --- values ------------------------------------------------------------------

/// A JSON value.
#[derive(Debug, PartialEq)]
pub enum Value {
    Null,
    Bool(bool),
    Number(Double),
    Text(String),
    Array(Vec<Value>),
    /// Key order preserved: these objects are small and read in order.
    Object(Vec<(String, Value)>),
}

/// What a value is, whatever holds it.
pub enum Json {
    Null,
    Bool(bool),
    Number(Double),
    Text(Seq<char>),
    Array(Seq<Json>),
    Object(Seq<(Seq<char>, Json)>),
}

/// What `value` is.
pub open spec fn json(value: Value) -> Json
    decreases value,
{
    match value {
        Value::Null => Json::Null,
        Value::Bool(b) => Json::Bool(b),
        Value::Number(d) => Json::Number(d),
        Value::Text(text) => Json::Text(text@),
        Value::Array(items) => Json::Array(
            Seq::new(
                items@.len(),
                |i: int|
                    if 0 <= i < items@.len() {
                        json(items@[i])
                    } else {
                        Json::Null
                    },
            ),
        ),
        Value::Object(pairs) => Json::Object(
            Seq::new(
                pairs@.len(),
                |i: int|
                    if 0 <= i < pairs@.len() {
                        (pairs@[i].0@, json(pairs@[i].1))
                    } else {
                        (Seq::empty(), Json::Null)
                    },
            ),
        ),
    }
}

/// What each of a row of values is.
pub open spec fn jsons(values: Seq<Value>) -> Seq<Json> {
    Seq::new(values.len(), |i: int| json(values[i]))
}

/// What each of a row of pairs is.
pub open spec fn json_pairs(pairs: Seq<(String, Value)>) -> Seq<(Seq<char>, Json)> {
    Seq::new(pairs.len(), |i: int| (pairs[i].0@, json(pairs[i].1)))
}

/// An array is the row of what its elements are.
pub proof fn json_of_array(items: Vec<Value>)
    ensures
        json(Value::Array(items)) == Json::Array(jsons(items@)),
{
    assert(json(Value::Array(items))->Array_0 =~= jsons(items@));
}

/// An object is the row of what its members are.
pub proof fn json_of_object(pairs: Vec<(String, Value)>)
    ensures
        json(Value::Object(pairs)) == Json::Object(json_pairs(pairs@)),
{
    assert(json(Value::Object(pairs))->Object_0 =~= json_pairs(pairs@));
}

// --- the grammar -------------------------------------------------------------

/// The first place at or after `at` that is not white space.
pub open spec fn skip(s: Seq<char>, at: int) -> int
    decreases s.len() - at,
{
    if 0 <= at < s.len() && white(s[at]) {
        skip(s, at + 1)
    } else {
        at
    }
}

/// The number a hexadecimal digit stands for, or -1 for any other character.
pub open spec fn hex(c: char) -> int {
    if '0' <= c <= '9' {
        c as int - '0' as int
    } else if 'a' <= c <= 'f' {
        c as int - 'a' as int + 10
    } else if 'A' <= c <= 'F' {
        c as int - 'A' as int + 10
    } else {
        -1
    }
}

/// The number written in the four characters at `at`: hexadecimal digits, of
/// which a `+` may take the first place.
pub open spec fn hex4(s: Seq<char>, at: int) -> Option<int> {
    if at < 0 || at + 4 > s.len() {
        None
    } else {
        let first = if s[at] == '+' {
            0
        } else {
            hex(s[at])
        };
        let (b, c, d) = (hex(s[at + 1]), hex(s[at + 2]), hex(s[at + 3]));
        if first >= 0 && b >= 0 && c >= 0 && d >= 0 {
            Some(first * 4096 + b * 256 + c * 16 + d)
        } else {
            None
        }
    }
}

/// The character with a code below 0x10000, or the replacement character for
/// half of a surrogate pair.
pub open spec fn scalar(code: int) -> char {
    if 0xD800 <= code < 0xE000 {
        '\u{fffd}'
    } else {
        code as char
    }
}

/// The escape whose letter stands at `at`, and where the text goes on.
pub open spec fn escape_at(s: Seq<char>, at: int) -> Option<(char, int)> {
    if at < 0 || at >= s.len() {
        None
    } else if s[at] == '"' || s[at] == '\\' || s[at] == '/' {
        Some((s[at], at + 1))
    } else if s[at] == 'n' {
        Some(('\n', at + 1))
    } else if s[at] == 'r' {
        Some(('\r', at + 1))
    } else if s[at] == 't' {
        Some(('\t', at + 1))
    } else if s[at] == 'u' {
        match hex4(s, at + 1) {
            Some(code) => Some((scalar(code), at + 5)),
            None => None,
        }
    } else {
        None
    }
}

/// The rest of a string from `at` on, up to its closing quote, and where the
/// text goes on after it.
pub open spec fn body_at(s: Seq<char>, at: int) -> Option<(Seq<char>, int)>
    decreases s.len() - at,
{
    if at < 0 || at >= s.len() {
        None
    } else if s[at] == '"' {
        Some((Seq::empty(), at + 1))
    } else if s[at] == '\\' {
        match escape_at(s, at + 1) {
            Some((c, next)) => if at < next {
                prefixed(c, body_at(s, next))
            } else {
                None
            },
            None => None,
        }
    } else {
        prefixed(s[at], body_at(s, at + 1))
    }
}

/// A string's rest with one more character before it.
pub open spec fn prefixed(c: char, rest: Option<(Seq<char>, int)>) -> Option<(Seq<char>, int)> {
    match rest {
        Some((text, end)) => Some((seq![c] + text, end)),
        None => None,
    }
}

/// The string that opens at `at`.
pub open spec fn string_at(s: Seq<char>, at: int) -> Option<(Seq<char>, int)> {
    if 0 <= at < s.len() && s[at] == '"' {
        body_at(s, at + 1)
    } else {
        None
    }
}

/// Where the characters of a number end.
pub open spec fn number_end(s: Seq<char>, at: int) -> int
    decreases s.len() - at,
{
    if 0 <= at < s.len() && number_char(s[at]) {
        number_end(s, at + 1)
    } else {
        at
    }
}

/// The number that begins at `at`.
pub open spec fn number_at(s: Seq<char>, at: int) -> Option<(Json, int)> {
    let end = number_end(s, at);
    if 0 <= at <= end <= s.len() && is_number(s.subrange(at, end)) {
        Some((Json::Number(double_of(s.subrange(at, end))), end))
    } else {
        None
    }
}

/// A word with one meaning.
pub open spec fn literal_at(s: Seq<char>, at: int, word: Seq<char>, value: Json) -> Option<
    (Json, int),
> {
    if at_index(s, at, word) {
        Some((value, at + word.len()))
    } else {
        None
    }
}

/// The value that begins at `at`, after any white space, and where the text
/// goes on.
pub open spec fn value_at(s: Seq<char>, at: int) -> Option<(Json, int)>
    decreases s.len() - at, 2int,
{
    let i = skip(s, at);
    if !(0 <= at <= i < s.len()) {
        None
    } else if s[i] == '{' {
        let j = skip(s, i + 1);
        if i < j < s.len() && s[j] == '}' {
            Some((Json::Object(Seq::empty()), j + 1))
        } else {
            match members_at(s, i + 1) {
                Some((pairs, end)) => Some((Json::Object(pairs), end)),
                None => None,
            }
        }
    } else if s[i] == '[' {
        let j = skip(s, i + 1);
        if i < j < s.len() && s[j] == ']' {
            Some((Json::Array(Seq::empty()), j + 1))
        } else {
            match elements_at(s, i + 1) {
                Some((items, end)) => Some((Json::Array(items), end)),
                None => None,
            }
        }
    } else if s[i] == '"' {
        match string_at(s, i) {
            Some((text, end)) => Some((Json::Text(text), end)),
            None => None,
        }
    } else if s[i] == 't' {
        literal_at(s, i, "true"@, Json::Bool(true))
    } else if s[i] == 'f' {
        literal_at(s, i, "false"@, Json::Bool(false))
    } else if s[i] == 'n' {
        literal_at(s, i, "null"@, Json::Null)
    } else {
        number_at(s, i)
    }
}

/// The elements of an array from `at` on, up to its closing bracket.
pub open spec fn elements_at(s: Seq<char>, at: int) -> Option<(Seq<Json>, int)>
    decreases s.len() - at, 3int,
{
    match value_at(s, at) {
        Some((value, end)) => {
            let j = skip(s, end);
            if !(0 <= at < end <= j < s.len()) {
                None
            } else if s[j] == ',' {
                match elements_at(s, j + 1) {
                    Some((rest, end)) => Some((seq![value] + rest, end)),
                    None => None,
                }
            } else if s[j] == ']' {
                Some((seq![value], j + 1))
            } else {
                None
            }
        },
        None => None,
    }
}

/// The members of an object from `at` on, up to its closing brace.
pub open spec fn members_at(s: Seq<char>, at: int) -> Option<(Seq<(Seq<char>, Json)>, int)>
    decreases s.len() - at, 3int,
{
    match string_at(s, skip(s, at)) {
        Some((key, after_key)) => {
            let colon = skip(s, after_key);
            if !(0 <= at < after_key <= colon < s.len() && s[colon] == ':') {
                None
            } else {
                match value_at(s, colon + 1) {
                    Some((value, end)) => {
                        let j = skip(s, end);
                        if !(colon < end <= j < s.len()) {
                            None
                        } else if s[j] == ',' {
                            match members_at(s, j + 1) {
                                Some((rest, end)) => Some((seq![(key, value)] + rest, end)),
                                None => None,
                            }
                        } else if s[j] == '}' {
                            Some((seq![(key, value)], j + 1))
                        } else {
                            None
                        }
                    },
                    None => None,
                }
            }
        },
        None => None,
    }
}

/// The value a text begins with; whatever follows it is ignored.
pub open spec fn parsed(s: Seq<char>) -> Option<Json> {
    match value_at(s, 0) {
        Some((value, end)) => Some(value),
        None => None,
    }
}

// --- reading -----------------------------------------------------------------

/// Past the white space at `at`.
pub fn skip_whitespace(chars: &Vec<char>, at: usize) -> (r: usize)
    requires
        at <= chars.len(),
    ensures
        r == skip(chars@, at as int),
        at <= r <= chars.len(),
{
    let mut i: usize = at;
    while i < chars.len() && is_white(chars[i])
        invariant
            at <= i <= chars.len(),
            skip(chars@, at as int) == skip(chars@, i as int),
        decreases chars.len() - i,
    {
        i = i + 1;
    }
    i
}

fn hex_digit(c: char) -> (r: Option<u32>)
    ensures
        r is Some <==> hex(c) >= 0,
        r matches Some(d) ==> d == hex(c) && d < 16,
{
    if '0' <= c && c <= '9' {
        Some(c as u32 - '0' as u32)
    } else if 'a' <= c && c <= 'f' {
        Some(c as u32 - 'a' as u32 + 10)
    } else if 'A' <= c && c <= 'F' {
        Some(c as u32 - 'A' as u32 + 10)
    } else {
        None
    }
}

fn four_hex_digits(chars: &Vec<char>, at: usize) -> (r: Option<u32>)
    requires
        at <= chars.len(),
    ensures
        r is Some <==> hex4(chars@, at as int) is Some,
        r matches Some(code) ==> hex4(chars@, at as int) == Some(code as int) && code <= 0xFFFF
            && at + 4 <= chars.len(),
{
    if chars.len() - at < 4 {
        return None;
    }
    let first = if chars[at] == '+' { Some(0u32) } else { hex_digit(chars[at]) };
    match (first, hex_digit(chars[at + 1]), hex_digit(chars[at + 2]), hex_digit(chars[at + 3])) {
        (Some(a), Some(b), Some(c), Some(d)) => Some(a * 4096 + b * 256 + c * 16 + d),
        _ => None,
    }
}

fn read_escape(chars: &Vec<char>, at: usize) -> (r: Option<(char, usize)>)
    requires
        at <= chars.len(),
    ensures
        match r {
            Some((c, next)) => escape_at(chars@, at as int) == Some((c, next as int)) && at < next
                <= chars.len(),
            None => escape_at(chars@, at as int) is None,
        },
{
    if at >= chars.len() {
        return None;
    }
    match chars[at] {
        '"' => Some(('"', at + 1)),
        '\\' => Some(('\\', at + 1)),
        '/' => Some(('/', at + 1)),
        'n' => Some(('\n', at + 1)),
        'r' => Some(('\r', at + 1)),
        't' => Some(('\t', at + 1)),
        'u' => match four_hex_digits(chars, at + 1) {
            Some(code) => match char::from_u32(code) {
                Some(c) => {
                    proof {
                        vstd::utf8::char_u32_cast(c, code);
                    }
                    Some((c, at + 5))
                },
                None => Some(('\u{fffd}', at + 5)),
            },
            None => None,
        },
        _ => None,
    }
}

/// Reads the string that opens at `at`, and where the text goes on after it.
pub fn parse_string(chars: &Vec<char>, at: usize) -> (r: Option<(String, usize)>)
    requires
        at <= chars.len(),
    ensures
        match r {
            Some((text, end)) => string_at(chars@, at as int) == Some((text@, end as int)) && at
                < end <= chars.len(),
            None => string_at(chars@, at as int) is None,
        },
{
    if at >= chars.len() || chars[at] != '"' {
        return None;
    }
    let mut out = String::new();
    let mut i: usize = at + 1;
    assert(match body_at(chars@, i as int) {
        Some((rest, end)) => Some((out@ + rest, end)) == body_at(chars@, i as int),
        None => true,
    });
    loop
        invariant
            at < i <= chars.len(),
            at < chars.len(),
            chars@[at as int] == '"',
            string_at(chars@, at as int) == (match body_at(chars@, i as int) {
                Some((rest, end)) => Some((out@ + rest, end)),
                None => None,
            }),
        decreases chars.len() - i,
    {
        if i >= chars.len() {
            return None;
        }
        let c = chars[i];
        if c == '"' {
            assert(out@ + Seq::<char>::empty() == out@);
            return Some((out, i + 1));
        }
        let ghost before = out@;
        if c == '\\' {
            match read_escape(chars, i + 1) {
                Some((e, next)) => {
                    out.push(e);
                    proof {
                        if let Some((rest, end)) = body_at(chars@, next as int) {
                            assert(before + (seq![e] + rest) == out@ + rest);
                        }
                    }
                    i = next;
                },
                None => {
                    return None;
                },
            }
        } else {
            out.push(c);
            proof {
                if let Some((rest, end)) = body_at(chars@, i + 1) {
                    assert(before + (seq![c] + rest) == out@ + rest);
                }
            }
            i = i + 1;
        }
    }
}

fn is_number_char(c: char) -> (r: bool)
    ensures
        r == number_char(c),
{
    is_digit(c) || c == '-' || c == '+' || c == '.' || c == 'e' || c == 'E'
}

fn parse_number(chars: &Vec<char>, at: usize) -> (r: Option<(Value, usize)>)
    requires
        at < chars.len(),
    ensures
        match r {
            Some((value, end)) => number_at(chars@, at as int) == Some((json(value), end as int))
                && at < end <= chars.len(),
            None => number_at(chars@, at as int) is None,
        },
{
    let mut i: usize = at;
    while i < chars.len() && is_number_char(chars[i])
        invariant
            at <= i <= chars.len(),
            number_end(chars@, at as int) == number_end(chars@, i as int),
        decreases chars.len() - i,
    {
        i = i + 1;
    }
    let token = slice(chars, at, i);
    match Double::parse(&token) {
        Some(d) => {
            proof {
                number_chars(token@);
            }
            Some((Value::Number(d), i))
        },
        None => None,
    }
}

fn parse_literal(chars: &Vec<char>, at: usize, literal: &str, value: Value) -> (r: Option<
    (Value, usize),
>)
    requires
        at <= chars.len(),
        literal@.len() > 0,
    ensures
        match r {
            Some((v, end)) => literal_at(chars@, at as int, literal@, json(value)) == Some(
                (json(v), end as int),
            ) && at < end <= chars.len(),
            None => literal_at(chars@, at as int, literal@, json(value)) is None,
        },
{
    let word = chars_of(literal);
    if stands_at(chars, at, &word) {
        Some((value, at + word.len()))
    } else {
        None
    }
}

fn parse_value(chars: &Vec<char>, at: usize) -> (r: Option<(Value, usize)>)
    requires
        at <= chars.len(),
    ensures
        match r {
            Some((value, end)) => value_at(chars@, at as int) == Some((json(value), end as int))
                && at < end <= chars.len(),
            None => value_at(chars@, at as int) is None,
        },
    decreases chars.len() - at, 2int,
{
    let i = skip_whitespace(chars, at);
    if i >= chars.len() {
        return None;
    }
    proof {
        reveal_strlit("true");
        reveal_strlit("false");
        reveal_strlit("null");
    }
    match chars[i] {
        '{' => parse_object(chars, i),
        '[' => parse_array(chars, i),
        '"' => match parse_string(chars, i) {
            Some((text, end)) => Some((Value::Text(text), end)),
            None => None,
        },
        't' => parse_literal(chars, i, "true", Value::Bool(true)),
        'f' => parse_literal(chars, i, "false", Value::Bool(false)),
        'n' => parse_literal(chars, i, "null", Value::Null),
        _ => parse_number(chars, i),
    }
}

fn parse_array(chars: &Vec<char>, at: usize) -> (r: Option<(Value, usize)>)
    requires
        at < chars.len(),
        chars@[at as int] == '[',
    ensures
        match r {
            Some((value, end)) => value_at(chars@, at as int) == Some((json(value), end as int))
                && at < end <= chars.len(),
            None => value_at(chars@, at as int) is None,
        },
    decreases chars.len() - at, 1int,
{
    let mut items: Vec<Value> = Vec::new();
    let start = skip_whitespace(chars, at + 1);
    if start < chars.len() && chars[start] == ']' {
        proof {
            json_of_array(items);
            assert(jsons(items@) == Seq::<Json>::empty());
        }
        return Some((Value::Array(items), start + 1));
    }
    let mut i: usize = at + 1;
    proof {
        assert(jsons(items@) == Seq::<Json>::empty());
        if let Some((rest, end)) = elements_at(chars@, i as int) {
            assert(jsons(items@) + rest == rest);
        }
    }
    loop
        invariant
            at < i <= chars.len(),
            at < chars.len(),
            chars@[at as int] == '[',
            !(skip(chars@, at + 1) < chars.len() && chars@[skip(chars@, at + 1)] == ']'),
            elements_at(chars@, at + 1) == (match elements_at(chars@, i as int) {
                Some((rest, end)) => Some((jsons(items@) + rest, end)),
                None => None,
            }),
        decreases chars.len() - i,
    {
        let ghost before = items@;
        match parse_value(chars, i) {
            Some((value, end)) => {
                let j = skip_whitespace(chars, end);
                if j >= chars.len() {
                    return None;
                }
                items.push(value);
                proof {
                    assert(jsons(items@) =~= jsons(before).push(json(value)));
                    assert(jsons(before) + seq![json(value)] =~= jsons(items@));
                    if let Some((rest, end)) = elements_at(chars@, j + 1) {
                        assert(jsons(before) + (seq![json(value)] + rest) =~= jsons(items@) + rest);
                    }
                }
                if chars[j] == ',' {
                    i = j + 1;
                } else if chars[j] == ']' {
                    proof {
                        json_of_array(items);
                    }
                    return Some((Value::Array(items), j + 1));
                } else {
                    return None;
                }
            },
            None => {
                return None;
            },
        }
    }
}

fn parse_object(chars: &Vec<char>, at: usize) -> (r: Option<(Value, usize)>)
    requires
        at < chars.len(),
        chars@[at as int] == '{',
    ensures
        match r {
            Some((value, end)) => value_at(chars@, at as int) == Some((json(value), end as int))
                && at < end <= chars.len(),
            None => value_at(chars@, at as int) is None,
        },
    decreases chars.len() - at, 1int,
{
    let mut pairs: Vec<(String, Value)> = Vec::new();
    let start = skip_whitespace(chars, at + 1);
    if start < chars.len() && chars[start] == '}' {
        proof {
            json_of_object(pairs);
            assert(json_pairs(pairs@) == Seq::<(Seq<char>, Json)>::empty());
        }
        return Some((Value::Object(pairs), start + 1));
    }
    let mut i: usize = at + 1;
    proof {
        assert(json_pairs(pairs@) == Seq::<(Seq<char>, Json)>::empty());
        if let Some((rest, end)) = members_at(chars@, i as int) {
            assert(json_pairs(pairs@) + rest == rest);
        }
    }
    loop
        invariant
            at < i <= chars.len(),
            at < chars.len(),
            chars@[at as int] == '{',
            !(skip(chars@, at + 1) < chars.len() && chars@[skip(chars@, at + 1)] == '}'),
            members_at(chars@, at + 1) == (match members_at(chars@, i as int) {
                Some((rest, end)) => Some((json_pairs(pairs@) + rest, end)),
                None => None,
            }),
        decreases chars.len() - i,
    {
        let ghost before = pairs@;
        let key_at = skip_whitespace(chars, i);
        match parse_string(chars, key_at) {
            Some((key, after_key)) => {
                let colon = skip_whitespace(chars, after_key);
                if colon >= chars.len() || chars[colon] != ':' {
                    return None;
                }
                match parse_value(chars, colon + 1) {
                    Some((value, end)) => {
                        let j = skip_whitespace(chars, end);
                        if j >= chars.len() {
                            return None;
                        }
                        pairs.push((key, value));
                        proof {
                            let pair = (key@, json(value));
                            assert(json_pairs(pairs@) =~= json_pairs(before).push(pair));
                            assert(json_pairs(before) + seq![pair] =~= json_pairs(pairs@));
                            if let Some((rest, end)) = members_at(chars@, j + 1) {
                                assert(json_pairs(before) + (seq![pair] + rest) =~= json_pairs(
                                    pairs@,
                                ) + rest);
                            }
                        }
                        if chars[j] == ',' {
                            i = j + 1;
                        } else if chars[j] == '}' {
                            proof {
                                json_of_object(pairs);
                            }
                            return Some((Value::Object(pairs), j + 1));
                        } else {
                            return None;
                        }
                    },
                    None => {
                        return None;
                    },
                }
            },
            None => {
                return None;
            },
        }
    }
}

/// Parses one JSON value, ignoring anything after it: a message framed by its
/// length is exactly one value with nothing trailing.
pub fn parse(text: &str) -> (r: Option<Value>)
    ensures
        match r {
            Some(value) => parsed(text@) == Some(json(value)),
            None => parsed(text@) is None,
        },
{
    let chars = chars_of(text);
    match parse_value(&chars, 0) {
        Some((value, end)) => Some(value),
        None => None,
    }
}


// --- writing -----------------------------------------------------------------

/// A hexadecimal digit in small letters.
pub open spec fn hex_char(d: int) -> char {
    if d < 10 {
        (48 + d) as char
    } else {
        (87 + d) as char
    }
}

/// How one character stands in a written string.
pub open spec fn escaped_char(c: char) -> Seq<char> {
    if c == '"' {
        seq!['\\', '"']
    } else if c == '\\' {
        seq!['\\', '\\']
    } else if c == '\n' {
        seq!['\\', 'n']
    } else if c == '\r' {
        seq!['\\', 'r']
    } else if c == '\t' {
        seq!['\\', 't']
    } else if (c as u32) < 0x20 {
        seq!['\\', 'u', '0', '0', hex_char((c as u32) as int / 16), hex_char((c as u32) as int % 16)]
    } else {
        seq![c]
    }
}

/// How the characters of a text from index `k` on stand in a written string.
pub open spec fn escaped_from(s: Seq<char>, k: int) -> Seq<char>
    decreases s.len() - k,
{
    if k < 0 || k >= s.len() {
        Seq::empty()
    } else {
        escaped_char(s[k]) + escaped_from(s, k + 1)
    }
}

/// A text written as a JSON string.
pub open spec fn quoted(s: Seq<char>) -> Seq<char> {
    seq!['"'] + (escaped_from(s, 0) + seq!['"'])
}

/// A value written as compact JSON.
pub open spec fn written(value: Json) -> Seq<char>
    decreases value, 0int,
{
    match value {
        Json::Null => "null"@,
        Json::Bool(b) => if b {
            "true"@
        } else {
            "false"@
        },
        Json::Number(d) => double_text(d),
        Json::Text(text) => quoted(text),
        Json::Array(items) => if items.len() == 0 {
            seq!['[', ']']
        } else {
            seq!['['] + elements_text(items, 0)
        },
        Json::Object(pairs) => if pairs.len() == 0 {
            seq!['{', '}']
        } else {
            seq!['{'] + members_text(pairs, 0)
        },
    }
}

/// The elements of an array from index `k` on, with the closing bracket.
pub open spec fn elements_text(items: Seq<Json>, k: int) -> Seq<char>
    decreases items, items.len() - k,
{
    if k < 0 || k >= items.len() {
        Seq::empty()
    } else if k + 1 < items.len() {
        written(items[k]) + (seq![','] + elements_text(items, k + 1))
    } else {
        written(items[k]) + seq![']']
    }
}

/// The members of an object from index `k` on, with the closing brace.
pub open spec fn members_text(pairs: Seq<(Seq<char>, Json)>, k: int) -> Seq<char>
    decreases pairs, pairs.len() - k,
{
    if k < 0 || k >= pairs.len() {
        Seq::empty()
    } else if k + 1 < pairs.len() {
        quoted(pairs[k].0) + (seq![':'] + (written(pairs[k].1) + (seq![','] + members_text(
            pairs,
            k + 1,
        ))))
    } else {
        quoted(pairs[k].0) + (seq![':'] + (written(pairs[k].1) + seq!['}']))
    }
}

/// Five texts in a row, however they are put together.
proof fn in_a_row(a: Seq<char>, b: Seq<char>, c: Seq<char>, d: Seq<char>, e: Seq<char>)
    ensures
        a + (b + (c + (seq![':'] + (d + e)))) == a + b + c + seq![':'] + d + e,
        a + (b + (d + e)) == a + b + d + e,
{
    assert(a + (b + (c + (seq![':'] + (d + e)))) =~= a + b + c + seq![':'] + d + e);
    assert(a + (b + (d + e)) =~= a + b + d + e);
}

/// Appends a text as a JSON string.
pub fn write_escaped(out: &mut String, s: &str)
    ensures
        final(out)@ == old(out)@ + quoted(s@),
{
    let chars = chars_of(s);
    out.push('"');
    let ghost start = out@;
    for i in 0..chars.len()
        invariant
            chars@ == s@,
            out@ + escaped_from(s@, i as int) == start + escaped_from(s@, 0),
    {
        let c = chars[i];
        let ghost before = out@;
        match c {
            '"' => {
                out.push('\\');
                out.push('"');
            },
            '\\' => {
                out.push('\\');
                out.push('\\');
            },
            '\n' => {
                out.push('\\');
                out.push('n');
            },
            '\r' => {
                out.push('\\');
                out.push('r');
            },
            '\t' => {
                out.push('\\');
                out.push('t');
            },
            _ => {
                let code: u32 = c as u32;
                if code < 0x20 {
                    out.push('\\');
                    out.push('u');
                    out.push('0');
                    out.push('0');
                    out.push(hex_char_of((code / 16) as u8));
                    out.push(hex_char_of((code % 16) as u8));
                    assert(out@ =~= before + escaped_char(c));
                } else {
                    out.push(c);
                    assert(out@ =~= before + escaped_char(c));
                }
            },
        }
        proof {
            assert(out@ =~= before + escaped_char(c));
            assert(before + escaped_from(s@, i as int) =~= out@ + escaped_from(s@, i + 1));
        }
    }
    assert(out@ + escaped_from(s@, chars.len() as int) =~= out@);
    out.push('"');
    assert(out@ =~= old(out)@ + quoted(s@));
}

fn hex_char_of(d: u8) -> (c: char)
    requires
        d < 16,
    ensures
        c == hex_char(d as int),
{
    if d < 10 {
        (48 + d) as char
    } else {
        (87 + d) as char
    }
}

/// The first member with a key.
pub open spec fn first_member(pairs: Seq<(Seq<char>, Json)>, key: Seq<char>, from: int) -> Option<
    Json,
>
    decreases pairs.len() - from,
{
    if from < 0 || from >= pairs.len() {
        None
    } else if pairs[from].0 == key {
        Some(pairs[from].1)
    } else {
        first_member(pairs, key, from + 1)
    }
}

/// What an object holds under a key; nothing for any other value.
pub open spec fn member(value: Json, key: Seq<char>) -> Option<Json> {
    match value {
        Json::Object(pairs) => first_member(pairs, key, 0),
        _ => None,
    }
}

impl Value {
    /// An object with these members, in this order.
    pub fn object(pairs: Vec<(&'static str, Value)>) -> (r: Value)
        ensures
            json(r) == Json::Object(
                Seq::new(pairs@.len(), |i: int| (pairs@[i].0@, json(pairs@[i].1))),
            ),
    {
        let ghost given = Seq::new(pairs@.len(), |i: int| (pairs@[i].0@, json(pairs@[i].1)));
        let mut members: Vec<(String, Value)> = Vec::new();
        for pair in it: pairs
            invariant
                it.seq().len() == given.len(),
                forall|i: int|
                    0 <= i < given.len() ==> #[trigger] given[i] == (
                        it.seq()[i].0@,
                        json(it.seq()[i].1),
                    ),
                json_pairs(members@) == given.take(it.index() as int),
        {
            let ghost before = members@;
            let ghost k = it.index() as int;
            members.push((owned(pair.0), pair.1));
            proof {
                assert(given[k] == (pair.0@, json(pair.1)));
                assert(json_pairs(members@) =~= json_pairs(before).push(given[k]));
                assert(given.take(k + 1) =~= given.take(k).push(given[k]));
            }
        }
        proof {
            json_of_object(members);
            assert(given.take(given.len() as int) =~= given);
        }
        Value::Object(members)
    }

    /// The number nearest to a whole one.
    pub fn integer(n: u64) -> (r: Value)
        ensures
            json(r) == Json::Number(double_nearest(n as nat)),
    {
        Value::Number(Double::nearest_to(n))
    }

    /// A text.
    pub fn text(s: &str) -> (r: Value)
        ensures
            json(r) == Json::Text(s@),
    {
        Value::Text(owned(s))
    }

    /// What an object holds under `key`; nothing for any other value.
    pub fn get(&self, key: &str) -> (r: Option<&Value>)
        ensures
            match r {
                Some(value) => member(json(*self), key@) == Some(json(*value)),
                None => member(json(*self), key@) is None,
            },
    {
        match self {
            Value::Object(pairs) => {
                proof {
                    json_of_object(*pairs);
                }
                for i in 0..pairs.len()
                    invariant
                        member(json(*self), key@) == first_member(
                            json_pairs(pairs@),
                            key@,
                            i as int,
                        ),
                {
                    assert(json_pairs(pairs@)[i as int] == (
                        pairs@[i as int].0@,
                        json(pairs@[i as int].1),
                    ));
                    if equal(pairs[i].0.as_str(), key) {
                        return Some(&pairs[i].1);
                    }
                }
                None
            },
            _ => None,
        }
    }

    /// The text of a string.
    pub fn as_str(&self) -> (r: Option<&str>)
        ensures
            match r {
                Some(text) => json(*self) == Json::Text(text@),
                None => !(json(*self) is Text),
            },
    {
        match self {
            Value::Text(text) => Some(text.as_str()),
            _ => None,
        }
    }

    /// The elements of an array.
    pub fn as_array(&self) -> (r: Option<&Vec<Value>>)
        ensures
            match r {
                Some(items) => json(*self) == Json::Array(jsons(items@)),
                None => !(json(*self) is Array),
            },
    {
        match self {
            Value::Array(items) => {
                proof {
                    json_of_array(*items);
                }
                Some(items)
            },
            _ => None,
        }
    }

    /// Appends the value as compact JSON.
    pub fn write(&self, out: &mut String)
        ensures
            final(out)@ == old(out)@ + written(json(*self)),
        decreases self,
    {
        match self {
            Value::Null => out.push_str("null"),
            Value::Bool(b) => if *b {
                out.push_str("true")
            } else {
                out.push_str("false")
            },
            Value::Number(d) => out.push_str(d.to_text().as_str()),
            Value::Text(text) => write_escaped(out, text.as_str()),
            Value::Array(items) => {
                proof {
                    json_of_array(*items);
                }
                out.push('[');
                let ghost start = out@;
                let ghost all = jsons(items@);
                for i in 0..items.len()
                    invariant
                        all == jsons(items@),
                        self matches Value::Array(inner) && inner == items,
                        i < items.len() ==> out@ + (if i > 0 {
                            seq![',']
                        } else {
                            Seq::<char>::empty()
                        } + elements_text(all, i as int)) == start + elements_text(all, 0),
                        i == items.len() && i > 0 ==> out@ + seq![']'] == start + elements_text(
                            all,
                            0,
                        ),
                        i == items.len() && i == 0 ==> out@ == start,
                {
                    let ghost before = out@;
                    if i > 0 {
                        out.push(',');
                    }
                    items[i].write(out);
                    proof {
                        let lead = if i > 0 {
                            seq![',']
                        } else {
                            Seq::<char>::empty()
                        };
                        let value = written(all[i as int]);
                        assert(out@ =~= before + lead + value);
                        let rest = if i + 1 < items.len() {
                            seq![','] + elements_text(all, i + 1)
                        } else {
                            seq![']']
                        };
                        in_a_row(before, lead, Seq::empty(), value, rest);
                    }
                }
                let ghost full = out@;
                out.push(']');
                proof {
                    assert(out@ =~= full + seq![']']);
                    if all.len() > 0 {
                        assert(out@ == start + elements_text(all, 0));
                    }
                    assert(out@ =~= old(out)@ + written(json(*self)));
                }
            },
            Value::Object(pairs) => {
                proof {
                    json_of_object(*pairs);
                }
                out.push('{');
                let ghost start = out@;
                let ghost all = json_pairs(pairs@);
                for i in 0..pairs.len()
                    invariant
                        all == json_pairs(pairs@),
                        self matches Value::Object(inner) && inner == pairs,
                        i < pairs.len() ==> out@ + (if i > 0 {
                            seq![',']
                        } else {
                            Seq::<char>::empty()
                        } + members_text(all, i as int)) == start + members_text(all, 0),
                        i == pairs.len() && i > 0 ==> out@ + seq!['}'] == start + members_text(
                            all,
                            0,
                        ),
                        i == pairs.len() && i == 0 ==> out@ == start,
                {
                    let ghost before = out@;
                    if i > 0 {
                        out.push(',');
                    }
                    write_escaped(out, pairs[i].0.as_str());
                    out.push(':');
                    pairs[i].1.write(out);
                    proof {
                        let lead = if i > 0 {
                            seq![',']
                        } else {
                            Seq::<char>::empty()
                        };
                        let key = quoted(all[i as int].0);
                        let value = written(all[i as int].1);
                        assert(out@ =~= before + lead + key + seq![':'] + value);
                        let rest = if i + 1 < pairs.len() {
                            seq![','] + members_text(all, i + 1)
                        } else {
                            seq!['}']
                        };
                        in_a_row(before, lead, key, value, rest);
                    }
                }
                let ghost full = out@;
                out.push('}');
                proof {
                    assert(out@ =~= full + seq!['}']);
                    if all.len() > 0 {
                        assert(out@ == start + members_text(all, 0));
                    }
                    assert(out@ =~= old(out)@ + written(json(*self)));
                }
            },
        }
    }

    /// The value as compact JSON.
    pub fn to_json_string(&self) -> (r: String)
        ensures
            r@ == written(json(*self)),
    {
        let mut out = String::new();
        self.write(&mut out);
        assert(out@ =~= written(json(*self)));
        out
    }
}


// --- numbers -----------------------------------------------------------------

/// Every number in the value is finite.
pub open spec fn sound(value: Json) -> bool
    decreases value,
{
    match value {
        Json::Number(d) => d.finite(),
        Json::Array(items) => forall|i: int|
            0 <= i < items.len() ==> sound(#[trigger] items[i]),
        Json::Object(pairs) => forall|i: int|
            0 <= i < pairs.len() ==> sound((#[trigger] pairs[i]).1),
        _ => true,
    }
}

impl Value {
    /// A number; `None` for any other value.
    pub fn as_f64(&self) -> (r: Option<Double>)
        ensures
            r == (match json(*self) {
                Json::Number(d) => Some(d),
                _ => None,
            }),
    {
        match self {
            Value::Number(d) => Some(*d),
            _ => None,
        }
    }

    /// The whole part of a number, no less than 0; `None` for any other value.
    pub fn as_u64(&self) -> (r: Option<u64>)
        ensures
            r is Some <==> json(*self) is Number,
            json(*self) matches Json::Number(d) ==> r->0 == truncated(d, u64::MAX as int),
    {
        match self.as_f64() {
            Some(d) => Some(d.as_u64()),
            None => None,
        }
    }

    /// The whole part of a number, no less than 0; `None` for any other value.
    pub fn as_usize(&self) -> (r: Option<usize>)
        ensures
            r is Some <==> json(*self) is Number,
            json(*self) matches Json::Number(d) ==> r->0 == truncated(d, usize::MAX as int),
    {
        match self.as_u64() {
            Some(n) => if n < usize::MAX as u64 {
                Some(n as usize)
            } else {
                Some(usize::MAX)
            },
            None => None,
        }
    }
}

// --- reading back what was written -------------------------------------------

/// A text that stands somewhere stands there piece by piece.
proof fn at_index_splits(s: Seq<char>, at: int, a: Seq<char>, b: Seq<char>)
    requires
        at_index(s, at, a + b),
    ensures
        at_index(s, at, a),
        at_index(s, at + a.len(), b),
        a.len() > 0 ==> s[at] == a[0],
        b.len() > 0 ==> s[at + a.len()] == b[0],
{
    let both = s.subrange(at, at + (a + b).len());
    assert(s.subrange(at, at + a.len()) =~= a) by {
        assert forall|k: int| 0 <= k < a.len() implies s[at + k] == a[k] by {
            assert(both[k] == (a + b)[k]);
        }
    }
    assert(s.subrange(at + a.len(), at + a.len() + b.len()) =~= b) by {
        assert forall|k: int| 0 <= k < b.len() implies s[at + a.len() + k] == b[k] by {
            assert(both[a.len() + k] == (a + b)[a.len() + k]);
        }
    }
    if a.len() > 0 {
        assert(s.subrange(at, at + a.len())[0] == s[at]);
    }
    if b.len() > 0 {
        assert(s.subrange(at + a.len(), at + a.len() + b.len())[0] == s[at + a.len()]);
    }
}

proof fn at_index_chars(s: Seq<char>, at: int, a: Seq<char>)
    requires
        at_index(s, at, a),
    ensures
        forall|k: int| 0 <= k < a.len() ==> s[at + k] == #[trigger] a[k],
{
    assert forall|k: int| 0 <= k < a.len() implies s[at + k] == #[trigger] a[k] by {
        assert(s.subrange(at, at + a.len())[k] == s[at + k]);
    }
}

/// The rest of a string that was written reads back.
proof fn body_reads_back(t: Seq<char>, k: int, s: Seq<char>, at: int)
    requires
        0 <= k <= t.len(),
        at_index(s, at, escaped_from(t, k) + seq!['"']),
    ensures
        body_at(s, at) == Some((t.skip(k), at + escaped_from(t, k).len() + 1)),
    decreases t.len() - k,
{
    if k == t.len() {
        assert(escaped_from(t, k) + seq!['"'] =~= seq!['"']);
        at_index_chars(s, at, seq!['"']);
        assert(seq!['"'][0] == '"');
        assert(t.skip(k) =~= Seq::<char>::empty());
    } else {
        let c = t[k];
        let head = escaped_char(c);
        let rest = escaped_from(t, k + 1) + seq!['"'];
        assert(escaped_from(t, k) + seq!['"'] =~= head + rest);
        at_index_splits(s, at, head, rest);
        at_index_chars(s, at, head);
        body_reads_back(t, k + 1, s, at + head.len());
        assert(seq![c] + t.skip(k + 1) =~= t.skip(k));
        assert(s[at] == head[0]);
        if head.len() > 1 {
            assert(s[at + 1] == head[1]);
            if head.len() == 6 {
                assert(s[at + 2] == head[2]);
                assert(s[at + 3] == head[3]);
                assert(s[at + 4] == head[4]);
                assert(s[at + 5] == head[5]);
                let n = (c as u32) as int;
                assert(hex(hex_char(n / 16)) == n / 16);
                assert(hex(hex_char(n % 16)) == n % 16);
                assert(hex4(s, at + 2) == Some(n));
                vstd::utf8::char_u32_cast(c, c as u32);
                assert(scalar(n) == c);
            }
            assert(escape_at(s, at + 1) == Some((c, at + head.len())));
        }
        assert(body_at(s, at) == prefixed(c, body_at(s, at + head.len())));
    }
}

/// A string that was written reads back.
proof fn string_reads_back(t: Seq<char>, s: Seq<char>, at: int)
    requires
        at_index(s, at, quoted(t)),
    ensures
        string_at(s, at) == Some((t, at + quoted(t).len())),
        s[at] == '"',
{
    at_index_splits(s, at, seq!['"'], escaped_from(t, 0) + seq!['"']);
    body_reads_back(t, 0, s, at + 1);
    assert(t.skip(0) =~= t);
}

proof fn number_ends_there(s: Seq<char>, at: int, end: int)
    requires
        0 <= at <= end <= s.len(),
        forall|k: int| at <= k < end ==> number_char(#[trigger] s[k]),
        end == s.len() || !number_char(s[end]),
    ensures
        number_end(s, at) == end,
    decreases end - at,
{
    if at < end {
        assert(number_char(s[at]));
        number_ends_there(s, at + 1, end);
    }
}

/// What a written value begins with.
proof fn first_char(value: Json)
    requires
        sound(value),
    ensures
        written(value).len() > 0,
        !white(written(value)[0]),
        written(value)[0] != ']',
        written(value)[0] != '}',
{
    reveal_strlit("null");
    reveal_strlit("true");
    reveal_strlit("false");
    match value {
        Json::Number(d) => {
            let text = double_text(d);
            a_double_reads_back(d);
            number_chars(text);
            assert(number_char(text[0]));
        },
        _ => {},
    }
}

/// Whether whatever stands at `at` cannot be part of a number before it.
pub open spec fn ends_number(s: Seq<char>, at: int) -> bool {
    at == s.len() || !number_char(s[at])
}

/// A value that was written reads back, wherever it stands.
proof fn value_reads_back(value: Json, s: Seq<char>, at: int)
    requires
        sound(value),
        at_index(s, at, written(value)),
        ends_number(s, at + written(value).len()),
    ensures
        value_at(s, at) == Some((value, at + written(value).len())),
    decreases value, 0int,
{
    reveal_strlit("null");
    reveal_strlit("true");
    reveal_strlit("false");
    let text = written(value);
    first_char(value);
    at_index_chars(s, at, text);
    assert(s[at] == text[0]);
    assert(skip(s, at) == at);
    match value {
        Json::Null => {},
        Json::Bool(b) => {},
        Json::Number(d) => {
            let t = double_text(d);
            a_double_reads_back(d);
            number_chars(t);
            assert(number_char(t[0]));
            assert(s[at] == t[0]);
            assert forall|k: int| at <= k < at + t.len() implies number_char(#[trigger] s[k]) by {
                assert(s[at + (k - at)] == t[k - at]);
            }
            number_ends_there(s, at, at + t.len());
        },
        Json::Text(t) => {
            string_reads_back(t, s, at);
        },
        Json::Array(items) => {
            if items.len() == 0 {
                assert(text[0] == '[' && text[1] == ']');
                assert(s[at + 1] == ']');
                assert(skip(s, at + 1) == at + 1);
                assert(items =~= Seq::<Json>::empty());
            } else {
                at_index_splits(s, at, seq!['['], elements_text(items, 0));
                assert(sound(items[0]));
                first_char(items[0]);
                at_index_chars(s, at + 1, elements_text(items, 0));
                assert(elements_text(items, 0)[0] == written(items[0])[0]);
                assert(s[at + 1] == elements_text(items, 0)[0]);
                assert(skip(s, at + 1) == at + 1);
                elements_read_back(items, 0, s, at + 1);
                assert(items.skip(0) =~= items);
            }
        },
        Json::Object(pairs) => {
            if pairs.len() == 0 {
                assert(text[0] == '{' && text[1] == '}');
                assert(s[at + 1] == '}');
                assert(skip(s, at + 1) == at + 1);
                assert(pairs =~= Seq::<(Seq<char>, Json)>::empty());
            } else {
                at_index_splits(s, at, seq!['{'], members_text(pairs, 0));
                at_index_chars(s, at + 1, members_text(pairs, 0));
                assert(members_text(pairs, 0)[0] == '"');
                assert(s[at + 1] == members_text(pairs, 0)[0]);
                assert(skip(s, at + 1) == at + 1);
                members_read_back(pairs, 0, s, at + 1);
                assert(pairs.skip(0) =~= pairs);
            }
        },
    }
}

proof fn elements_read_back(items: Seq<Json>, k: int, s: Seq<char>, at: int)
    requires
        0 <= k < items.len(),
        forall|i: int| 0 <= i < items.len() ==> sound(#[trigger] items[i]),
        at_index(s, at, elements_text(items, k)),
    ensures
        elements_at(s, at) == Some((items.skip(k), at + elements_text(items, k).len())),
    decreases items, items.len() - k,
{
    let first = written(items[k]);
    assert(sound(items[k]));
    first_char(items[k]);
    let tail = if k + 1 < items.len() {
        seq![','] + elements_text(items, k + 1)
    } else {
        seq![']']
    };
    assert(elements_text(items, k) =~= first + tail);
    at_index_splits(s, at, first, tail);
    let j = at + first.len();
    assert(s[j] == tail[0]);
    assert(!number_char(s[j]));
    value_reads_back(items[k], s, at);
    assert(skip(s, j) == j);
    if k + 1 < items.len() {
        at_index_splits(s, j, seq![','], elements_text(items, k + 1));
        elements_read_back(items, k + 1, s, j + 1);
        assert(seq![items[k]] + items.skip(k + 1) =~= items.skip(k));
    } else {
        assert(seq![items[k]] =~= items.skip(k));
    }
}

proof fn members_read_back(pairs: Seq<(Seq<char>, Json)>, k: int, s: Seq<char>, at: int)
    requires
        0 <= k < pairs.len(),
        forall|i: int| 0 <= i < pairs.len() ==> sound((#[trigger] pairs[i]).1),
        at_index(s, at, members_text(pairs, k)),
    ensures
        members_at(s, at) == Some((pairs.skip(k), at + members_text(pairs, k).len())),
    decreases pairs, pairs.len() - k,
{
    let key = quoted(pairs[k].0);
    let value = written(pairs[k].1);
    assert(sound(pairs[k].1));
    first_char(pairs[k].1);
    let tail = if k + 1 < pairs.len() {
        seq![','] + members_text(pairs, k + 1)
    } else {
        seq!['}']
    };
    assert(members_text(pairs, k) =~= key + (seq![':'] + (value + tail)));
    at_index_splits(s, at, key, seq![':'] + (value + tail));
    string_reads_back(pairs[k].0, s, at);
    assert(skip(s, at) == at);
    let colon = at + key.len();
    at_index_splits(s, colon, seq![':'], value + tail);
    assert(s[colon] == ':');
    assert(skip(s, colon) == colon);
    at_index_splits(s, colon + 1, value, tail);
    let j = colon + 1 + value.len();
    assert(s[j] == tail[0]);
    assert(!number_char(s[j]));
    value_reads_back(pairs[k].1, s, colon + 1);
    assert(skip(s, j) == j);
    if k + 1 < pairs.len() {
        at_index_splits(s, j, seq![','], members_text(pairs, k + 1));
        members_read_back(pairs, k + 1, s, j + 1);
        assert(seq![pairs[k]] + pairs.skip(k + 1) =~= pairs.skip(k));
    } else {
        assert(seq![pairs[k]] =~= pairs.skip(k));
    }
}

/// Reading what was written gives the value back, for every value whose
/// numbers are finite.
pub proof fn what_is_written_reads_back(value: Json)
    requires
        sound(value),
    ensures
        parsed(written(value)) == Some(value),
{
    let text = written(value);
    assert(text.subrange(0, text.len() as int) =~= text);
    value_reads_back(value, text, 0);
}

// --- members -----------------------------------------------------------------

/// A member is found by its key: the first one that has it, whatever stands
/// around it.
pub proof fn the_first_member_with_a_key_is_found(
    pairs: Seq<(Seq<char>, Json)>,
    key: Seq<char>,
    at: int,
)
    requires
        0 <= at < pairs.len(),
        pairs[at].0 == key,
        forall|j: int| 0 <= j < at ==> (#[trigger] pairs[j]).0 != key,
    ensures
        member(Json::Object(pairs), key) == Some(pairs[at].1),
{
    first_member_is(pairs, key, 0, at);
}

proof fn first_member_is(pairs: Seq<(Seq<char>, Json)>, key: Seq<char>, from: int, at: int)
    requires
        0 <= from <= at < pairs.len(),
        pairs[at].0 == key,
        forall|j: int| from <= j < at ==> (#[trigger] pairs[j]).0 != key,
    ensures
        first_member(pairs, key, from) == Some(pairs[at].1),
    decreases at - from,
{
    if from < at {
        assert(pairs[from].0 != key);
        first_member_is(pairs, key, from + 1, at);
    }
}

/// A key that no member has finds nothing, and neither does any key in a value
/// that is no object.
pub proof fn a_missing_key_finds_nothing(value: Json, key: Seq<char>)
    requires
        value matches Json::Object(pairs) ==> forall|j: int|
            0 <= j < pairs.len() ==> (#[trigger] pairs[j]).0 != key,
    ensures
        member(value, key) is None,
{
    if let Json::Object(pairs) = value {
        no_member_from(pairs, key, 0);
    }
}

proof fn no_member_from(pairs: Seq<(Seq<char>, Json)>, key: Seq<char>, from: int)
    requires
        0 <= from,
        forall|j: int| 0 <= j < pairs.len() ==> (#[trigger] pairs[j]).0 != key,
    ensures
        first_member(pairs, key, from) is None,
    decreases pairs.len() - from,
{
    if from < pairs.len() {
        assert(pairs[from].0 != key);
        no_member_from(pairs, key, from + 1);
    }
}

// --- reading -----------------------------------------------------------------

proof fn white_is_skipped(s: Seq<char>, at: int, end: int)
    requires
        0 <= at <= end < s.len(),
        forall|i: int| at <= i < end ==> white(#[trigger] s[i]),
        !white(s[end]),
    ensures
        skip(s, at) == end,
    decreases end - at,
{
    if at < end {
        white_is_skipped(s, at + 1, end);
    }
}

/// A value is read from wherever it stands: white space before it and whatever
/// comes after it make no difference, as long as that does not go on with a
/// number.
pub proof fn a_value_is_read_where_it_stands(pad: Seq<char>, value: Json, rest: Seq<char>)
    requires
        sound(value),
        forall|i: int| 0 <= i < pad.len() ==> white(#[trigger] pad[i]),
        rest.len() > 0 ==> !number_char(rest[0]),
    ensures
        parsed(pad + written(value) + rest) == Some(value),
{
    let text = written(value);
    let s = pad + text + rest;
    let n = pad.len() as int;
    first_char(value);
    assert(s.subrange(n, n + text.len()) =~= text);
    assert(at_index(s, n, text));
    if rest.len() > 0 {
        assert(s[n + text.len()] == rest[0]);
    }
    value_reads_back(value, s, n);
    assert(s[n] == text[0]);
    assert forall|i: int| 0 <= i < n implies white(#[trigger] s[i]) by {
        assert(s[i] == pad[i]);
    }
    white_is_skipped(s, 0, n);
    white_is_skipped(s, n, n);
}

/// An escape stands for the character it names: the quote, the backslash and
/// the slash for themselves, three letters for the ends of a line and the
/// tab. Anything else but a code is no escape.
pub proof fn an_escape_names_its_character(s: Seq<char>, at: int)
    requires
        0 <= at < s.len(),
        s[at] != 'u',
    ensures
        s[at] == '"' ==> escape_at(s, at) == Some(('"', at + 1)),
        s[at] == '\\' ==> escape_at(s, at) == Some(('\\', at + 1)),
        s[at] == '/' ==> escape_at(s, at) == Some(('/', at + 1)),
        s[at] == 'n' ==> escape_at(s, at) == Some(('\n', at + 1)),
        s[at] == 'r' ==> escape_at(s, at) == Some(('\r', at + 1)),
        s[at] == 't' ==> escape_at(s, at) == Some(('\t', at + 1)),
        !seq!['"', '\\', '/', 'n', 'r', 't'].contains(s[at]) ==> escape_at(s, at) is None,
{
    let known = seq!['"', '\\', '/', 'n', 'r', 't'];
    assert(known[0] == '"' && known[1] == '\\' && known[2] == '/' && known[3] == 'n' && known[4]
        == 'r' && known[5] == 't');
}

/// A code of four hexadecimal digits stands for the character it numbers, and
/// half of a pair for the replacement character.
pub proof fn a_code_names_its_character(s: Seq<char>, at: int, a: int, b: int, c: int, d: int)
    requires
        0 <= at,
        at + 5 <= s.len(),
        s[at] == 'u',
        0 <= a < 16,
        0 <= b < 16,
        0 <= c < 16,
        0 <= d < 16,
        s[at + 1] == hex_char(a),
        s[at + 2] == hex_char(b),
        s[at + 3] == hex_char(c),
        s[at + 4] == hex_char(d),
    ensures
        ({
            let code = a * 4096 + b * 256 + c * 16 + d;
            &&& code < 0xD800 || code >= 0xE000 ==> escape_at(s, at) == Some(
                (code as char, at + 5),
            )
            &&& 0xD800 <= code < 0xE000 ==> escape_at(s, at) == Some(('\u{fffd}', at + 5))
        }),
{
    hex_reads_back(a);
    hex_reads_back(b);
    hex_reads_back(c);
    hex_reads_back(d);
}

proof fn hex_reads_back(d: int)
    requires
        0 <= d < 16,
    ensures
        hex(hex_char(d)) == d,
        hex_char(d) != '+',
{
}

/// A text that never closes its quote is no string.
pub proof fn a_string_has_to_close(s: Seq<char>, at: int)
    requires
        0 <= at,
        forall|i: int| at < i < s.len() ==> #[trigger] s[i] != '"',
    ensures
        string_at(s, at) is None,
{
    no_body_without_a_quote(s, at + 1);
}

proof fn no_body_without_a_quote(s: Seq<char>, at: int)
    requires
        0 <= at,
        forall|i: int| at <= i < s.len() ==> #[trigger] s[i] != '"',
    ensures
        body_at(s, at) is None,
    decreases s.len() - at,
{
    if at < s.len() {
        if s[at] == '\\' {
            match escape_at(s, at + 1) {
                Some((c, next)) => {
                    if at < next {
                        no_body_without_a_quote(s, next);
                    }
                },
                None => {},
            }
        } else {
            no_body_without_a_quote(s, at + 1);
        }
    }
}

/// An empty text holds no value.
pub proof fn an_empty_text_holds_no_value(s: Seq<char>)
    requires
        s.len() == 0,
    ensures
        parsed(s) is None,
{
}

} // verus!
