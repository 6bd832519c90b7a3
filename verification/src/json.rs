//! JSON as the server reads it from requests and writes it into responses.
//!
//! Requests are parsed with `serde_json` into [`JsonValue`] ([`parse_json`]);
//! the library reads fields from it and writes values back as compact JSON
//! text (as `serde_json` writes them: no spaces, object members in their
//! given order, strings escaped by `serde_json`).
use vstd::prelude::*;
use vstd::string::StringSliceAdditionalSpecFns;

verus! {

/// The lower-case hexadecimal digit of `d`, for `0 <= d < 16`.
pub open spec fn hex_digit(d: int) -> char {
    if d < 10 {
        (48 + d) as char
    } else {
        (87 + d) as char
    }
}

/// How `serde_json` writes the character `c` inside a JSON string: `"` and
/// `\` behind a backslash; backspace, tab, line feed, form feed and carriage
/// return as `\b`, `\t`, `\n`, `\f`, `\r`; the other control characters
/// below U+0020 as `\u00` and two hexadecimal digits; every other character
/// as it is.
pub open spec fn escaped_char(c: char) -> Seq<char> {
    if c == '"' {
        seq!['\\', '"']
    } else if c == '\\' {
        seq!['\\', '\\']
    } else if c == '\u{8}' {
        seq!['\\', 'b']
    } else if c == '\t' {
        seq!['\\', 't']
    } else if c == '\n' {
        seq!['\\', 'n']
    } else if c == '\u{c}' {
        seq!['\\', 'f']
    } else if c == '\r' {
        seq!['\\', 'r']
    } else if (c as int) < 0x20 {
        seq!['\\', 'u', '0', '0', hex_digit(c as int / 16), hex_digit(c as int % 16)]
    } else {
        seq![c]
    }
}

/// The characters of `s`, each as `serde_json` writes it inside a string.
pub open spec fn escaped(s: Seq<char>) -> Seq<char>
    decreases s.len(),
{
    if s.len() == 0 {
        Seq::empty()
    } else {
        escaped(s.drop_last()) + escaped_char(s.last())
    }
}

/// The JSON string literal that `serde_json` writes for the text `s`: its
/// characters escaped, between double quotes.
pub open spec fn json_quoted(s: Seq<char>) -> Seq<char> {
    seq!['"'] + escaped(s) + seq!['"']
}

/// What `serde_json` makes of the text `s` when it parses it as a JSON value
/// and writes that value back compactly: `Ok` with the compact text, or `Err`
/// with the message of the parse error.
pub uninterp spec fn json_normalized(s: Seq<char>) -> Result<Seq<char>, Seq<char>>;

/// Writes `s` as a JSON string literal with `serde_json::to_string`, which
/// quotes it and escapes it as [`escaped_char`] says (`serde_json`'s
/// `format_escaped_str` and its `ESCAPE` table). Serialising a `str` into
/// memory does not fail in `serde_json` (its writer is a `Vec<u8>`), so the
/// fallback is never taken.
#[verifier::external_body]
pub(crate) fn quote_json(s: &str) -> (r: String)
    ensures
        r@ == json_quoted(s@),
{
    serde_json::to_string(s).unwrap_or_default()
}

/// Parses `s` with `serde_json::from_str` as a `serde_json::Value` and, where
/// that succeeds, writes the value back with `serde_json::to_string`; where it
/// fails, gives the parse error's message. The contract claims only that the
/// outcome is a function of `s` (named [`json_normalized`]).
#[verifier::external_body]
pub(crate) fn normalize_json(s: &str) -> (r: Result<String, String>)
    ensures
        match r {
            Ok(t) => json_normalized(s@) == Ok::<Seq<char>, Seq<char>>(t@),
            Err(e) => json_normalized(s@) == Err::<Seq<char>, Seq<char>>(e@),
        },
{
    match serde_json::from_str::<serde_json::Value>(s) {
        Ok(v) => Ok(serde_json::to_string(&v).unwrap_or_default()),
        Err(e) => Err(e.to_string()),
    }
}

/// Appends `c` to `s` with `String::push`.
#[verifier::external_body]
pub(crate) fn push_char(s: &mut String, c: char)
    ensures
        final(s)@ == old(s)@.push(c),
{
    s.push(c);
}

/// Whether two texts are equal.
pub fn text_eq(a: &str, b: &str) -> (r: bool)
    ensures
        r == (a@ == b@),
{
    let x = a.as_bytes();
    let y = b.as_bytes();
    let r = crate::uri::same_bytes(x, y);
    proof {
        vstd::utf8::encode_utf8_decode_utf8(a@);
        vstd::utf8::encode_utf8_decode_utf8(b@);
    }
    r
}

/// A JSON number: its JSON text, and its value where it is a non-negative
/// integer that fits in a `u64` (as `serde_json::Value::as_u64` reads it).
pub struct JsonNumber {
    pub text: String,
    pub unsigned: Option<u64>,
}

/// One member of a JSON object.
pub struct JsonMember {
    pub key: String,
    pub value: JsonValue,
}

/// A JSON value.
pub enum JsonValue {
    Null,
    Bool(bool),
    Number(JsonNumber),
    Str(String),
    Array(Vec<JsonValue>),
    Object(Vec<JsonMember>),
}

#[verifier::external_type_specification]
#[verifier::external_body]
pub struct ExJsonDocument(serde_json::Value);

/// `n` is read as `serde_json` reads the number that it writes as
/// `n.text`: as the `u64` whose decimal text that is, where there is one.
pub open spec fn number_read(n: JsonNumber) -> bool {
    match n.unsigned {
        Some(k) => n.text@ == decimal(k as nat),
        None => forall|k: u64| n.text@ != #[trigger] decimal(k as nat),
    }
}

/// Every number in `v` is read as its text says (see [`number_read`]).
pub open spec fn numbers_read(v: JsonValue) -> bool
    decreases v,
{
    match v {
        JsonValue::Number(n) => number_read(n),
        JsonValue::Array(items) => items_numbers_read(items@),
        JsonValue::Object(members) => members_numbers_read(members@),
        _ => true,
    }
}

/// Every number in `items` is read as its text says.
pub open spec fn items_numbers_read(items: Seq<JsonValue>) -> bool
    decreases items,
{
    if items.len() == 0 {
        true
    } else {
        items_numbers_read(items.subrange(0, items.len() - 1)) && numbers_read(
            items[items.len() - 1],
        )
    }
}

/// Every number in the values of `members` is read as its text says.
pub open spec fn members_numbers_read(members: Seq<JsonMember>) -> bool
    decreases members,
{
    if members.len() == 0 {
        true
    } else {
        members_numbers_read(members.subrange(0, members.len() - 1)) && numbers_read(
            members[members.len() - 1].value,
        )
    }
}

/// Converts a `serde_json::Value` to a [`JsonValue`], variant for variant; a
/// number keeps the text that `serde_json` writes for it and its
/// `as_u64` reading. Nothing is claimed of it alone: [`parse_json`] states
/// what its result is.
#[verifier::external_body]
fn json_value_of(value: &serde_json::Value) -> JsonValue {
    match value {
        serde_json::Value::Null => JsonValue::Null,
        serde_json::Value::Bool(b) => JsonValue::Bool(*b),
        serde_json::Value::Number(n) => JsonValue::Number(JsonNumber { text: n.to_string(), unsigned: n.as_u64() }),
        serde_json::Value::String(s) => JsonValue::Str(s.clone()),
        serde_json::Value::Array(items) => JsonValue::Array(items.iter().map(json_value_of).collect()),
        serde_json::Value::Object(members) => JsonValue::Object(
            members.iter().map(|(k, v)| JsonMember { key: k.clone(), value: json_value_of(v) }).collect(),
        ),
    }
}

/// Parses `text` with `serde_json::from_str` as a `serde_json::Value` and
/// converts it to a [`JsonValue`]; where parsing fails, gives the parse
/// error's message. The contract claims that the value, written back as
/// [`json_text`] writes it, is the compact text that [`json_normalized`]
/// names for `text`, that a failure's message is the one it names, and that
/// each number carries the `u64` that its text spells, if any (`serde_json`
/// reads a number as a `u64` exactly where it writes it as plain digits; it
/// writes the others with a sign, a point or an exponent).
#[verifier::external_body]
pub(crate) fn parse_json(text: &str) -> (r: Result<JsonValue, String>)
    ensures
        match r {
            Ok(v) => json_normalized(text@) == Ok::<Seq<char>, Seq<char>>(json_text(v))
                && numbers_read(v),
            Err(e) => json_normalized(text@) == Err::<Seq<char>, Seq<char>>(e@),
        },
{
    match serde_json::from_str::<serde_json::Value>(text) {
        Ok(v) => Ok(json_value_of(&v)),
        Err(e) => Err(e.to_string()),
    }
}

/// The compact JSON text of `v`.
pub open spec fn json_text(v: JsonValue) -> Seq<char>
    decreases v,
{
    match v {
        JsonValue::Null => "null"@,
        JsonValue::Bool(b) => if b {
            "true"@
        } else {
            "false"@
        },
        JsonValue::Number(n) => n.text@,
        JsonValue::Str(s) => json_quoted(s@),
        JsonValue::Array(items) => "["@ + items_text(items@) + "]"@,
        JsonValue::Object(members) => "{"@ + members_text(members@) + "}"@,
    }
}

/// The texts of `items`, separated by commas.
pub open spec fn items_text(items: Seq<JsonValue>) -> Seq<char>
    decreases items,
{
    if items.len() == 0 {
        Seq::empty()
    } else if items.len() == 1 {
        json_text(items[0])
    } else {
        items_text(items.subrange(0, items.len() - 1)) + ","@ + json_text(items[items.len() - 1])
    }
}

/// The texts of `members` as `"key":value`, separated by commas.
pub open spec fn members_text(members: Seq<JsonMember>) -> Seq<char>
    decreases members,
{
    if members.len() == 0 {
        Seq::empty()
    } else if members.len() == 1 {
        json_quoted(members[0].key@) + ":"@ + json_text(members[0].value)
    } else {
        members_text(members.subrange(0, members.len() - 1)) + ","@ + json_quoted(
            members[members.len() - 1].key@,
        ) + ":"@ + json_text(members[members.len() - 1].value)
    }
}


/// Appends the compact JSON text of `v` to `out`.
pub fn write_json(v: &JsonValue, out: &mut String)
    ensures
        final(out)@ == old(out)@ + json_text(*v),
    decreases v,
{
    match v {
        JsonValue::Null => out.append("null"),
        JsonValue::Bool(b) => {
            if *b {
                out.append("true");
            } else {
                out.append("false");
            }
        },
        JsonValue::Number(n) => out.append(n.text.as_str()),
        JsonValue::Str(s) => {
            let q = quote_json(s.as_str());
            out.append(q.as_str());
        },
        JsonValue::Array(items) => {
            let ghost start = out@;
            out.append("[");
            let mut i: usize = 0;
            while i < items.len()
                invariant
                    i <= items@.len(),
                    *v == JsonValue::Array(*items),
                    out@ == start + "["@ + items_text(items@.subrange(0, i as int)),
                decreases items@.len() - i,
            {
                let ghost before = out@;
                if i > 0 {
                    out.append(",");
                }
                proof {
                    assert(decreases_to!(*v => (*v)->Array_0));
                    assert(decreases_to!((*v)->Array_0 => (*v)->Array_0@));
                    assert(decreases_to!(items@ => items@[i as int]));
                }
                write_json(&items[i], out);
                proof {
                    let next = items@.subrange(0, i + 1);
                    assert(next.subrange(0, next.len() - 1) =~= items@.subrange(0, i as int));
                    assert(next[next.len() - 1] == items@[i as int]);
                    if i == 0 {
                        assert(items@.subrange(0, 0) =~= Seq::<JsonValue>::empty());
                        assert(before =~= start + "["@);
                    }
                }
                i = i + 1;
            }
            assert(items@.subrange(0, items@.len() as int) =~= items@);
            out.append("]");
        },
        JsonValue::Object(members) => {
            let ghost start = out@;
            out.append("{");
            let mut i: usize = 0;
            while i < members.len()
                invariant
                    i <= members@.len(),
                    *v == JsonValue::Object(*members),
                    out@ == start + "{"@ + members_text(members@.subrange(0, i as int)),
                decreases members@.len() - i,
            {
                let ghost before = out@;
                if i > 0 {
                    out.append(",");
                }
                let m = &members[i];
                let q = quote_json(m.key.as_str());
                out.append(q.as_str());
                out.append(":");
                proof {
                    assert(decreases_to!(*v => (*v)->Object_0));
                    assert(decreases_to!((*v)->Object_0 => (*v)->Object_0@));
                    assert(decreases_to!(members@ => members@[i as int]));
                    assert(decreases_to!(members@[i as int] => members@[i as int].value));
                }
                write_json(&m.value, out);
                proof {
                    let next = members@.subrange(0, i + 1);
                    assert(next.subrange(0, next.len() - 1) =~= members@.subrange(0, i as int));
                    assert(next[next.len() - 1] == members@[i as int]);
                    if i == 0 {
                        assert(members@.subrange(0, 0) =~= Seq::<JsonMember>::empty());
                        assert(before =~= start + "{"@);
                    }
                }
                i = i + 1;
            }
            assert(members@.subrange(0, members@.len() as int) =~= members@);
            out.append("}");
        },
    }
}

/// The compact JSON text of `v`.
pub fn to_json_text(v: &JsonValue) -> (r: String)
    ensures
        r@ == json_text(*v),
{
    let mut out = String::new();
    write_json(v, &mut out);
    assert(out@ =~= json_text(*v));
    out
}


/// The value of the first member of `members`, from index `i` on, whose key is `key`.
pub open spec fn member_from(members: Seq<JsonMember>, key: Seq<char>, i: int) -> Option<JsonValue>
    decreases members.len() - i,
{
    if i < 0 || i >= members.len() {
        None
    } else if members[i].key@ == key {
        Some(members[i].value)
    } else {
        member_from(members, key, i + 1)
    }
}

/// The member `key` of `v` where `v` is an object that has one (`value.get(key)`).
pub open spec fn json_get(v: JsonValue, key: Seq<char>) -> Option<JsonValue> {
    match v {
        JsonValue::Object(members) => member_from(members@, key, 0),
        _ => None,
    }
}

/// The text of `v` where it is a JSON string (`value.as_str()`).
pub open spec fn json_as_str(v: Option<JsonValue>) -> Option<Seq<char>> {
    match v {
        Some(JsonValue::Str(s)) => Some(s@),
        _ => None,
    }
}

/// The integer of `v` where it is a non-negative integer within `u64` (`value.as_u64()`).
pub open spec fn json_as_u64(v: Option<JsonValue>) -> Option<u64> {
    match v {
        Some(JsonValue::Number(n)) => n.unsigned,
        _ => None,
    }
}

/// The member `key` of `v`, where `v` is an object that has one.
pub fn get_member<'a>(v: &'a JsonValue, key: &str) -> (r: Option<&'a JsonValue>)
    ensures
        match r {
            Some(x) => json_get(*v, key@) == Some(*x),
            None => json_get(*v, key@) is None,
        },
{
    match v {
        JsonValue::Object(members) => {
            let mut i: usize = 0;
            while i < members.len()
                invariant
                    i <= members@.len(),
                    *v == JsonValue::Object(*members),
                    member_from(members@, key@, 0) == member_from(members@, key@, i as int),
                decreases members@.len() - i,
            {
                if text_eq(members[i].key.as_str(), key) {
                    assert(member_from(members@, key@, i as int) == Some(members@[i as int].value));
                    return Some(&members[i].value);
                }
                i = i + 1;
            }
            None
        },
        _ => None,
    }
}

/// The value that `v` refers to, if any.
pub open spec fn opt_value(v: Option<&JsonValue>) -> Option<JsonValue> {
    match v {
        Some(x) => Some(*x),
        None => None,
    }
}

/// The text of `v` where it is a JSON string.
pub fn as_str_value<'a>(v: Option<&'a JsonValue>) -> (r: Option<&'a str>)
    ensures
        match r {
            Some(s) => json_as_str(opt_value(v)) == Some(s@),
            None => json_as_str(opt_value(v)) is None,
        },
{
    match v {
        Some(JsonValue::Str(s)) => Some(s.as_str()),
        _ => None,
    }
}

/// The integer of `v` where it is a non-negative integer within `u64`.
pub fn as_u64_value(v: Option<&JsonValue>) -> (r: Option<u64>)
    ensures
        r == json_as_u64(opt_value(v)),
{
    match v {
        Some(JsonValue::Number(n)) => n.unsigned,
        _ => None,
    }
}

/// The digit character for `d` (below 10).
pub open spec fn digit_char(d: int) -> char {
    (48 + d) as char
}

/// The decimal text of `n`, without leading zeros.
pub open spec fn decimal(n: nat) -> Seq<char>
    decreases n,
{
    if n < 10 {
        seq![digit_char(n as int)]
    } else {
        decimal(n / 10).push(digit_char((n % 10) as int))
    }
}

/// The decimal text of `n`, with a leading `-` where it is negative.
pub open spec fn signed_decimal(n: int) -> Seq<char> {
    if n < 0 {
        seq!['-'] + decimal((-n) as nat)
    } else {
        decimal(n as nat)
    }
}

/// Appends the decimal text of `n` to `out`.
pub fn write_decimal(n: u64, out: &mut String)
    ensures
        final(out)@ == old(out)@ + decimal(n as nat),
    decreases n,
{
    if n >= 10 {
        write_decimal(n / 10, out);
    }
    let d = (n % 10) as u8;
    push_char(out, (48u8 + d) as char);
    assert(((48u8 + d) as char) == digit_char((n % 10) as int));
    if n < 10 {
        assert(old(out)@ + decimal(n as nat) =~= old(out)@.push(digit_char(n as int)));
    } else {
        assert(old(out)@ + decimal(n as nat) =~= (old(out)@ + decimal((n / 10) as nat)).push(
            digit_char((n % 10) as int),
        ));
    }
}

/// The decimal text of `n`.
pub fn decimal_text(n: u64) -> (r: String)
    ensures
        r@ == decimal(n as nat),
{
    let mut out = String::new();
    write_decimal(n, &mut out);
    assert(out@ =~= decimal(n as nat));
    out
}

/// Appends the decimal text of `n`, with a `-` where it is negative, to `out`.
pub fn write_signed_decimal(n: i32, out: &mut String)
    ensures
        final(out)@ == old(out)@ + signed_decimal(n as int),
{
    if n < 0 {
        push_char(out, '-');
        let m: i64 = n as i64;
        let magnitude: u64 = (-m) as u64;
        write_decimal(magnitude, out);
        assert(old(out)@.push('-') + decimal(magnitude as nat) =~= old(out)@ + (seq!['-']
            + decimal(magnitude as nat)));
    } else {
        write_decimal(n as u64, out);
    }
}

}
