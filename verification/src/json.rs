//! JSON text: what the service writes by hand, and that what is written tells values apart.

use vstd::prelude::*;

use crate::number::{decimal_text, signed_text};
use crate::text::{join_texts, texts};

verus! {

/// The hexadecimal digit of `d`, in small letters.
pub open spec fn hex_char(d: int) -> char {
    if d < 10 {
        (48 + d) as u8 as char
    } else {
        (87 + d) as u8 as char
    }
}

/// How `c` is written inside a JSON string: quote, backslash and control characters are escaped.
pub open spec fn escape_char(c: char) -> Seq<char> {
    let n = c as u32 as int;
    if c == '"' || c == '\\' {
        seq!['\\', c]
    } else if n == 0x8 {
        seq!['\\', 'b']
    } else if n == 0x9 {
        seq!['\\', 't']
    } else if n == 0xa {
        seq!['\\', 'n']
    } else if n == 0xc {
        seq!['\\', 'f']
    } else if n == 0xd {
        seq!['\\', 'r']
    } else if n < 0x20 {
        seq!['\\', 'u', '0', '0', hex_char(n / 16), hex_char(n % 16)]
    } else {
        seq![c]
    }
}

/// The inside of the JSON string of `s`.
pub open spec fn escaped(s: Seq<char>) -> Seq<char>
    decreases s.len(),
{
    if s.len() == 0 {
        Seq::empty()
    } else {
        escape_char(s[0]) + escaped(s.drop_first())
    }
}

/// The JSON string of `s`.
pub open spec fn json_string(s: Seq<char>) -> Seq<char> {
    seq!['"'] + escaped(s) + seq!['"']
}

/// The JSON text for nothing.
pub open spec fn json_null() -> Seq<char> {
    seq!['n', 'u', 'l', 'l']
}

/// The JSON text of `b`.
pub open spec fn json_bool(b: bool) -> Seq<char> {
    if b {
        seq!['t', 'r', 'u', 'e']
    } else {
        seq!['f', 'a', 'l', 's', 'e']
    }
}

/// The JSON string of what is there, or `null`.
pub open spec fn json_opt_string(o: Option<Seq<char>>) -> Seq<char> {
    match o {
        Some(s) => json_string(s),
        None => json_null(),
    }
}

/// The integer that is there, or `null`.
pub open spec fn json_opt_integer(o: Option<int>) -> Seq<char> {
    match o {
        Some(n) => crate::number::integer_text(n),
        None => json_null(),
    }
}

/// The JSON strings of `s`.
pub open spec fn json_strings(s: Seq<Seq<char>>) -> Seq<Seq<char>> {
    s.map_values(|t: Seq<char>| json_string(t))
}

/// The JSON array of the values whose texts are `items`.
pub open spec fn json_array(items: Seq<Seq<char>>) -> Seq<char> {
    seq!['['] + crate::text::join(items, seq![',']) + seq![']']
}

/// A member of a JSON object: its name, which needs no escape, and the text of its value.
pub open spec fn json_member(name: Seq<char>, value: Seq<char>) -> Seq<char> {
    seq!['"'] + name + seq!['"', ':'] + value
}

/// The JSON object of `members`.
pub open spec fn json_object(members: Seq<Seq<char>>) -> Seq<char> {
    seq!['{'] + crate::text::join(members, seq![',']) + seq!['}']
}

/// The integer as a number without bounds.
pub open spec fn opt_i64(o: Option<i64>) -> Option<int> {
    match o {
        Some(n) => Some(n as int),
        None => None,
    }
}

/// The integer as a number without bounds.
pub open spec fn opt_u64(o: Option<u64>) -> Option<int> {
    match o {
        Some(n) => Some(n as int),
        None => None,
    }
}

/// `serde_json::to_string` on a `str`: the JSON string, with the escapes of `escape_char` and no
/// others. It cannot fail on a `str`.
#[verifier::external_body]
pub(crate) fn string_text(s: &str) -> (r: String)
    ensures
        r@ == json_string(s@),
{
    serde_json::to_string(s).expect("a string is serializable")
}

/// The JSON string of what is there, or `null`.
pub(crate) fn opt_string_text(o: &Option<String>) -> (r: String)
    ensures
        r@ == json_opt_string(crate::text::opt_text(*o)),
{
    match o {
        Some(s) => string_text(s.as_str()),
        None => null_text(),
    }
}

/// `null`.
pub(crate) fn null_text() -> (r: String)
    ensures
        r@ == json_null(),
{
    proof {
        reveal_strlit("null");
        assert("null"@ == json_null());
    }
    "null".to_string()
}

/// The JSON text of `b`.
pub(crate) fn bool_text(b: bool) -> (r: String)
    ensures
        r@ == json_bool(b),
{
    proof {
        reveal_strlit("true");
        reveal_strlit("false");
        assert("true"@ == json_bool(true));
        assert("false"@ == json_bool(false));
    }
    if b {
        "true".to_string()
    } else {
        "false".to_string()
    }
}

/// The integer that is there, or `null`.
pub(crate) fn opt_i64_text(o: Option<i64>) -> (r: String)
    ensures
        r@ == json_opt_integer(opt_i64(o)),
{
    match o {
        Some(n) => signed_text(n),
        None => null_text(),
    }
}

/// The integer that is there, or `null`.
pub(crate) fn opt_u64_text(o: Option<u64>) -> (r: String)
    ensures
        r@ == json_opt_integer(opt_u64(o)),
{
    match o {
        Some(n) => decimal_text(n),
        None => null_text(),
    }
}

/// The JSON array of the strings `v`.
pub(crate) fn string_array_text(v: &Vec<String>) -> (r: String)
    ensures
        r@ == json_array(json_strings(texts(v@))),
{
    let mut items: Vec<String> = Vec::new();
    for i in 0..v.len()
        invariant
            texts(items@) == json_strings(texts(v@).take(i as int)),
    {
        let ghost before = texts(items@);
        items.push(string_text(v[i].as_str()));
        assert(texts(items@) == before.push(json_string(v@[i as int]@)));
        assert(texts(v@).take(i + 1) == texts(v@).take(i as int).push(v@[i as int]@));
        assert(json_strings(texts(v@).take(i + 1)) == json_strings(texts(v@).take(i as int)).push(
            json_string(v@[i as int]@),
        ));
    }
    assert(texts(v@).take(v@.len() as int) == texts(v@));
    array_text(&items)
}

/// The JSON array of the values whose texts are `items`.
pub(crate) fn array_text(items: &Vec<String>) -> (r: String)
    ensures
        r@ == json_array(texts(items@)),
{
    enclosed("[", items, "]")
}

/// `parts` with commas between them, between `open` and `close`.
fn enclosed(open: &str, parts: &Vec<String>, close: &str) -> (r: String)
    ensures
        r@ == open@ + crate::text::join(texts(parts@), seq![',']) + close@,
        open@ == "["@ && close@ == "]"@ ==> r@ == json_array(texts(parts@)),
        open@ == "{"@ && close@ == "}"@ ==> r@ == json_object(texts(parts@)),
{
    let comma = ",";
    proof {
        reveal_strlit(",");
        reveal_strlit("[");
        reveal_strlit("]");
        reveal_strlit("{");
        reveal_strlit("}");
        assert(comma@ == seq![',']);
        assert("["@ == seq!['[']);
        assert("]"@ == seq![']']);
        assert("{"@ == seq!['{']);
        assert("}"@ == seq!['}']);
    }
    let mut r = open.to_string();
    r.append(join_texts(parts, comma).as_str());
    r.append(close);
    r
}

/// The member `name` with the value whose text is `value`.
pub(crate) fn member_text(name: &str, value: &str) -> (r: String)
    ensures
        r@ == json_member(name@, value@),
{
    let mut r = String::new();
    r.push('"');
    r.append(name);
    r.push('"');
    r.push(':');
    r.append(value);
    assert(r@ == json_member(name@, value@));
    r
}

/// The JSON object of `members`.
pub(crate) fn object_text(members: &Vec<String>) -> (r: String)
    ensures
        r@ == json_object(texts(members@)),
{
    enclosed("{", members, "}")
}

} // verus!
