//! What JSON text is made of, piece by piece.

use vstd::prelude::*;

use crate::json::{
    json_array, json_bool, json_member, json_null, json_object, json_opt_integer, json_opt_string,
    json_string, json_strings,
};
use crate::number::integer_text;
use crate::text_laws::law_join_of_two_lists;

verus! {

/// An array is its values in brackets, with a comma between neighbours: one more value goes behind
/// the others, before the closing bracket.
pub proof fn law_array_text(items: Seq<Seq<char>>, x: Seq<char>)
    ensures
        json_array(Seq::empty()) == seq!['[', ']'],
        json_array(seq![x]) == seq!['['] + x + seq![']'],
        items.len() > 0 ==> json_array(items.push(x)) == json_array(items).drop_last() + seq![','] + x
            + seq![']'],
{
    law_join_of_two_lists(items, seq![x], seq![',']);
    assert(items + seq![x] == items.push(x));
    assert(json_array(Seq::empty()) == seq!['[', ']']);
    let j = crate::text::join(items, seq![',']);
    assert(json_array(items).drop_last() == seq!['['] + j);
    assert(items.len() > 0 ==> json_array(items.push(x)) == seq!['['] + j + seq![','] + x + seq![
        ']',
    ]);
}

/// An object is its members in braces, with a comma between neighbours: one more member goes behind
/// the others, before the closing brace.
pub proof fn law_object_text(members: Seq<Seq<char>>, x: Seq<char>)
    ensures
        json_object(Seq::empty()) == seq!['{', '}'],
        json_object(seq![x]) == seq!['{'] + x + seq!['}'],
        members.len() > 0 ==> json_object(members.push(x)) == json_object(members).drop_last()
            + seq![','] + x + seq!['}'],
{
    law_join_of_two_lists(members, seq![x], seq![',']);
    assert(members + seq![x] == members.push(x));
    assert(json_object(Seq::empty()) == seq!['{', '}']);
    let j = crate::text::join(members, seq![',']);
    assert(json_object(members).drop_last() == seq!['{'] + j);
    assert(members.len() > 0 ==> json_object(members.push(x)) == seq!['{'] + j + seq![','] + x
        + seq!['}']);
}

/// A member is its name in quotes, a colon and its value; what is not there is `null`.
pub proof fn law_value_text(name: Seq<char>, value: Seq<char>, n: int)
    ensures
        json_member(name, value) == "\""@ + name + "\":"@ + value,
        json_bool(true) == "true"@,
        json_bool(false) == "false"@,
        json_null() == "null"@,
        json_opt_string(None) == "null"@,
        json_opt_string(Some(value)) == json_string(value),
        json_opt_integer(None) == "null"@,
        json_opt_integer(Some(n)) == integer_text(n),
{
    reveal_strlit("\"");
    reveal_strlit("\":");
    reveal_strlit("true");
    reveal_strlit("false");
    reveal_strlit("null");
    assert("\""@ == seq!['"']);
    assert("\":"@ == seq!['"', ':']);
    assert("true"@ == json_bool(true));
    assert("false"@ == json_bool(false));
    assert("null"@ == json_null());
}

/// Each string of a list is written as the JSON string that it is.
pub proof fn law_strings_are_written_each(s: Seq<Seq<char>>)
    ensures
        json_strings(s).len() == s.len(),
        forall|i: int| 0 <= i < s.len() ==> #[trigger] json_strings(s)[i] == json_string(s[i]),
{
}

} // verus!
