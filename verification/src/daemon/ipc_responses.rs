//! The JSON answers to listing commands that the library builds itself.
use crate::config::parser::lit_default;
use crate::socket::strings_view;
use vstd::prelude::*;

verus! {

/// A lower-case hexadecimal digit of `d`, below 16.
pub open spec fn hex_digit_lower(d: int) -> char {
    seq!['0', '1', '2', '3', '4', '5', '6', '7', '8', '9', 'a', 'b', 'c', 'd', 'e', 'f'][d]
}

/// How JSON writes the character `c` inside a string: a quote and a
/// backslash escaped by a backslash; backspace, tab, line feed, form feed
/// and carriage return as `\b`, `\t`, `\n`, `\f`, `\r`; other control
/// characters as `\u00XX`; every other character as itself.
pub open spec fn json_escaped_char(c: char) -> Seq<char> {
    let v = c as u32;
    if c == '"' {
        seq!['\\', '"']
    } else if c == '\\' {
        seq!['\\', '\\']
    } else if v == 8 {
        seq!['\\', 'b']
    } else if v == 9 {
        seq!['\\', 't']
    } else if v == 10 {
        seq!['\\', 'n']
    } else if v == 12 {
        seq!['\\', 'f']
    } else if v == 13 {
        seq!['\\', 'r']
    } else if v < 32 {
        seq!['\\', 'u', '0', '0', hex_digit_lower((v / 16) as int), hex_digit_lower((v % 16) as int)]
    } else {
        seq![c]
    }
}

/// The characters of `s`, each as JSON writes it inside a string.
pub open spec fn json_escaped(s: Seq<char>) -> Seq<char>
    decreases s.len(),
{
    if s.len() == 0 {
        Seq::empty()
    } else {
        json_escaped(s.drop_last()) + json_escaped_char(s.last())
    }
}

/// `s` as a JSON string.
pub open spec fn json_string(s: Seq<char>) -> Seq<char> {
    seq!['"'] + json_escaped(s) + seq!['"']
}

/// The JSON strings of `names`, separated by commas.
pub open spec fn json_items(names: Seq<Seq<char>>) -> Seq<char>
    decreases names.len(),
{
    if names.len() == 0 {
        Seq::empty()
    } else if names.len() == 1 {
        json_string(names[0])
    } else {
        json_items(names.drop_last()) + seq![','] + json_string(names.last())
    }
}

/// What `serde_json::to_string` writes for a list of strings: a compact JSON
/// array.
pub open spec fn json_string_array_spec(names: Seq<Seq<char>>) -> Seq<char> {
    seq!['['] + json_items(names) + seq![']']
}

/// Calls `serde_json::to_string` on a list of strings: the compact JSON
/// array of the strings, escaped as serde_json's `format_escaped_str` does.
/// Serialising strings in a sequence into a `Vec` has no map and no custom
/// impl that could fail, which is when serde_json's documentation says
/// serialisation fails, so it is stated to succeed.
#[verifier::external_body]
fn json_string_array(names: &Vec<String>) -> (r: Option<String>)
    ensures
        r is Some,
        r.unwrap()@ == json_string_array_spec(strings_view(names@)),
{
    serde_json::to_string(names).ok()
}

pub open spec fn lit_empty_array() -> Seq<char> {
    seq!['[', ']']
}

/// The answer to a shader listing from the JSON of the names: the JSON,
/// else an empty array.
pub fn shaders_reply(json: Option<String>) -> (r: String)
    ensures
        r@ == match json {
            Some(s) => s@,
            None => lit_empty_array(),
        },
{
    match json {
        Some(s) => s,
        None => {
            proof {
                reveal_strlit("[]");
                assert("[]"@ =~= lit_empty_array());
            }
            "[]".to_owned()
        },
    }
}

/// The answer to a shader listing: the names, as `list_shader_names` gives
/// them, as a JSON array.
pub fn list_shaders_json(names: &Vec<String>) -> (r: String)
    ensures
        r@ == json_string_array_spec(strings_view(names@)),
{
    shaders_reply(json_string_array(names))
}

/// The label of the profile in force in a profile listing: its name, or
/// `default`.
pub fn active_label(active: Option<&str>) -> (r: &str)
    ensures
        r@ == match active {
            Some(a) => a@,
            None => lit_default(),
        },
{
    match active {
        Some(a) => a,
        None => {
            proof {
                reveal_strlit("default");
                assert("default"@ =~= lit_default());
            }
            "default"
        },
    }
}

} // verus!
