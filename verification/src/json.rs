//! JSON text as `serde_json` writes it for the launcher: strings quoted
//! and escaped, compact arrays, and pretty-printed objects.
use vstd::prelude::*;
use crate::digests::hex_digit;
use crate::text::{decimal, join, lex_le};

verus! {

/// How one character appears inside a JSON string: `"` and `\` and the
/// control characters below U+0020 are escaped (the five with a short
/// form as `\b`, `\t`, `\n`, `\f`, `\r`, the others as `\u00XX` in
/// lowercase hexadecimal); every other character stands for itself.
pub open spec fn json_escape(c: char) -> Seq<char> {
    let n = c as u32;
    if c == '"' {
        seq!['\\', '"']
    } else if c == '\\' {
        seq!['\\', '\\']
    } else if n == 8 {
        seq!['\\', 'b']
    } else if c == '\t' {
        seq!['\\', 't']
    } else if c == '\n' {
        seq!['\\', 'n']
    } else if n == 12 {
        seq!['\\', 'f']
    } else if c == '\r' {
        seq!['\\', 'r']
    } else if n < 32 {
        seq!['\\', 'u', '0', '0', hex_digit((n / 16) as nat), hex_digit((n % 16) as nat)]
    } else {
        seq![c]
    }
}

/// The characters of a text, each escaped.
pub open spec fn json_escaped(s: Seq<char>) -> Seq<char>
    decreases s.len(),
{
    if s.len() == 0 {
        seq![]
    } else {
        json_escaped(s.drop_last()) + json_escape(s.last())
    }
}

/// A text as a JSON string: escaped, between double quotes.
pub open spec fn json_string(s: Seq<char>) -> Seq<char> {
    seq!['"'] + json_escaped(s) + seq!['"']
}

/// A compact JSON array of already written values.
pub open spec fn json_array(items: Seq<Seq<char>>) -> Seq<char> {
    seq!['['] + join(items, seq![',']) + seq![']']
}

/// A compact JSON array of strings.
pub open spec fn json_string_array(texts: Seq<Seq<char>>) -> Seq<char> {
    json_array(texts.map_values(|t: Seq<char>| json_string(t)))
}

/// A compact JSON array of arrays of strings.
pub open spec fn json_string_lists(lists: Seq<Seq<Seq<char>>>) -> Seq<char> {
    json_array(lists.map_values(|l: Seq<Seq<char>>| json_string_array(l)))
}

/// One member of a pretty-printed object: two spaces of indentation, the
/// quoted key, `": "` and the value's text.
pub open spec fn pretty_member(entry: (Seq<char>, Seq<char>)) -> Seq<char> {
    seq![' ', ' '] + json_string(entry.0) + seq![':', ' '] + entry.1
}

/// A non-empty JSON object as `serde_json::to_vec_pretty` writes it: one
/// member per line, indented by two spaces, between `{` and `}` lines.
pub open spec fn pretty_json_object(entries: Seq<(Seq<char>, Seq<char>)>) -> Seq<char> {
    seq!['{', '\n'] + join(
        entries.map_values(|e: (Seq<char>, Seq<char>)| pretty_member(e)),
        seq![',', '\n'],
    ) + seq!['\n', '}']
}

/// A value of a configuration member.
#[derive(Clone, Debug)]
pub enum ConfigValue {
    Flag(bool),
    Number(u32),
    Text(String),
    EmptyObject,
}

/// How a configuration value is written in JSON.
pub open spec fn config_value_text(v: ConfigValue) -> Seq<char> {
    match v {
        ConfigValue::Flag(b) => if b {
            "true"@
        } else {
            "false"@
        },
        ConfigValue::Number(n) => decimal(n as nat),
        ConfigValue::Text(t) => json_string(t@),
        ConfigValue::EmptyObject => "{}"@,
    }
}

/// The keys of a list of members.
pub open spec fn member_keys(members: Seq<(String, ConfigValue)>) -> Seq<Seq<char>> {
    members.map_values(|m: (String, ConfigValue)| m.0@)
}

/// A list of members with their values written as JSON.
pub open spec fn member_texts(members: Seq<(String, ConfigValue)>) -> Seq<(Seq<char>, Seq<char>)> {
    members.map_values(|m: (String, ConfigValue)| (m.0@, config_value_text(m.1)))
}

/// Keys in strictly increasing order of characters.
pub open spec fn keys_ascending(keys: Seq<Seq<char>>) -> bool {
    forall|i: int|
        0 <= i < keys.len() - 1 ==> lex_le(#[trigger] keys[i], keys[i + 1]) && keys[i] != keys[i
            + 1]
}

/// Calls `serde_json::to_string_pretty` on an object made of the members
/// (each value converted to the matching `serde_json::Value`). The crate's
/// default object map is a `BTreeMap`, which keeps its members in order of
/// key, and `String` keys order by their UTF-8 bytes, that is by
/// characters; so for members given in strictly increasing order of key the
/// text is `pretty_json_object` of the members with their values written as
/// JSON: `true` or `false`, the decimal number, the escaped string, `{}`.
/// Serializing a `Value` into a `Vec<u8>` fails only when the writer does,
/// which never happens, so the call always succeeds.
#[verifier::external_body]
pub(crate) fn pretty_json_members(members: &Vec<(String, ConfigValue)>) -> (r: Result<String, String>)
    requires
        members.len() > 0,
        keys_ascending(member_keys(members@)),
    ensures
        r is Ok,
        r matches Ok(t) ==> t@ == pretty_json_object(member_texts(members@)),
{
    let mut map = serde_json::Map::new();
    for (key, value) in members {
        let value = match value {
            ConfigValue::Flag(b) => serde_json::Value::Bool(*b),
            ConfigValue::Number(n) => serde_json::Value::from(*n),
            ConfigValue::Text(t) => serde_json::Value::String(t.clone()),
            ConfigValue::EmptyObject => serde_json::Value::Object(serde_json::Map::new()),
        };
        map.insert(key.clone(), value);
    }
    serde_json::to_string_pretty(&serde_json::Value::Object(map)).map_err(|e| e.to_string())
}

} // verus!
