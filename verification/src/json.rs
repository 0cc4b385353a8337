//! A JSON document as plain values, for the logic that reads API responses.
use vstd::prelude::*;

use crate::text::{chars_eq, to_chars};

verus! {

/// A JSON value. Object members keep their order; numbers keep their text.
pub enum JsonValue {
    Null,
    Bool(bool),
    Number(String),
    Str(String),
    Array(Vec<JsonValue>),
    Object(Vec<(String, JsonValue)>),
}

/// The value of the first member named `key`.
pub open spec fn spec_find_member(members: Seq<(String, JsonValue)>, key: Seq<char>) -> Option<
    JsonValue,
>
    decreases members.len(),
{
    if members.len() == 0 {
        None
    } else if members[0].0@ == key {
        Some(members[0].1)
    } else {
        spec_find_member(members.drop_first(), key)
    }
}

impl JsonValue {
    /// The member `key` of an object (`None` for anything else).
    pub open spec fn spec_get(self, key: Seq<char>) -> Option<JsonValue> {
        match self {
            JsonValue::Object(members) => spec_find_member(members@, key),
            _ => None,
        }
    }

    pub fn get(&self, key: &str) -> (r: Option<&JsonValue>)
        ensures
            r matches Some(v) ==> self.spec_get(key@) == Some(*v),
            r is None <==> self.spec_get(key@) is None,
    {
        match self {
            JsonValue::Object(members) => {
                let k = to_chars(key);
                let mut i: usize = 0;
                proof {
                    assert(members@.skip(0) =~= members@);
                }
                while i < members.len()
                    invariant
                        i <= members.len(),
                        k@ == key@,
                        self.spec_get(key@) == spec_find_member(members@, key@),
                        spec_find_member(members@, key@) == spec_find_member(
                            members@.skip(i as int),
                            key@,
                        ),
                    decreases members.len() - i,
                {
                    let name = to_chars(members[i].0.as_str());
                    proof {
                        assert(members@.skip(i as int)[0] == members@[i as int]);
                        assert(members@.skip(i as int).drop_first() =~= members@.skip(i + 1));
                    }
                    if chars_eq(&name, &k) {
                        return Some(&members[i].1);
                    }
                    i += 1;
                }
                None
            },
            _ => None,
        }
    }

    pub fn as_str(&self) -> (r: Option<&str>)
        ensures
            match self {
                JsonValue::Str(s) => r matches Some(t) && t@ == s@,
                _ => r is None,
            },
    {
        match self {
            JsonValue::Str(s) => Some(s.as_str()),
            _ => None,
        }
    }

    pub fn as_array(&self) -> (r: Option<&Vec<JsonValue>>)
        ensures
            match self {
                JsonValue::Array(items) => r == Some(items),
                _ => r is None,
            },
    {
        match self {
            JsonValue::Array(items) => Some(items),
            _ => None,
        }
    }
}


/// The `text` strings of the first `k` parts that have one, each trimmed when `trimmed`.
pub open spec fn spec_text_parts(parts: Seq<JsonValue>, k: int, trimmed: bool) -> Seq<Seq<char>>
    decreases k,
{
    if k <= 0 {
        Seq::empty()
    } else {
        spec_text_parts(parts, k - 1, trimmed) + match parts[k - 1].spec_get("text"@) {
            Some(JsonValue::Str(t)) => seq![
                if trimmed {
                    crate::text::spec_trim(t@)
                } else {
                    t@
                },
            ],
            _ => Seq::empty(),
        }
    }
}

/// The `text` strings of content parts (see `spec_text_parts`).
pub fn text_parts(parts: &Vec<JsonValue>, trimmed: bool) -> (r: Vec<Vec<char>>)
    ensures
        crate::text::views(r@) == spec_text_parts(parts@, parts@.len() as int, trimmed),
{
    let mut r: Vec<Vec<char>> = Vec::new();
    let mut i: usize = 0;
    while i < parts.len()
        invariant
            i <= parts.len(),
            crate::text::views(r@) == spec_text_parts(parts@, i as int, trimmed),
        decreases parts.len() - i,
    {
        let ghost pre = crate::text::views(r@);
        match parts[i].get("text") {
            Some(v) => match v.as_str() {
                Some(t) => {
                    let tc = to_chars(t);
                    let piece = if trimmed {
                        crate::text::trim(&tc)
                    } else {
                        tc
                    };
                    r.push(piece);
                    proof {
                        assert(crate::text::views(r@) =~= pre + seq![piece@]);
                    }
                },
                None => {},
            },
            None => {},
        }
        proof {
            assert(crate::text::views(r@) =~= spec_text_parts(parts@, i + 1, trimmed));
        }
        i += 1;
    }
    r
}
/// `v` is the string `s`.
pub open spec fn spec_is_str(v: JsonValue, s: Seq<char>) -> bool {
    v matches JsonValue::Str(t) && t@ == s
}

/// `v` is the number written `s`.
pub open spec fn spec_is_number(v: JsonValue, s: Seq<char>) -> bool {
    v matches JsonValue::Number(t) && t@ == s
}

/// `v` is the chat message `{"role": role, "content": content}`.
pub open spec fn spec_is_message(v: JsonValue, role: Seq<char>, content: Seq<char>) -> bool {
    match v {
        JsonValue::Object(m) => m.len() == 2 && m[0].0@ == "role"@ && spec_is_str(m[0].1, role)
            && m[1].0@ == "content"@ && spec_is_str(m[1].1, content),
        _ => false,
    }
}

/// `v` is the message list `[system, user]` with these contents.
pub open spec fn spec_is_chat(v: JsonValue, system: Seq<char>, user: Seq<char>) -> bool {
    match v {
        JsonValue::Array(items) => items.len() == 2 && spec_is_message(items[0], "system"@, system)
            && spec_is_message(items[1], "user"@, user),
        _ => false,
    }
}

/// The string value `s`.
pub fn json_str(s: &str) -> (r: JsonValue)
    ensures
        spec_is_str(r, s@),
{
    JsonValue::Str(crate::text::string_from_chars(to_chars(s).as_slice()))
}

/// The chat message `{"role": role, "content": content}`.
pub fn json_message(role: &str, content: &str) -> (r: JsonValue)
    ensures
        spec_is_message(r, role@, content@),
{
    let mut m: Vec<(String, JsonValue)> = Vec::new();
    m.push(("role".to_string(), json_str(role)));
    m.push(("content".to_string(), json_str(content)));
    JsonValue::Object(m)
}

/// The chat message list `[{"role": "system", ...}, {"role": "user", ...}]`.
pub fn chat_messages(system: &str, user: &str) -> (r: JsonValue)
    ensures
        spec_is_chat(r, system@, user@),
{
    let mut items: Vec<JsonValue> = Vec::new();
    items.push(json_message("system", system));
    items.push(json_message("user", user));
    JsonValue::Array(items)
}

/// `v` is an array of the strings `items`.
pub open spec fn spec_is_str_array(v: JsonValue, items: Seq<Seq<char>>) -> bool {
    v matches JsonValue::Array(a) && a.len() == items.len() && forall|i: int|
        0 <= i < a.len() ==> spec_is_str(#[trigger] a@[i], items[i])
}

/// `v` is the empty array.
pub open spec fn spec_is_empty_array(v: JsonValue) -> bool {
    v matches JsonValue::Array(a) && a.len() == 0
}

/// The array of the strings `items`.
pub fn json_str_array(items: &Vec<String>) -> (r: JsonValue)
    ensures
        spec_is_str_array(r, crate::text::string_views(items@)),
{
    let mut a: Vec<JsonValue> = Vec::new();
    let mut i: usize = 0;
    while i < items.len()
        invariant
            i <= items.len(),
            a.len() == i,
            forall|j: int| 0 <= j < i ==> spec_is_str(#[trigger] a@[j], items@[j]@),
        decreases items.len() - i,
    {
        a.push(json_str(items[i].as_str()));
        i += 1;
    }
    JsonValue::Array(a)
}

} // verus!
