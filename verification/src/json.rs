//! JSON bodies as plain values.

use vstd::prelude::*;

use crate::text::{join_lines, joined, option_view, string_views};

verus! {

/// A JSON value.
pub enum Json {
    Null,
    Bool(bool),
    /// A number by its literal.
    Number(String),
    Text(String),
    Array(Vec<Json>),
    /// The members of an object. Where a key stands twice, the first member counts.
    Object(Vec<(String, Json)>),
}

/// Position `i` is the first in `members` with the given key.
pub open spec fn is_first_member(members: Seq<(String, Json)>, key: Seq<char>, i: int) -> bool {
    &&& 0 <= i < members.len()
    &&& members[i].0@ == key
    &&& forall|j: int| 0 <= j < i ==> #[trigger] members[j].0@ != key
}

/// The member of an object with the given key.
pub open spec fn member(json: Json, key: Seq<char>) -> Option<Json> {
    match json {
        Json::Object(members) => if exists|i: int| is_first_member(members@, key, i) {
            Some(members@[choose|i: int| is_first_member(members@, key, i)].1)
        } else {
            None
        },
        _ => None,
    }
}

/// The text of a JSON string.
pub open spec fn as_text(json: Json) -> Option<Seq<char>> {
    match json {
        Json::Text(text) => Some(text@),
        _ => None,
    }
}

/// The member of an object with the given key, where it is a string.
pub open spec fn text_member(json: Json, key: Seq<char>) -> Option<Seq<char>> {
    match member(json, key) {
        Some(value) => as_text(value),
        None => None,
    }
}

/// The items of an array.
pub open spec fn items(json: Json) -> Option<Seq<Json>> {
    match json {
        Json::Array(items) => Some(items@),
        _ => None,
    }
}

impl Json {
    /// The member of an object with the given key.
    pub fn get(&self, key: &str) -> (r: Option<&Json>)
        ensures
            match r {
                Some(value) => member(*self, key@) == Some(*value),
                None => member(*self, key@) is None,
            },
    {
        let wanted: String = key.to_string();
        match self {
            Json::Object(members) => {
                for i in 0..members.len()
                    invariant
                        *self == Json::Object(*members),
                        wanted@ == key@,
                        forall|j: int| 0 <= j < i ==> #[trigger] members@[j].0@ != key@,
                {
                    if members[i].0 == wanted {
                        assert(is_first_member(members@, key@, i as int));
                        assert forall|k: int| is_first_member(members@, key@, k) implies k
                            == i by {
                            if k < i {
                                assert(members@[k].0@ != key@);
                            }
                            if i < k {
                                assert(members@[i as int].0@ != key@);
                            }
                        }
                        return Some(&members[i].1);
                    }
                }
                None
            },
            _ => None,
        }
    }

    /// The text of a JSON string.
    pub fn as_str(&self) -> (r: Option<&str>)
        ensures
            match r {
                Some(text) => as_text(*self) == Some(text@),
                None => as_text(*self) is None,
            },
    {
        match self {
            Json::Text(text) => Some(text.as_str()),
            _ => None,
        }
    }

    /// The member of an object with the given key, where it is a string.
    pub fn get_str(&self, key: &str) -> (r: Option<&str>)
        ensures
            match r {
                Some(text) => text_member(*self, key@) == Some(text@),
                None => text_member(*self, key@) is None,
            },
    {
        match self.get(key) {
            Some(value) => value.as_str(),
            None => None,
        }
    }
}

/// The `text` members of content parts, in order. Parts without one are left out.
pub open spec fn part_texts(parts: Seq<Json>) -> Seq<Seq<char>>
    decreases parts.len(),
{
    if parts.len() == 0 {
        Seq::empty()
    } else {
        let before = part_texts(parts.drop_last());
        match text_member(parts.last(), "text"@) {
            Some(text) => before.push(text),
            None => before,
        }
    }
}

/// A message content as text: a string as it is, an array as the joined texts of its parts
/// unless they come to nothing, and anything else as no text.
pub open spec fn content_text(content: Json) -> Option<Seq<char>> {
    match content {
        Json::Text(text) => Some(text@),
        Json::Array(parts) => {
            let text = joined(part_texts(parts@));
            if text.len() == 0 {
                None
            } else {
                Some(text)
            }
        },
        _ => None,
    }
}

/// `messages[i]` is the last message of the user.
pub open spec fn is_last_user(messages: Seq<Json>, i: int) -> bool {
    &&& 0 <= i < messages.len()
    &&& text_member(messages[i], "role"@) == Some("user"@)
    &&& forall|j: int|
        i < j < messages.len() ==> text_member(#[trigger] messages[j], "role"@) != Some("user"@)
}

/// The text of the last user message in `messages`, if there is one with text.
pub open spec fn last_user_text(messages: Seq<Json>) -> Option<Seq<char>> {
    if exists|i: int| is_last_user(messages, i) {
        match member(messages[choose|i: int| is_last_user(messages, i)], "content"@) {
            Some(content) => content_text(content),
            None => None,
        }
    } else {
        None
    }
}

/// The text of the `messages` member of a body.
pub open spec fn messages_text(body: Json) -> Option<Seq<char>> {
    match member(body, "messages"@) {
        Some(Json::Array(messages)) => last_user_text(messages@),
        _ => None,
    }
}

/// The user prompt of an inbound body: the text of the last user message, or else of the
/// `input`.
pub open spec fn prompt_of(body: Json) -> Option<Seq<char>> {
    match messages_text(body) {
        Some(text) => Some(text),
        None => match member(body, "input"@) {
            Some(input) => content_text(input),
            None => None,
        },
    }
}

/// The assistant text of an OpenAI chat-completion body: `choices[0].message.content`.
pub open spec fn completion_of(body: Json) -> Option<Seq<char>> {
    match member(body, "choices"@) {
        Some(Json::Array(choices)) => if choices@.len() == 0 {
            None
        } else {
            match member(choices@[0], "message"@) {
                Some(message) => text_member(message, "content"@),
                None => None,
            }
        },
        _ => None,
    }
}

/// Flatten a message content, a string or an array of `{ text }` parts, to text.
pub fn content_to_text(content: &Json) -> (r: Option<String>)
    ensures
        option_view(r) == content_text(*content),
{
    match content {
        Json::Text(text) => Some(text.clone()),
        Json::Array(parts) => {
            let mut lines: Vec<String> = Vec::new();
            assert(string_views(lines@) =~= part_texts(parts@.take(0)));
            for i in 0..parts.len()
                invariant
                    string_views(lines@) == part_texts(parts@.take(i as int)),
            {
                let ghost before = lines@;
                let ghost longer = parts@.take(i + 1);
                assert(longer.drop_last() =~= parts@.take(i as int));
                assert(longer.last() == parts@[i as int]);
                if let Some(text) = parts[i].get_str("text") {
                    lines.push(text.to_string());
                    assert(string_views(lines@) =~= string_views(before).push(text@));
                }
            }
            assert(parts@.take(parts@.len() as int) =~= parts@);
            let text = join_lines(&lines);
            if text.as_str().is_empty() {
                None
            } else {
                Some(text)
            }
        },
        _ => None,
    }
}

/// The text of the last user message.
fn last_user_message_text(messages: &Vec<Json>) -> (r: Option<String>)
    ensures
        option_view(r) == last_user_text(messages@),
{
    let user: String = "user".to_string();
    let mut i: usize = messages.len();
    while i > 0
        invariant
            i <= messages@.len(),
            user@ == "user"@,
            forall|j: int|
                i <= j < messages@.len() ==> text_member(#[trigger] messages@[j], "role"@) != Some(
                    "user"@,
                ),
        decreases i,
    {
        i = i - 1;
        if let Some(role) = messages[i].get_str("role") {
            if role.to_string() == user {
                proof {
                    assert(is_last_user(messages@, i as int));
                    assert forall|k: int| is_last_user(messages@, k) implies k == i by {
                        if k < i {
                            assert(text_member(messages@[i as int], "role"@) != Some("user"@));
                        }
                        if i < k {
                            assert(text_member(messages@[k], "role"@) != Some("user"@));
                        }
                    }
                }
                return match messages[i].get("content") {
                    Some(content) => content_to_text(content),
                    None => None,
                };
            }
        }
    }
    assert forall|k: int| !is_last_user(messages@, k) by {
        if 0 <= k < messages@.len() {
            assert(text_member(messages@[k], "role"@) != Some("user"@));
        }
    }
    None
}

/// Extract the user prompt from an inbound body, handling OpenAI and Anthropic (`messages`) and
/// Responses (`input`) shapes.
pub fn extract_prompt(body: &Json) -> (r: Option<String>)
    ensures
        option_view(r) == prompt_of(*body),
{
    if let Some(Json::Array(messages)) = body.get("messages") {
        if let Some(text) = last_user_message_text(messages) {
            return Some(text);
        }
    }
    match body.get("input") {
        Some(input) => content_to_text(input),
        None => None,
    }
}

/// Read the assistant text out of an OpenAI chat-completion body.
pub fn completion_text(body: &Json) -> (r: Option<String>)
    ensures
        option_view(r) == completion_of(*body),
{
    match body.get("choices") {
        Some(Json::Array(choices)) => {
            if choices.len() == 0 {
                None
            } else {
                match choices[0].get("message") {
                    Some(message) => match message.get_str("content") {
                        Some(text) => Some(text.to_string()),
                        None => None,
                    },
                    None => None,
                }
            }
        },
        _ => None,
    }
}

} // verus!
