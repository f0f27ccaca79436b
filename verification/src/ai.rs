use vstd::prelude::*;

use crate::models::{ContentInfo, Prompts, ReqBody};
use crate::text::{owned, push_str, same_text};

verus! {

/// A JSON value, as the language model's reply holds it. Numbers keep their
/// text; an object keeps its entries in order.
#[derive(Debug)]
pub enum JsonValue {
    Null,
    Bool(bool),
    Number(String),
    Text(String),
    Array(Vec<JsonValue>),
    Object(Vec<(String, JsonValue)>),
}

/// The value of the first entry named `key`.
pub open spec fn entries_lookup(entries: Seq<(String, JsonValue)>, key: Seq<char>) -> Option<JsonValue>
    decreases entries.len(),
{
    if entries.len() == 0 {
        None
    } else if entries[0].0@ == key {
        Some(entries[0].1)
    } else {
        entries_lookup(entries.drop_first(), key)
    }
}

/// The entry `key` of an object; nothing for any other value.
pub open spec fn json_field(v: JsonValue, key: Seq<char>) -> Option<JsonValue> {
    match v {
        JsonValue::Object(entries) => entries_lookup(entries@, key),
        _ => None,
    }
}

/// Item `i` of an array; nothing (JSON `null`) for a missing item or any
/// other value.
pub open spec fn json_item(v: JsonValue, i: int) -> Option<JsonValue> {
    match v {
        JsonValue::Array(items) => if 0 <= i < items@.len() {
            Some(items@[i])
        } else {
            None
        },
        _ => None,
    }
}

/// The text of a string value.
pub open spec fn json_text(v: JsonValue) -> Option<Seq<char>> {
    match v {
        JsonValue::Text(s) => Some(s@),
        _ => None,
    }
}

/// The text of the model's answer: `candidates[0].content.parts[0].text`.
pub open spec fn reply_text(v: JsonValue) -> Option<Seq<char>> {
    match json_field(v, "candidates"@) {
        Some(candidates) => match json_item(candidates, 0) {
            Some(candidate) => match json_field(candidate, "content"@) {
                Some(content) => match json_field(content, "parts"@) {
                    Some(parts) => match json_item(parts, 0) {
                        Some(part) => match json_field(part, "text"@) {
                            Some(text) => json_text(text),
                            None => None,
                        },
                        None => None,
                    },
                    None => None,
                },
                None => None,
            },
            None => None,
        },
        None => None,
    }
}

/// The entry `key` of an object.
pub fn get_field<'a>(v: &'a JsonValue, key: &str) -> (r: Option<&'a JsonValue>)
    ensures
        match r {
            Some(x) => json_field(*v, key@) == Some(*x),
            None => json_field(*v, key@) is None,
        },
{
    match v {
        JsonValue::Object(entries) => {
            let mut i: usize = 0;
            assert(entries@.subrange(0, entries@.len() as int) =~= entries@);
            while i < entries.len()
                invariant
                    i <= entries@.len(),
                    json_field(*v, key@) == entries_lookup(entries@, key@),
                    entries_lookup(entries@, key@) == entries_lookup(
                        entries@.subrange(i as int, entries@.len() as int),
                        key@,
                    ),
                decreases entries.len() - i,
            {
                assert(entries@.subrange(i as int, entries@.len() as int).drop_first()
                    =~= entries@.subrange(i + 1, entries@.len() as int));
                if same_text(entries[i].0.as_str(), key) {
                    let ghost sub = entries@.subrange(i as int, entries@.len() as int);
                    assert(sub[0] == entries@[i as int]);
                    assert(entries@[i as int].0@ == key@);
                    assert(entries_lookup(sub, key@) == Some(entries@[i as int].1));
                    return Some(&entries[i].1);
                }
                i = i + 1;
            }
            None
        },
        _ => None,
    }
}

/// Item `i` of an array.
pub fn get_item(v: &JsonValue, i: usize) -> (r: Option<&JsonValue>)
    ensures
        match r {
            Some(x) => json_item(*v, i as int) == Some(*x),
            None => json_item(*v, i as int) is None,
        },
{
    match v {
        JsonValue::Array(items) => if i < items.len() {
            Some(&items[i])
        } else {
            None
        },
        _ => None,
    }
}

/// Why no hint or verdict came back from the language model.
#[derive(Clone, Copy, Debug, PartialEq, Eq, Structural)]
pub enum AiError {
    /// The request was answered with an error status.
    RequestFailed,
    /// The answer holds no text where the model puts it.
    NoText,
}

impl AiError {
    /// The message of this error.
    pub fn message(&self) -> (s: &'static str)
        ensures
            s@ == (match *self {
                AiError::RequestFailed => "API request failed"@,
                AiError::NoText => "Could not find text in response"@,
            }),
    {
        match self {
            AiError::RequestFailed => "API request failed",
            AiError::NoText => "Could not find text in response",
        }
    }
}

/// The text of the model's answer, `candidates[0].content.parts[0].text`,
/// or `NoText` where the answer has none.
pub fn extract_reply(v: &JsonValue) -> (r: Result<String, AiError>)
    ensures
        match reply_text(*v) {
            Some(t) => r matches Ok(s) && s@ == t,
            None => r == Err::<String, AiError>(AiError::NoText),
        },
{
    let text = match get_field(v, "candidates") {
        Some(candidates) => match get_item(candidates, 0) {
            Some(candidate) => match get_field(candidate, "content") {
                Some(content) => match get_field(content, "parts") {
                    Some(parts) => match get_item(parts, 0) {
                        Some(part) => match get_field(part, "text") {
                            Some(text) => match text {
                                JsonValue::Text(s) => Some(s.clone()),
                                _ => None,
                            },
                            None => None,
                        },
                        None => None,
                    },
                    None => None,
                },
                None => None,
            },
            None => None,
        },
        None => None,
    };
    match text {
        Some(s) => Ok(s),
        None => Err(AiError::NoText),
    }
}

/// What the validity check asks the model after the sequence.
pub open spec fn validity_question() -> Seq<char> {
    " is this a mathmatical correct number sequence is it cohesive  if it is provide me a json response with the type of number pattern and diffuculity and general term formular  its its not  mark the valid filed in the json as invalid only provide the json no addition text is there in no description in the json \n    dont include ```json in the response but the object only \n    "@
}

/// What the hint request asks the model after the sequence.
pub open spec fn hint_question() -> Seq<char> {
    " this a mathematical squence give me an hint that could be a usefull but  do not \n    give me a hint that will directly lead me to an answer\n    "@
}

/// The prompt that asks whether a sequence is a sound number pattern.
pub fn validity_prompt(query: String) -> (p: String)
    ensures
        p@ == query@ + validity_question(),
{
    let mut p = query;
    push_str(
        &mut p,
        " is this a mathmatical correct number sequence is it cohesive  if it is provide me a json response with the type of number pattern and diffuculity and general term formular  its its not  mark the valid filed in the json as invalid only provide the json no addition text is there in no description in the json \n    dont include ```json in the response but the object only \n    ",
    );
    p
}

/// The prompt that asks for a hint on a sequence.
pub fn hint_prompt(query: String) -> (p: String)
    ensures
        p@ == query@ + hint_question(),
{
    let mut p = query;
    push_str(
        &mut p,
        " this a mathematical squence give me an hint that could be a usefull but  do not \n    give me a hint that will directly lead me to an answer\n    ",
    );
    p
}

/// The request body for a prompt: one content with one text part.
pub fn request_body(text: String) -> (b: ReqBody)
    ensures
        b.contents@.len() == 1,
        b.contents@[0].parts@.len() == 1,
        b.contents@[0].parts@[0].text == text,
{
    let mut parts: Vec<Prompts> = Vec::new();
    parts.push(Prompts { text });
    let mut contents: Vec<ContentInfo> = Vec::new();
    contents.push(ContentInfo { parts });
    ReqBody { contents }
}

/// The address of the model's `generateContent` call for an API key.
pub open spec fn gemini_url_text(key: Seq<char>) -> Seq<char> {
    "https://generativelanguage.googleapis.com/v1beta/models/gemini-1.5-flash:generateContent?key="@
        + key
}

/// The address of the model's `generateContent` call for an API key.
pub fn gemini_url(key: &str) -> (u: String)
    ensures
        u@ == gemini_url_text(key@),
{
    let mut u = owned(
        "https://generativelanguage.googleapis.com/v1beta/models/gemini-1.5-flash:generateContent?key=",
    );
    push_str(&mut u, key);
    u
}

/// The reply text is the whole string found at
/// `candidates[0].content.parts[0].text`, whatever its length, and only a
/// string there gives a text.
pub proof fn lemma_reply_is_the_whole_text(
    v: JsonValue,
    candidates: JsonValue,
    candidate: JsonValue,
    content: JsonValue,
    parts: JsonValue,
    part: JsonValue,
    text: JsonValue,
)
    requires
        json_field(v, "candidates"@) == Some(candidates),
        json_item(candidates, 0) == Some(candidate),
        json_field(candidate, "content"@) == Some(content),
        json_field(content, "parts"@) == Some(parts),
        json_item(parts, 0) == Some(part),
        json_field(part, "text"@) == Some(text),
    ensures
        text matches JsonValue::Text(s) ==> reply_text(v) == Some(s@),
        !(text is Text) ==> reply_text(v) is None,
{
}

} // verus!
