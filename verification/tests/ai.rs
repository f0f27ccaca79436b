use pattern_of_doom::ai::{
    extract_reply, gemini_url, hint_prompt, request_body, validity_prompt, AiError, JsonValue,
};

fn obj(entries: Vec<(&str, JsonValue)>) -> JsonValue {
    JsonValue::Object(entries.into_iter().map(|(k, v)| (k.to_string(), v)).collect())
}

fn reply(text: JsonValue) -> JsonValue {
    obj(vec![(
        "candidates",
        JsonValue::Array(vec![obj(vec![(
            "content",
            obj(vec![("role", JsonValue::Text("model".to_string())), ("parts", JsonValue::Array(vec![obj(vec![("text", text)])]))]),
        )])]),
    )])
}

#[test]
fn reply_text_is_found() {
    let v = reply(JsonValue::Text("try doubling".to_string()));
    assert_eq!(extract_reply(&v).unwrap(), "try doubling");
}

#[test]
fn missing_text_is_an_error() {
    assert_eq!(extract_reply(&reply(JsonValue::Number("3".to_string()))).unwrap_err(), AiError::NoText);
    assert_eq!(extract_reply(&obj(vec![])).unwrap_err(), AiError::NoText);
    assert_eq!(extract_reply(&JsonValue::Null).unwrap_err(), AiError::NoText);
    let no_items = obj(vec![("candidates", JsonValue::Array(vec![]))]);
    assert_eq!(extract_reply(&no_items).unwrap_err(), AiError::NoText);
    let not_array = obj(vec![("candidates", obj(vec![]))]);
    assert_eq!(extract_reply(&not_array).unwrap_err(), AiError::NoText);
}

#[test]
fn error_messages() {
    assert_eq!(AiError::RequestFailed.message(), "API request failed");
    assert_eq!(AiError::NoText.message(), "Could not find text in response");
}

#[test]
fn prompts() {
    assert_eq!(
        hint_prompt("2468".to_string()),
        "2468 this a mathematical squence give me an hint that could be a usefull but  do not \n    give me a hint that will directly lead me to an answer\n    "
    );
    let v = validity_prompt("1 2 3".to_string());
    assert!(v.starts_with("1 2 3 is this a mathmatical correct number sequence"));
    assert!(v.ends_with("dont include ```json in the response but the object only \n    "));
}

#[test]
fn request_bodies() {
    let b = request_body("hello".to_string());
    assert_eq!(b.contents.len(), 1);
    assert_eq!(b.contents[0].parts.len(), 1);
    assert_eq!(b.contents[0].parts[0].text, "hello");
}

#[test]
fn model_address() {
    assert_eq!(
        gemini_url("K3Y"),
        "https://generativelanguage.googleapis.com/v1beta/models/gemini-1.5-flash:generateContent?key=K3Y"
    );
}
