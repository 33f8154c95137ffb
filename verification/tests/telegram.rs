use talbot::json::{Json, JsonNumber};
use talbot::telegram::{
    api_url, auth_token, bot_username, chat_id_text, discover_chat, malformed_response, read_reply,
    read_reply_text,
    send_body, send_receipt, status_lines, transport_error, AuthError,
};

fn json(text: &str) -> Json {
    from_value(&serde_json::from_str(text).unwrap())
}

fn from_value(v: &serde_json::Value) -> Json {
    match v {
        serde_json::Value::Null => Json::Null,
        serde_json::Value::Bool(b) => Json::Bool(*b),
        serde_json::Value::Number(n) => Json::Number(if let Some(u) = n.as_u64() {
            JsonNumber::PosInt(u)
        } else if let Some(i) = n.as_i64() {
            JsonNumber::NegInt(i)
        } else {
            JsonNumber::Float(n.to_string())
        }),
        serde_json::Value::String(s) => Json::Str(s.clone()),
        serde_json::Value::Array(a) => Json::Array(a.iter().map(from_value).collect()),
        serde_json::Value::Object(m) => {
            Json::Object(m.iter().map(|(k, v)| (k.clone(), from_value(v))).collect())
        }
    }
}

#[test]
fn transport_error_wording_cannot_include_a_bot_url() {
    let message = transport_error("getUpdates");
    assert_eq!(message, "getUpdates request failed before Telegram replied");
    assert!(!message.contains("api.telegram.org/bot"));
    assert!(!message.contains(':'));
}

#[test]
fn the_token_goes_only_into_the_url() {
    assert_eq!(api_url("123:abc", "getMe"), "https://api.telegram.org/bot123:abc/getMe");
    assert!(!transport_error("getMe").contains("123:abc"));
    assert_eq!(malformed_response("getMe"), "getMe returned a malformed response");
}

#[test]
fn replies_give_their_result_or_description() {
    let ok = read_reply("getMe", &json(r#"{"ok": true, "result": {"username": "bot"}}"#)).unwrap();
    assert_eq!(ok.pointer("/username").and_then(|u| u.as_str()), Some("bot"));
    let missing = read_reply("getMe", &json(r#"{"ok": true}"#)).unwrap();
    assert!(matches!(missing, Json::Null));
    assert_eq!(
        read_reply("sendMessage", &json(r#"{"ok": false, "description": "Bad Request: chat not found"}"#))
            .unwrap_err(),
        "sendMessage failed: Bad Request: chat not found"
    );
    assert_eq!(
        read_reply("getChat", &json(r#"{"ok": "yes"}"#)).unwrap_err(),
        "getChat failed: no error description"
    );
}

#[test]
fn the_latest_message_names_the_chat() {
    let updates = json(
        r#"[{"message": {"chat": {"id": 1}}}, {"edited_message": {"chat": {"id": 2}}}, {"poll": {}}]"#,
    );
    assert_eq!(discover_chat(&updates), Some(2));
    assert_eq!(discover_chat(&json(r#"[{"poll": {}}]"#)), None);
    assert_eq!(discover_chat(&json(r#"{"message": {}}"#)), None);
    assert_eq!(chat_id_text(-1001234), "-1001234");
}

#[test]
fn auth_checks_the_token_and_the_bot_name() {
    assert_eq!(auth_token("  123:abc\n").unwrap(), "123:abc");
    assert_eq!(auth_token("   "), Err(AuthError::NoToken));
    assert_eq!(AuthError::NoToken.message(), "no token given");
    assert_eq!(bot_username(&json(r#"{"username": "talbot_bot"}"#)).unwrap(), "talbot_bot");
    assert_eq!(bot_username(&json(r#"{"id": 5}"#)), Err(AuthError::MissingUsername));
}

#[test]
fn send_body_and_receipt() {
    let body = send_body("42", "hi");
    assert_eq!(body.pointer("/chat_id").and_then(|v| v.as_str()), Some("42"));
    assert_eq!(body.pointer("/text").and_then(|v| v.as_str()), Some("hi"));
    assert_eq!(send_receipt("42"), "sent to chat 42");
}

#[test]
fn status_reports_token_then_chat() {
    assert_eq!(status_lines(Err("missing"), Ok("1")), vec!["token: missing".to_string()]);
    assert_eq!(
        status_lines(Ok(()), Ok("42")),
        vec!["token: configured".to_string(), "chat_id: 42".to_string()]
    );
}

#[test]
fn reply_texts_are_read_as_json() {
    assert_eq!(read_reply_text("getMe", "<html>").err(), Some("getMe returned a malformed response".to_string()));
    let result = read_reply_text("getMe", r#"{"ok": true, "result": {"username": "talbot_bot"}}"#).unwrap();
    assert_eq!(result.str_at("/username"), Some("talbot_bot"));
    assert_eq!(
        read_reply_text("getMe", r#"{"ok": false, "description": "Unauthorized"}"#).err(),
        Some("getMe failed: Unauthorized".to_string())
    );
}
