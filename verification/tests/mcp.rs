use talbot::json::{Json, JsonNumber};
use talbot::mcp::{
    ask_result, complete, handle, is_blocking_ask, notification_text, notify_result, read_message, receive,
    reply, route, tool_call, ActiveRequests, Dispatch, Received, Route, ToolCall,
};

fn json(text: &str) -> Json {
    from_value(&serde_json::from_str(text).unwrap())
}

fn from_value(v: &serde_json::Value) -> Json {
    match v {
        serde_json::Value::Null => Json::Null,
        serde_json::Value::Bool(b) => Json::Bool(*b),
        serde_json::Value::Number(n) => Json::Number(if let Some(u) = n.as_u64() {
            JsonNumber::PosInt(u)
        } else if let Some(i) = n.as_i64() {
            JsonNumber::NegInt(i)
        } else {
            JsonNumber::Float(n.to_string())
        }),
        serde_json::Value::String(s) => Json::Str(s.clone()),
        serde_json::Value::Array(a) => Json::Array(a.iter().map(from_value).collect()),
        serde_json::Value::Object(m) => {
            Json::Object(m.iter().map(|(k, v)| (k.clone(), from_value(v))).collect())
        }
    }
}

fn to_value(j: &Json) -> serde_json::Value {
    match j {
        Json::Null => serde_json::Value::Null,
        Json::Bool(b) => serde_json::Value::Bool(*b),
        Json::Number(JsonNumber::PosInt(u)) => serde_json::Value::from(*u),
        Json::Number(JsonNumber::NegInt(i)) => serde_json::Value::from(*i),
        Json::Number(JsonNumber::Float(t)) => t
            .parse::<f64>()
            .ok()
            .and_then(serde_json::Number::from_f64)
            .map(serde_json::Value::Number)
            .unwrap_or(serde_json::Value::Null),
        Json::Str(s) => serde_json::Value::String(s.clone()),
        Json::Array(items) => serde_json::Value::Array(items.iter().map(to_value).collect()),
        Json::Object(entries) => serde_json::Value::Object(
            entries.iter().map(|(k, v)| (k.clone(), to_value(v))).collect(),
        ),
    }
}

fn reply_of(message: &Json) -> Result<serde_json::Value, serde_json::Value> {
    match handle(message, "0.1.0") {
        Dispatch::Reply(Ok(result)) => Ok(to_value(&result)),
        Dispatch::Reply(Err(error)) => Err(to_value(&error)),
        _ => panic!("expected an immediate reply"),
    }
}

fn done(call: ToolCall) -> serde_json::Value {
    match call {
        ToolCall::Done(result) => to_value(&result),
        _ => panic!("expected a finished tool call"),
    }
}

#[test]
fn lists_notify_and_ask_tools() {
    let result = reply_of(&json(r#"{ "method": "tools/list" }"#)).unwrap();
    let names = result["tools"]
        .as_array()
        .unwrap()
        .iter()
        .filter_map(|tool| tool["name"].as_str())
        .collect::<Vec<_>>();
    assert_eq!(names, vec!["notify", "ask"]);
    assert_eq!(
        result.pointer("/tools/1/inputSchema/properties/timeout_seconds/default"),
        Some(&serde_json::Value::from(7200))
    );
    assert_eq!(
        result.pointer("/tools/1/inputSchema/properties/timeout_seconds/maximum"),
        Some(&serde_json::Value::from(7200))
    );
    assert_eq!(
        result.pointer("/tools/0/inputSchema/properties/action_required/default"),
        Some(&serde_json::Value::from(false))
    );
    assert_eq!(
        result.pointer("/tools/0/inputSchema/properties/conversation_title/maxLength"),
        Some(&serde_json::Value::from(80))
    );
    assert_eq!(
        result.pointer("/tools/1/inputSchema/properties/conversation_title/maxLength"),
        Some(&serde_json::Value::from(80))
    );
}

#[test]
fn ask_requires_string_choices() {
    let result = done(tool_call(&json(
        r#"{
            "params": {
                "name": "ask",
                "arguments": {
                    "conversation_title": "Finance Page",
                    "message": "Pick one",
                    "choices": [1, 2]
                }
            }
        }"#,
    )));
    assert_eq!(result["isError"], true);
    assert_eq!(
        result.pointer("/content/0/text").and_then(serde_json::Value::as_str),
        Some("choices must be an array of strings")
    );
}

#[test]
fn marks_notifications_that_need_action() {
    assert_eq!(
        notification_text("Finance Page", "Please choose a release date.", true),
        "🚨 Action needed\n\nFinance Page\n\nPlease choose a release date."
    );
    assert_eq!(
        notification_text("Finance Page", "The update is ready.", false),
        "Finance Page\n\nThe update is ready."
    );
}

#[test]
fn rejects_an_invalid_action_marker_flag() {
    let result = done(tool_call(&json(
        r#"{
            "params": {
                "name": "notify",
                "arguments": {
                    "conversation_title": "Finance Page",
                    "message": "Please choose a release date.",
                    "action_required": "yes"
                }
            }
        }"#,
    )));
    assert_eq!(result["isError"], true);
    assert_eq!(
        result.pointer("/content/0/text").and_then(serde_json::Value::as_str),
        Some("action_required must be true or false")
    );
}

#[test]
fn requires_a_conversation_title() {
    let result = done(tool_call(&json(
        r#"{
            "params": {
                "name": "notify",
                "arguments": { "message": "The update is ready." }
            }
        }"#,
    )));
    assert_eq!(result["isError"], true);
    assert_eq!(
        result.pointer("/content/0/text").and_then(serde_json::Value::as_str),
        Some("missing required argument: conversation_title")
    );
}

#[test]
fn only_ask_calls_are_dispatched_as_blocking_work() {
    assert!(is_blocking_ask(&json(
        r#"{ "method": "tools/call", "params": { "name": "ask" } }"#
    )));
    assert!(!is_blocking_ask(&json(
        r#"{ "method": "tools/call", "params": { "name": "notify" } }"#
    )));
    assert!(!is_blocking_ask(&json(r#"{ "method": "tools/list" }"#)));
}

#[test]
fn cancellation_targets_the_matching_in_flight_request() {
    let mut active = ActiveRequests::new();
    let first = active.register(&json("1"));
    let second = active.register(&json(r#""2""#));

    active.cancel(&json(
        r#"{
            "method": "notifications/cancelled",
            "params": { "requestId": 1, "reason": "Codex moved on" }
        }"#,
    ));

    assert!(active.is_cancelled(first));
    assert!(!active.is_cancelled(second));
}

#[test]
fn finishing_an_old_duplicate_id_does_not_remove_its_replacement() {
    let mut active = ActiveRequests::new();
    let first = active.register(&json("1"));
    let replacement = active.register(&json("1"));

    assert!(active.is_cancelled(first));
    active.finish(&json("1"), first);
    active.cancel(&json(
        r#"{
            "method": "notifications/cancelled",
            "params": { "requestId": 1 }
        }"#,
    ));

    assert!(active.is_cancelled(replacement));
}

#[test]
fn finishing_the_current_request_forgets_it() {
    let mut active = ActiveRequests::new();
    let only = active.register(&json(r#"{"k": [1, "x"]}"#));
    active.finish(&json(r#"{"k": [1, "x"]}"#), only);
    active.cancel(&json(r#"{"params": {"requestId": {"k": [1, "x"]}}}"#));
    assert!(!active.is_cancelled(only));
    assert!(!active.is_cancelled(99));
}

#[test]
fn cancelled_requests_stay_cancelled_until_they_finish() {
    let mut active = ActiveRequests::new();
    let first = active.register(&json("1"));
    active.cancel(&json(r#"{"params": {"requestId": 1}}"#));
    let second = active.register(&json("2"));
    let third = active.register(&json("1"));
    active.cancel(&json(r#"{"params": {"requestId": 2}}"#));
    active.finish(&json("2"), second);
    assert!(active.is_cancelled(first));
    assert!(!active.is_cancelled(third));
    // Once it finishes, its flag is dropped.
    active.finish(&json("1"), first);
    assert!(!active.is_cancelled(first));
    assert!(!active.is_cancelled(third));
    assert!(active.can_register());
}

#[test]
fn the_server_answers_requests_and_silences_cancelled_asks() {
    let mut active = ActiveRequests::new();
    assert!(matches!(receive(&mut active, &json(r#"{"method": "notifications/initialized"}"#)), Received::Nothing));
    match receive(&mut active, &json(r#"{"jsonrpc": "2.0", "id": 3, "method": "ping"}"#)) {
        Received::Answer { id } => assert_eq!(id.as_i64(), Some(3)),
        other => panic!("unexpected {other:?}"),
    }
    let ask = json(r#"{"id": 4, "method": "tools/call", "params": {"name": "ask"}}"#);
    let (id, ticket) = match receive(&mut active, &ask) {
        Received::Start { id, ticket } => (id, ticket),
        other => panic!("unexpected {other:?}"),
    };
    let other = json(r#"{"id": 5, "method": "tools/call", "params": {"name": "ask"}}"#);
    let (other_id, other_ticket) = match receive(&mut active, &other) {
        Received::Start { id, ticket } => (id, ticket),
        unexpected => panic!("unexpected {unexpected:?}"),
    };
    let notice = json(r#"{"method": "notifications/cancelled", "params": {"requestId": 4}}"#);
    assert!(matches!(receive(&mut active, &notice), Received::Nothing));
    assert!(active.is_cancelled(ticket));
    assert!(complete(&mut active, &id, ticket, Ok(json("{}"))).is_none());
    let line = complete(&mut active, &other_id, other_ticket, Err(json(r#""boom""#))).unwrap();
    assert_eq!(line.i64_at("/id"), Some(5));
    assert_eq!(line.str_at("/error"), Some("boom"));
    assert_eq!(line.str_at("/jsonrpc"), Some("2.0"));
    assert!(line.pointer("/result").is_none());
}

#[test]
fn routes_each_kind_of_message() {
    assert_eq!(route(&json(r#"{"method": "notifications/cancelled", "params": {}}"#)), Route::Cancel);
    assert_eq!(route(&json(r#"{"method": "notifications/initialized"}"#)), Route::Ignore);
    assert_eq!(
        route(&json(r#"{"id": 3, "method": "tools/call", "params": {"name": "ask"}}"#)),
        Route::Blocking
    );
    assert_eq!(route(&json(r#"{"id": 4, "method": "ping"}"#)), Route::Immediate);
}

#[test]
fn answers_initialize_ping_and_unknown_methods() {
    let init = reply_of(&json(r#"{"method": "initialize", "params": {"protocolVersion": "2025-03-26"}}"#))
        .unwrap();
    assert_eq!(init["protocolVersion"], "2025-03-26");
    assert_eq!(init["serverInfo"]["name"], "talbot");
    assert_eq!(init["serverInfo"]["version"], "0.1.0");
    assert_eq!(init["capabilities"]["tools"], serde_json::Value::Object(Default::default()));
    let default = reply_of(&json(r#"{"method": "initialize"}"#)).unwrap();
    assert_eq!(default["protocolVersion"], "2024-11-05");
    assert_eq!(reply_of(&json(r#"{"method": "ping"}"#)).unwrap(), serde_json::Value::Object(Default::default()));
    let error = reply_of(&json(r#"{"method": "resources/list"}"#)).unwrap_err();
    assert_eq!(error["code"], -32601);
    assert_eq!(error["message"], "method not found: resources/list");
}

#[test]
fn tool_calls_become_messages_and_questions() {
    let notify = handle(
        &json(r#"{"method": "tools/call", "params": {"name": "notify", "arguments": {"conversation_title": " CI ", "message": "done ", "action_required": true}}}"#),
        "0.1.0",
    );
    match notify {
        Dispatch::Notify(text) => assert_eq!(text, "🚨 Action needed\n\nCI\n\ndone"),
        _ => panic!("expected a notification"),
    }
    let ask = handle(
        &json(r#"{"method": "tools/call", "params": {"name": "ask", "arguments": {"conversation_title": "CI", "message": "Ship?", "choices": ["Yes", "No"], "timeout_seconds": 60}}}"#),
        "0.1.0",
    );
    match ask {
        Dispatch::Ask(request) => {
            assert_eq!(request.question, "Ship?");
            assert_eq!(request.choices, vec!["Yes".to_string(), "No".to_string()]);
            assert_eq!(request.timeout_secs, 60);
            assert_eq!(request.title, "CI");
        }
        _ => panic!("expected a question"),
    }
}

#[test]
fn tool_call_errors_name_the_problem() {
    let unknown = done(tool_call(&json(r#"{"params": {"name": "say \"hi\""}}"#)));
    assert_eq!(unknown["content"][0]["text"], "unknown tool: Some(\"say \\\"hi\\\"\")");
    let nameless = done(tool_call(&json(r#"{"params": {}}"#)));
    assert_eq!(nameless["content"][0]["text"], "unknown tool: None");
    let timeout = done(tool_call(&json(
        r#"{"params": {"name": "ask", "arguments": {"conversation_title": "T", "message": "m", "choices": ["a", "b"], "timeout_seconds": -5}}}"#,
    )));
    assert_eq!(timeout["content"][0]["text"], "timeout_seconds must be a positive integer");
    let no_message = done(tool_call(&json(r#"{"params": {"name": "notify", "arguments": {"conversation_title": "T"}}}"#)));
    assert_eq!(no_message["content"][0]["text"], "missing required argument: message");
    let bad_title = done(tool_call(&json(r#"{"params": {"name": "notify", "arguments": {"conversation_title": 5, "message": "m"}}}"#)));
    assert_eq!(bad_title["content"][0]["text"], "conversation_title must be a string");
}

#[test]
fn replies_and_results_have_the_protocol_shape() {
    let ok = to_value(&reply(&json("7"), Ok(json("{}"))));
    assert_eq!(ok, serde_json::from_str::<serde_json::Value>(r#"{"jsonrpc": "2.0", "id": 7, "result": {}}"#).unwrap());
    let sent = to_value(&notify_result(Ok("sent to chat 1")));
    assert_eq!(sent, serde_json::from_str::<serde_json::Value>(r#"{"content": [{"type": "text", "text": "sent to chat 1"}]}"#).unwrap());
    let answered = to_value(&ask_result(Ok("Yes")));
    assert_eq!(answered["content"][0]["text"], "User answered: Yes");
    let failed = to_value(&ask_result(Err("boom")));
    assert_eq!(failed["isError"], true);
}

#[test]
fn lines_are_read_as_json_messages() {
    assert!(read_message("   ").is_none());
    assert!(read_message("").is_none());
    assert!(read_message("not json").is_none());
    let message = read_message(r#" {"jsonrpc": "2.0", "id": 7, "method": "ping", "params": {"x": -2.5}} "#).unwrap();
    assert_eq!(message.i64_at("/id"), Some(7));
    assert_eq!(message.str_at("/method"), Some("ping"));
    assert_eq!(route(&message), Route::Immediate);
    let line = reply(&json("7"), Ok(json(r#"{"b": [1, "x"], "a": null}"#))).to_text();
    assert_eq!(line, r#"{"id":7,"jsonrpc":"2.0","result":{"a":null,"b":[1,"x"]}}"#);
}
