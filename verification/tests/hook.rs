use talbot::hook::{
    action_name, allow_response, check_event, decision_for_answer, deny_response, preview_source,
    failure_response, input_preview, is_sensitive, looks_sensitive, permission_message, read_event, safe_text,
    render_preview, sanitize_value, truncate_chars, HookError, Preview, HIDDEN_INPUT, MAX_QUESTION_CHARS,
};
use talbot::json::{Json, JsonNumber};

fn json(text: &str) -> Json {
    from_value(&serde_json::from_str(text).unwrap())
}

fn from_value(v: &serde_json::Value) -> Json {
    match v {
        serde_json::Value::Null => Json::Null,
        serde_json::Value::Bool(b) => Json::Bool(*b),
        serde_json::Value::Number(n) => Json::Number(if let Some(u) = n.as_u64() {
            JsonNumber::PosInt(u)
        } else if let Some(i) = n.as_i64() {
            JsonNumber::NegInt(i)
        } else {
            JsonNumber::Float(n.to_string())
        }),
        serde_json::Value::String(s) => Json::Str(s.clone()),
        serde_json::Value::Array(a) => Json::Array(a.iter().map(from_value).collect()),
        serde_json::Value::Object(m) => {
            Json::Object(m.iter().map(|(k, v)| (k.clone(), from_value(v))).collect())
        }
    }
}

fn to_value(j: &Json) -> serde_json::Value {
    match j {
        Json::Null => serde_json::Value::Null,
        Json::Bool(b) => serde_json::Value::Bool(*b),
        Json::Number(JsonNumber::PosInt(u)) => serde_json::Value::from(*u),
        Json::Number(JsonNumber::NegInt(i)) => serde_json::Value::from(*i),
        Json::Number(JsonNumber::Float(t)) => t
            .parse::<f64>()
            .ok()
            .and_then(serde_json::Number::from_f64)
            .map(serde_json::Value::Number)
            .unwrap_or(serde_json::Value::Null),
        Json::Str(s) => serde_json::Value::String(s.clone()),
        Json::Array(items) => serde_json::Value::Array(items.iter().map(to_value).collect()),
        Json::Object(entries) => serde_json::Value::Object(
            entries.iter().map(|(k, v)| (k.clone(), to_value(v))).collect(),
        ),
    }
}

fn message_for(event: &Json) -> String {
    permission_message(event).unwrap()
}

#[test]
fn builds_the_codex_allow_decision() {
    assert_eq!(
        to_value(&allow_response()),
        serde_json::from_str::<serde_json::Value>(
            r#"{
                "hookSpecificOutput": {
                    "hookEventName": "PermissionRequest",
                    "decision": { "behavior": "allow" }
                }
            }"#
        )
        .unwrap()
    );
}

#[test]
fn builds_the_codex_deny_decision() {
    assert_eq!(
        to_value(&deny_response("No approval received.")),
        serde_json::from_str::<serde_json::Value>(
            r#"{
                "hookSpecificOutput": {
                    "hookEventName": "PermissionRequest",
                    "decision": {
                        "behavior": "deny",
                        "message": "No approval received."
                    }
                }
            }"#
        )
        .unwrap()
    );
}

#[test]
fn formats_a_shell_permission_request() {
    let event = json(
        r#"{
            "hook_event_name": "PermissionRequest",
            "cwd": "/workspace/project",
            "tool_name": "Bash",
            "tool_input": {
                "command": "rm -f /tmp/result.txt",
                "description": "Remove a disposable test file"
            }
        }"#,
    );
    let message = message_for(&event);
    assert!(message.contains("Codex needs your okay before it can continue."));
    assert!(message.contains("What it wants to do: Run a terminal command"));
    assert!(message.contains("Folder: /workspace/project"));
    assert!(message.contains("Why: Remove a disposable test file"));
    assert!(message.contains("rm -f /tmp/result.txt"));
    assert!(message.ends_with("Do you want to allow this once?"));
}

#[test]
fn hides_sensitive_shell_input() {
    let event = json(
        r#"{
            "hook_event_name": "PermissionRequest",
            "cwd": "/workspace/project",
            "tool_name": "Bash",
            "tool_input": {
                "command": "API_TOKEN=do-not-leak curl https://example.test"
            }
        }"#,
    );
    let message = message_for(&event);
    assert!(message.contains(HIDDEN_INPUT));
    assert!(!message.contains("do-not-leak"));
}

#[test]
fn redacts_sensitive_structured_arguments() {
    let input = json(
        r#"{
            "path": "/tmp/result.txt",
            "access_token": "do-not-leak",
            "nested": { "password": "also-secret" }
        }"#,
    );
    let preview = input_preview("mcp__example__write", &input);
    assert!(preview.contains("/tmp/result.txt"));
    assert!(!preview.contains("do-not-leak"));
    assert!(!preview.contains("also-secret"));
    assert_eq!(preview.matches("[HIDDEN]").count(), 2);
}

#[test]
fn gives_tools_plain_names() {
    assert_eq!(action_name("Bash"), "Run a terminal command");
    assert_eq!(action_name("apply_patch"), "Change files");
    assert_eq!(
        action_name("mcp__github__create_issue"),
        "Use github to create issue"
    );
}

#[test]
fn keeps_telegram_questions_within_the_limit() {
    let text = format!(
        r#"{{
            "hook_event_name": "PermissionRequest",
            "cwd": "/workspace/project",
            "tool_name": "Bash",
            "tool_input": {{ "command": "{}" }}
        }}"#,
        "x".repeat(4000)
    );
    let event = json(&text);
    let message = message_for(&event);
    assert_eq!(message.chars().count(), MAX_QUESTION_CHARS);
    assert!(message.contains("… [truncated]"));
    assert!(message.ends_with("Do you want to allow this once?"));
}

#[test]
fn names_other_tools_by_their_parts() {
    assert_eq!(action_name("mcp__slack"), "Use slack to use a tool");
    assert_eq!(action_name("mcp__"), "Use  to use a tool");
    assert_eq!(action_name("mcp__a-b__c_d__e"), "Use a b to c d");
    assert_eq!(action_name("mcp__x___y"), "Use x to  y");
    assert_eq!(action_name("web_search-tool"), "web search tool");
}

#[test]
fn recognises_sensitive_names_and_text() {
    assert!(is_sensitive("X-Api-Key"));
    assert!(is_sensitive("client.secret"));
    assert!(!is_sensitive("path"));
    assert!(looks_sensitive("Bearer abc"));
    assert!(looks_sensitive("AKIAXXXX"));
    assert!(!looks_sensitive("ls -la"));
    assert_eq!(safe_text("ls"), "ls");
    assert_eq!(safe_text("ghp_123"), HIDDEN_INPUT);
}

#[test]
fn truncation_keeps_the_limit() {
    assert_eq!(truncate_chars("short", 10), "short");
    let cut = truncate_chars(&"y".repeat(30), 20);
    assert_eq!(cut.chars().count(), 20);
    assert!(cut.ends_with("\n… [truncated]"));
    assert_eq!(truncate_chars("abcdef", 3), "\n… [truncated]");
}

#[test]
fn sanitizing_drops_descriptions_and_hides_secrets_in_lists() {
    let value = json(r#"{"description": "x", "tokens": ["a", "b"], "list": ["sk-123", "ok", 5]}"#);
    let clean = to_value(&sanitize_value(&value, None));
    let expected: serde_json::Value = serde_json::from_str(&format!(
        r#"{{"tokens": "[HIDDEN]", "list": ["{}", "ok", 5]}}"#,
        HIDDEN_INPUT
    ))
    .unwrap();
    assert_eq!(clean, expected);
}

#[test]
fn only_the_allow_button_approves() {
    assert_eq!(to_value(&decision_for_answer("Allow once")), to_value(&allow_response()));
    assert_eq!(
        to_value(&decision_for_answer("Don't allow")),
        to_value(&deny_response("You chose not to allow this in Telegram."))
    );
    assert_eq!(
        to_value(&decision_for_answer("allow once")),
        to_value(&deny_response("You chose not to allow this in Telegram."))
    );
    assert_eq!(
        to_value(&failure_response()),
        to_value(&deny_response("You did not approve this in Telegram, so TALBot blocked it."))
    );
}

#[test]
fn rejects_other_events_and_missing_tools() {
    assert_eq!(check_event(&json(r#"{"hook_event_name": "Stop"}"#)), Err(HookError::NotPermissionRequest));
    assert_eq!(check_event(&json(r#"{"hook_event_name": "PermissionRequest"}"#)), Ok(()));
    let event = json(r#"{"hook_event_name": "PermissionRequest"}"#);
    assert_eq!(permission_message(&event), Err(HookError::MissingToolName));
    assert_eq!(HookError::MissingToolName.message(), "PermissionRequest is missing tool_name");
}

#[test]
fn unknown_folders_and_structured_previews() {
    let event = json(r#"{"tool_name": "mcp__fs__write", "tool_input": {"path": "/a", "description": "why"}}"#);
    let message = message_for(&event);
    assert!(message.contains("Folder: unknown"));
    assert!(message.contains("Why: why"));
    assert!(message.contains("\"path\": \"/a\""));
    assert!(!message.contains("\"description\""));
}

#[test]
fn previews_print_values_as_pretty_json() {
    let input = json(r#"{"b": [1, 2.5], "a": null}"#);
    let printed = render_preview(Preview::Structured(input.duplicate()));
    assert_eq!(printed, "{\n  \"a\": null,\n  \"b\": [\n    1,\n    2.5\n  ]\n}");
    assert_eq!(input_preview("mcp__x__y", &input), printed);
    assert!(matches!(preview_source("Bash", &json(r#"{"command": "ls"}"#)), Preview::Text(t) if t == "ls"));
    assert_eq!(input_preview("Bash", &json(r#"{"command": "ls"}"#)), "ls");
}

#[test]
fn hook_events_are_read_from_their_text() {
    assert_eq!(read_event("{").err(), Some(HookError::InvalidEventJson));
    assert_eq!(HookError::InvalidEventJson.message(), "invalid hook event JSON");
    assert_eq!(read_event(r#"{"hook_event_name": "Stop"}"#).err(), Some(HookError::NotPermissionRequest));
    let event = read_event(r#"{"hook_event_name": "PermissionRequest", "tool_name": "Bash"}"#).unwrap();
    assert_eq!(event.str_at("/tool_name"), Some("Bash"));
    assert_eq!(
        allow_response().to_text(),
        r#"{"hookSpecificOutput":{"decision":{"behavior":"allow"},"hookEventName":"PermissionRequest"}}"#
    );
}
