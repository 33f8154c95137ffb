use talbot::json::{Json, JsonNumber};
use talbot::question::{
    check_question, edit_body, expired_text, expiry_error, lock_is_stale, next_offset,
    parse_answer, pending_after, poll_step, private_chat_user, question_body, request_id_text,
    shown_question, updates_body, wait_label, AskAction, AskError, AskEvent, AskPhase, Asker,
    AskSession, IncomingAnswer, PendingStep, PollStep, WITHDRAWN_ERROR,
};

fn json(text: &str) -> Json {
    from_value(&serde_json::from_str(text).unwrap())
}

fn from_value(v: &serde_json::Value) -> Json {
    match v {
        serde_json::Value::Null => Json::Null,
        serde_json::Value::Bool(b) => Json::Bool(*b),
        serde_json::Value::Number(n) => Json::Number(if let Some(u) = n.as_u64() {
            JsonNumber::PosInt(u)
        } else if let Some(i) = n.as_i64() {
            JsonNumber::NegInt(i)
        } else {
            JsonNumber::Float(n.to_string())
        }),
        serde_json::Value::String(s) => Json::Str(s.clone()),
        serde_json::Value::Array(a) => Json::Array(a.iter().map(from_value).collect()),
        serde_json::Value::Object(m) => {
            Json::Object(m.iter().map(|(k, v)| (k.clone(), from_value(v))).collect())
        }
    }
}

fn choices() -> Vec<String> {
    vec!["First".to_string(), "Second".to_string()]
}

#[test]
fn advances_past_the_latest_update() {
    let updates = vec![json(r#"{ "update_id": 7 }"#), json(r#"{ "update_id": 11 }"#)];
    assert_eq!(next_offset(&updates), Some(12));
    assert_eq!(next_offset(&[]), None);
}

#[test]
fn parses_matching_button_answer() {
    let update = json(
        r#"{
            "callback_query": {
                "id": "callback-1",
                "from": { "id": 42 },
                "message": { "chat": { "id": 42 } },
                "data": "talbot:request-1:1"
            }
        }"#,
    );
    assert_eq!(
        parse_answer(&update, 42, "request-1", &choices()),
        Some(IncomingAnswer::Choice {
            text: "Second".to_string(),
            callback_query_id: "callback-1".to_string()
        })
    );
}

#[test]
fn rejects_button_from_another_user_or_request() {
    let wrong_user = json(
        r#"{
            "callback_query": {
                "id": "callback-1",
                "from": { "id": 99 },
                "message": { "chat": { "id": 42 } },
                "data": "talbot:request-1:0"
            }
        }"#,
    );
    let wrong_request = json(
        r#"{
            "callback_query": {
                "id": "callback-1",
                "from": { "id": 42 },
                "message": { "chat": { "id": 42 } },
                "data": "talbot:old-request:0"
            }
        }"#,
    );
    assert_eq!(parse_answer(&wrong_user, 42, "request-1", &choices()), None);
    assert_eq!(
        parse_answer(&wrong_request, 42, "request-1", &choices()),
        None
    );
}

#[test]
fn parses_text_from_the_configured_private_chat() {
    let update = json(
        r#"{
            "message": {
                "from": { "id": 42 },
                "chat": { "id": 42 },
                "text": "A custom answer"
            }
        }"#,
    );
    assert_eq!(
        parse_answer(&update, 42, "request-1", &choices()),
        Some(IncomingAnswer::Text("A custom answer".to_string()))
    );
}

#[test]
fn formats_waits_for_expiry_messages() {
    assert_eq!(wait_label(30), "30 seconds");
    assert_eq!(wait_label(60), "1 minute");
    assert_eq!(wait_label(15 * 60), "15 minutes");
    assert_eq!(wait_label(2 * 60 * 60), "2 hours");
}

#[test]
fn expired_message_is_unambiguous() {
    assert_eq!(
        expired_text("Deploy now?", "2 hours"),
        "Deploy now?\n\n⌛ Expired after 2 hours — Codex stopped waiting. Ask again if you still want to answer."
    );
}

#[test]
fn buttons_must_name_an_existing_choice() {
    let update = |data: &str| {
        json(&format!(
            r#"{{"callback_query": {{"id": "c", "from": {{"id": 42}}, "message": {{"chat": {{"id": 42}}}}, "data": "{}"}}}}"#,
            data
        ))
    };
    assert_eq!(parse_answer(&update("talbot:r:2"), 42, "r", &choices()), None);
    assert_eq!(parse_answer(&update("talbot:r:x"), 42, "r", &choices()), None);
    assert_eq!(
        parse_answer(&update("talbot:r:+0"), 42, "r", &choices()),
        Some(IncomingAnswer::Choice { text: "First".to_string(), callback_query_id: "c".to_string() })
    );
    let blank = json(r#"{"message": {"from": {"id": 42}, "chat": {"id": 42}, "text": "   "}}"#);
    assert_eq!(parse_answer(&blank, 42, "r", &choices()), None);
    let group = json(r#"{"message": {"from": {"id": 42}, "chat": {"id": -7}, "text": "hi"}}"#);
    assert_eq!(parse_answer(&group, 42, "r", &choices()), None);
}

#[test]
fn answers_have_text() {
    let choice = IncomingAnswer::Choice { text: "Yes".to_string(), callback_query_id: "c".to_string() };
    assert_eq!(choice.text(), "Yes");
    assert_eq!(IncomingAnswer::Text("Later".to_string()).text(), "Later");
}

#[test]
fn checks_questions_before_asking() {
    let two = vec![" Yes ".to_string(), "No".to_string()];
    let checked = check_question("  Ship it?  ", &two, 30).unwrap();
    assert_eq!(checked.question, "Ship it?");
    assert_eq!(checked.choices, vec!["Yes".to_string(), "No".to_string()]);
    assert_eq!(check_question(" ", &two, 30).err(), Some(AskError::EmptyQuestion));
    assert_eq!(check_question(&"q".repeat(3001), &two, 30).err(), Some(AskError::QuestionTooLong));
    assert_eq!(check_question("q", &vec!["a".to_string()], 30).err(), Some(AskError::ChoiceCount));
    assert_eq!(check_question("q", &two, 29).err(), Some(AskError::TimeoutRange));
    assert_eq!(check_question("q", &two, 7201).err(), Some(AskError::TimeoutRange));
    let long = vec!["a".to_string(), "b".repeat(65)];
    assert_eq!(check_question("q", &long, 60).err(), Some(AskError::ChoiceLength));
    assert_eq!(AskError::TimeoutRange.message(), "timeout_seconds must be between 30 and 7200");
}

#[test]
fn skips_stale_updates_in_batches() {
    assert_eq!(pending_after(Some(5), &[], 0), Ok(PendingStep::Done(Some(5))));
    let few = vec![json(r#"{"update_id": 3}"#)];
    assert_eq!(pending_after(None, &few, 0), Ok(PendingStep::Done(Some(4))));
    let full: Vec<Json> = (0..100).map(|i| json(&format!(r#"{{"update_id": {}}}"#, i))).collect();
    assert_eq!(pending_after(None, &full, 0), Ok(PendingStep::More(Some(100))));
    assert_eq!(pending_after(None, &full, 99), Err(AskError::TooManyPending));
}

#[test]
fn polls_until_the_wait_is_over() {
    assert_eq!(poll_step(0, 0), PollStep::Expire);
    assert_eq!(poll_step(0, 5), PollStep::Poll(1));
    assert_eq!(poll_step(600, 0), PollStep::Poll(25));
    assert_eq!(poll_step(7, 0), PollStep::Poll(7));
}

#[test]
fn a_session_moves_past_what_it_read() {
    let mut session = AskSession { offset: None, user_id: 42, request_id: "r".to_string(), choices: choices() };
    let updates = vec![
        json(r#"{"update_id": 5, "message": {"from": {"id": 1}, "chat": {"id": 1}, "text": "spam"}}"#),
        json(r#"{"update_id": 6, "message": {"from": {"id": 42}, "chat": {"id": 42}, "text": " ok "}}"#),
    ];
    assert_eq!(session.receive(&updates), Some(IncomingAnswer::Text("ok".to_string())));
    assert_eq!(session.offset, Some(7));
    assert_eq!(session.receive(&[]), None);
    assert_eq!(session.offset, Some(7));
}

#[test]
fn builds_the_bot_api_bodies() {
    let body = question_body("42", "Ship?", &choices(), "r1");
    assert_eq!(body.str_at("/text"), Some("Ship?\n\nTap a choice below, or send a text reply."));
    assert_eq!(body.str_at("/reply_markup/inline_keyboard/1/0/callback_data"), Some("talbot:r1:1"));
    assert_eq!(body.str_at("/reply_markup/inline_keyboard/0/0/text"), Some("First"));
    let edit = edit_body("42", 9, "done");
    assert_eq!(edit.i64_at("/message_id"), Some(9));
    assert!(matches!(edit.pointer("/reply_markup/inline_keyboard"), Some(Json::Array(rows)) if rows.is_empty()));
    let updates = updates_body(Some(12), 25);
    assert_eq!(updates.i64_at("/offset"), Some(12));
    assert_eq!(updates.i64_at("/limit"), Some(100));
    assert!(updates_body(None, 0).pointer("/offset").is_none());
}

#[test]
fn questions_need_a_private_chat() {
    assert_eq!(private_chat_user(&json(r#"{"type": "private", "id": 42}"#)), Ok(42));
    assert_eq!(private_chat_user(&json(r#"{"type": "group", "id": 42}"#)), Err(AskError::NotPrivateChat));
    assert_eq!(private_chat_user(&json(r#"{"type": "private"}"#)), Err(AskError::MissingChatId));
}

#[test]
fn small_texts() {
    assert_eq!(expiry_error("1 minute"), "Telegram question expired after 1 minute; the buttons were removed. Do not assume an answer or continue work that depends on one");
    assert_eq!(shown_question("Ship?", Some("CI")), "🚨 Action needed\n\nCI\n\nShip?");
    assert_eq!(shown_question("Ship?", None), "Ship?");
    assert_eq!(request_id_text(0x1f, 0xabc), "1fabc");
    assert!(lock_is_stale(7501, 0));
    assert!(!lock_is_stale(7500, 0));
    assert!(lock_is_stale(7500, 1));
    assert_eq!(wait_label(3601), "3601 seconds");
    assert_eq!(wait_label(0), "0 hours");
}

fn call_of(action: AskAction) -> (String, Json) {
    match action {
        AskAction::Call { method, body } => (method, body),
        other => panic!("expected a call, got {other:?}"),
    }
}

fn tick(secs: u64, cancelled: bool) -> AskEvent {
    AskEvent::Tick { remaining_secs: secs, remaining_nanos: 0, cancelled }
}

fn ok(text: &str) -> AskEvent {
    AskEvent::Replied(Ok(json(text)))
}

/// A question walked up to the point where it waits for an answer to message 9.
fn waiting_asker() -> Asker {
    let (mut asker, action) =
        Asker::start("  Ship?  ", &vec![" First ".to_string(), "Second".to_string()], 60, None, "42", "r1")
            .unwrap();
    let (method, body) = call_of(action);
    assert_eq!(method, "getChat");
    assert_eq!(body.str_at("/chat_id"), Some("42"));
    assert!(matches!(asker.step(ok(r#"{"type": "private", "id": 42}"#)), AskAction::Lock));
    let (method, body) = call_of(asker.step(AskEvent::Locked));
    assert_eq!(method, "getUpdates");
    assert_eq!(body.i64_at("/timeout"), Some(0));
    let (method, body) = call_of(asker.step(ok(r#"[]"#)));
    assert_eq!(method, "sendMessage");
    assert_eq!(body.str_at("/text"), Some("Ship?\n\nTap a choice below, or send a text reply."));
    assert_eq!(body.str_at("/reply_markup/inline_keyboard/0/0/text"), Some("First"));
    assert_eq!(body.str_at("/reply_markup/inline_keyboard/1/0/callback_data"), Some("talbot:r1:1"));
    assert!(matches!(asker.step(ok(r#"{"message_id": 9}"#)), AskAction::Tick));
    assert_eq!(asker.phase, AskPhase::Waiting);
    asker
}

#[test]
fn asking_checks_the_question_first() {
    let err = Asker::start("", &choices(), 60, None, "42", "r1").err();
    assert_eq!(err, Some(AskError::EmptyQuestion));
    let err = Asker::start("Ship?", &choices(), 10, None, "42", "r1").err();
    assert_eq!(err, Some(AskError::TimeoutRange));
}

#[test]
fn asking_refuses_a_group_chat() {
    let (mut asker, _) = Asker::start("Ship?", &choices(), 60, None, "42", "r1").unwrap();
    match asker.step(ok(r#"{"type": "group", "id": 42}"#)) {
        AskAction::Finish(Err(e)) => assert_eq!(e, "interactive questions require a private Telegram chat"),
        other => panic!("unexpected {other:?}"),
    }
    assert_eq!(asker.phase, AskPhase::Done);
    assert!(matches!(asker.step(AskEvent::Locked), AskAction::Finish(Err(_))));
}

#[test]
fn expired_questions_lose_their_buttons() {
    let mut asker = waiting_asker();
    let (method, body) = call_of(asker.step(tick(0, false)));
    assert_eq!(method, "editMessageText");
    assert_eq!(body.i64_at("/message_id"), Some(9));
    assert_eq!(body.str_at("/text"), Some(expired_text("Ship?", "1 minute").as_str()));
    assert!(matches!(body.pointer("/reply_markup/inline_keyboard"), Some(Json::Array(rows)) if rows.is_empty()));
    match asker.step(ok("true")) {
        AskAction::Finish(Err(e)) => assert_eq!(e, expiry_error("1 minute")),
        other => panic!("unexpected {other:?}"),
    }
}

#[test]
fn button_answers_are_acknowledged_and_marked() {
    let mut asker = waiting_asker();
    let (method, body) = call_of(asker.step(tick(40, false)));
    assert_eq!(method, "getUpdates");
    assert_eq!(body.i64_at("/timeout"), Some(25));
    let updates = r#"[{"update_id": 5, "callback_query": {"id": "cb", "from": {"id": 42},
        "message": {"chat": {"id": 42}}, "data": "talbot:r1:0"}}]"#;
    let (method, body) = call_of(asker.step(ok(updates)));
    assert_eq!(method, "answerCallbackQuery");
    assert_eq!(body.str_at("/callback_query_id"), Some("cb"));
    let (method, body) = call_of(asker.step(AskEvent::Replied(Err("network down".to_string()))));
    assert_eq!(method, "editMessageText");
    assert_eq!(body.str_at("/text"), Some("Ship?\n\n✅ Answered: First"));
    match asker.step(ok("true")) {
        AskAction::Finish(Ok(answer)) => assert_eq!(answer, "First"),
        other => panic!("unexpected {other:?}"),
    }
    assert_eq!(asker.session.offset, Some(6));
}

#[test]
fn cancelled_questions_are_withdrawn_in_telegram() {
    let mut asker = waiting_asker();
    let (method, body) = call_of(asker.step(tick(40, true)));
    assert_eq!(method, "editMessageText");
    assert!(body.str_at("/text").unwrap().starts_with("Ship?"));
    match asker.step(AskEvent::Replied(Err("gone".to_string()))) {
        AskAction::Finish(Err(e)) => assert_eq!(e, WITHDRAWN_ERROR),
        other => panic!("unexpected {other:?}"),
    }
}
