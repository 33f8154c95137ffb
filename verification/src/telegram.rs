//! The Telegram Bot API as text and values: where a call goes, what its reply means,
//! how the chat is found, and what the user is told.
use vstd::prelude::*;

use crate::json::{
    at_pointer, bool_of, field, parse_json, parsed_json, i64_at, i64_of, models_of, object2, str_of, Json, JsonModel,
};
use crate::text::{
    chars_of, contains, i64_text, int_text, join2, join3, lemma_absent_char, occurs_at, owned, trim,
    trimmed,
};

verus! {

/// Where Bot API calls go.
pub const API_BASE: &'static str = "https://api.telegram.org/bot";

/// What a failed transport is reported as, after the method name.
pub const TRANSPORT_FAILURE: &'static str = " request failed before Telegram replied";

/// The URL of a Bot API method.
pub open spec fn url_spec(token: Seq<char>, method: Seq<char>) -> Seq<char> {
    API_BASE@ + token + "/"@ + method
}

/// The URL of a Bot API method: `https://api.telegram.org/bot{token}/{method}`.
pub fn api_url(token: &str, method: &str) -> (s: String)
    ensures
        s@ == url_spec(token@, method@),
{
    let mut s = join3(API_BASE, token, "/");
    s.append(method);
    s
}

/// The error for a call that got no reply; it names the method only, never the URL.
pub fn transport_error(method: &str) -> (s: String)
    ensures
        s@ == method@ + TRANSPORT_FAILURE@,
{
    join2(method, TRANSPORT_FAILURE)
}

/// The error for a reply that is not JSON.
pub fn malformed_response(method: &str) -> (s: String)
    ensures
        s@ == method@ + " returned a malformed response"@,
{
    join2(method, " returned a malformed response")
}

/// A transport error cannot leak the bot URL, nor the token in it: when the method name
/// holds no `:` and no `/`, neither does the error, so neither the URL scheme nor
/// `api.telegram.org/bot` can occur in it, and no bot token, which always holds a `:`
/// between the bot's id and its secret, can either.
pub proof fn transport_error_hides_the_url(method: Seq<char>, token: Seq<char>)
    requires
        forall|i: int| 0 <= i < method.len() ==> method[i] != ':' && method[i] != '/',
        contains(token, ":"@),
    ensures
        !contains(method + TRANSPORT_FAILURE@, ":"@),
        !contains(method + TRANSPORT_FAILURE@, "api.telegram.org/bot"@),
        !contains(method + TRANSPORT_FAILURE@, token),
{
    reveal_strlit(" request failed before Telegram replied");
    reveal_strlit(":");
    reveal_strlit("api.telegram.org/bot");
    let s = method + TRANSPORT_FAILURE@;
    assert forall|i: int| 0 <= i < s.len() implies s[i] != ':' && s[i] != '/' by {
        if i < method.len() {
            assert(s[i] == method[i]);
        } else {
            assert(s[i] == TRANSPORT_FAILURE@[i - method.len()]);
        }
    }
    assert(":"@[0] == ':');
    lemma_absent_char(s, ":"@, 0);
    assert("api.telegram.org/bot"@[16] == '/');
    lemma_absent_char(s, "api.telegram.org/bot"@, 16);
    let k = choose|k: int| occurs_at(token, ":"@, k);
    assert(token.subrange(k, k + 1)[0] == ':');
    lemma_absent_char(s, token, k);
}

/// What a Bot API reply means: `ok: true` gives its `result` (`null` when absent);
/// anything else is an error with Telegram's description.
pub open spec fn reply_spec(method: Seq<char>, payload: JsonModel) -> Result<JsonModel, Seq<char>> {
    let ok = match field(payload, "ok"@) {
        Some(v) => bool_of(v) == Some(true),
        None => false,
    };
    if ok {
        Ok(
            match field(payload, "result"@) {
                Some(r) => r,
                None => JsonModel::Null,
            },
        )
    } else {
        let description = match field(payload, "description"@) {
            Some(d) => match str_of(d) {
                Some(t) => t,
                None => "no error description"@,
            },
            None => "no error description"@,
        };
        Err(method + " failed: "@ + description)
    }
}

/// Reads the text of a Bot API reply: it must be JSON, and is then read as a reply.
pub fn read_reply_text(method: &str, text: &str) -> (r: Result<Json, String>)
    ensures
        match parsed_json(text@) {
            None => r matches Err(e) && e@ == method@ + " returned a malformed response"@,
            Some(payload) => match r {
                Ok(j) => reply_spec(method@, payload) == Ok::<JsonModel, Seq<char>>(j@),
                Err(e) => reply_spec(method@, payload) == Err::<JsonModel, Seq<char>>(e@),
            },
        },
{
    match parse_json(text) {
        None => Err(malformed_response(method)),
        Some(payload) => read_reply(method, &payload),
    }
}

/// Reads a Bot API reply.
pub fn read_reply(method: &str, payload: &Json) -> (r: Result<Json, String>)
    ensures
        match r {
            Ok(j) => reply_spec(method@, payload@) == Ok::<JsonModel, Seq<char>>(j@),
            Err(e) => reply_spec(method@, payload@) == Err::<JsonModel, Seq<char>>(e@),
        },
{
    let ok = match payload.get("ok") {
        Some(v) => match v.as_bool() {
            Some(b) => b,
            None => false,
        },
        None => false,
    };
    if ok {
        match payload.get("result") {
            Some(r) => Ok(r.duplicate()),
            None => Ok(Json::Null),
        }
    } else {
        let description = match payload.get("description") {
            Some(d) => match d.as_str() {
                Some(t) => t,
                None => "no error description",
            },
            None => "no error description",
        };
        Err(join3(method, " failed: ", description))
    }
}

/// The `sendMessage` body for a plain message.
pub fn send_body(chat: &str, text: &str) -> (j: Json)
    ensures
        j@ == JsonModel::Object(
            seq![("chat_id"@, JsonModel::Str(chat@)), ("text"@, JsonModel::Str(text@))],
        ),
{
    object2("chat_id", Json::string(chat), "text", Json::string(text))
}

/// What `send` reports.
pub fn send_receipt(chat: &str) -> (s: String)
    ensures
        s@ == "sent to chat "@ + chat@,
{
    join2("sent to chat ", chat)
}

/// The chat an update came from: the message's chat, or else the edited message's.
pub open spec fn update_chat(update: JsonModel) -> Option<i64> {
    match at_pointer(update, "/message/chat/id"@) {
        Some(v) => i64_of(v),
        None => i64_at(update, "/edited_message/chat/id"@),
    }
}

/// The chat of the latest update in `updates[..end]` that names one.
pub open spec fn latest_chat(updates: Seq<JsonModel>, end: int) -> Option<i64>
    decreases end,
{
    if end <= 0 || end > updates.len() {
        None
    } else {
        match update_chat(updates[end - 1]) {
            Some(id) => Some(id),
            None => latest_chat(updates, end - 1),
        }
    }
}

/// The chat of the most recent update that names one, from a `getUpdates` result.
pub open spec fn discovered_chat(result: JsonModel) -> Option<i64> {
    match result {
        JsonModel::Array(items) => latest_chat(items, items.len() as int),
        _ => None,
    }
}

/// The chat an update came from.
pub fn chat_of_update(update: &Json) -> (r: Option<i64>)
    ensures
        r == update_chat(update@),
{
    match update.pointer("/message/chat/id") {
        Some(v) => v.as_i64(),
        None => update.i64_at("/edited_message/chat/id"),
    }
}

/// The chat of the most recent person to message the bot, from a `getUpdates` result.
pub fn discover_chat(result: &Json) -> (r: Option<i64>)
    ensures
        r == discovered_chat(result@),
{
    match result.as_array() {
        None => None,
        Some(items) => {
            let ghost ms = models_of(items@);
            let mut end = items.len();
            while end > 0
                invariant
                    end <= items@.len(),
                    ms == models_of(items@),
                    result@ == JsonModel::Array(ms),
                    latest_chat(ms, ms.len() as int) == latest_chat(ms, end as int),
                decreases end,
            {
                assert(ms[end - 1] == items@[end - 1]@);
                if let Some(id) = chat_of_update(&items[end - 1]) {
                    return Some(id);
                }
                end -= 1;
            }
            None
        },
    }
}

/// The text a discovered chat id is saved and used as.
pub fn chat_id_text(id: i64) -> (s: String)
    ensures
        s@ == int_text(id as int),
{
    i64_text(id)
}

/// The error when no chat can be found.
pub const NO_CHAT: &'static str = "no chat id found — send your bot a message on Telegram first";

/// Why `auth` refused.
#[derive(Debug, PartialEq, Eq, Clone, Copy, Structural)]
pub enum AuthError {
    NoToken,
    MissingUsername,
}

/// The sentence for each error.
pub open spec fn auth_error_text(e: AuthError) -> Seq<char> {
    match e {
        AuthError::NoToken => "no token given"@,
        AuthError::MissingUsername => "Telegram response is missing the bot username"@,
    }
}

impl AuthError {
    /// The sentence reported for this error.
    pub fn message(&self) -> (s: String)
        ensures
            s@ == auth_error_text(*self),
    {
        match self {
            AuthError::NoToken => owned("no token given"),
            AuthError::MissingUsername => owned("Telegram response is missing the bot username"),
        }
    }
}

/// The token to verify and store: the input, trimmed, which must not be blank.
pub fn auth_token(input: &str) -> (r: Result<String, AuthError>)
    ensures
        match r {
            Ok(t) => t@ == trim(input@) && t@.len() > 0,
            Err(e) => trim(input@).len() == 0 && e == AuthError::NoToken,
        },
{
    let t = trimmed(input);
    if chars_of(t.as_str()).len() == 0 {
        Err(AuthError::NoToken)
    } else {
        Ok(t)
    }
}

/// The bot's username from a `getMe` result.
pub fn bot_username(me: &Json) -> (r: Result<String, AuthError>)
    ensures
        match r {
            Ok(u) => match field(me@, "username"@) {
                Some(v) => str_of(v) == Some(u@),
                None => false,
            },
            Err(e) => e == AuthError::MissingUsername && match field(me@, "username"@) {
                Some(v) => str_of(v) is None,
                None => true,
            },
        },
{
    match me.get("username") {
        Some(v) => match v.as_str() {
            Some(u) => Ok(owned(u)),
            None => Err(AuthError::MissingUsername),
        },
        None => Err(AuthError::MissingUsername),
    }
}

/// What `auth` prints once the token is stored.
pub fn token_saved_text(username: &str, path: &str) -> (s: String)
    ensures
        s@ == "token ok (bot @"@ + username@ + "), saved to "@ + path@,
{
    let mut s = join3("token ok (bot @", username, "), saved to ");
    s.append(path);
    s
}

/// What `auth` prints when no chat id was given.
pub fn no_chat_id_text(username: &str) -> (s: String)
    ensures
        s@ == "no chat id given — send @"@ + username@
            + " any message on Telegram, it will be auto-discovered on first send"@,
{
    join3(
        "no chat id given — send @",
        username,
        " any message on Telegram, it will be auto-discovered on first send",
    )
}

/// What `auth` prints once the chat id is stored.
pub fn chat_id_saved_text(path: &str) -> (s: String)
    ensures
        s@ == "chat_id saved to "@ + path@,
{
    join2("chat_id saved to ", path)
}

/// What `status` prints: the token line and, when a token is set, the chat line.
pub fn status_lines(token: Result<(), &str>, chat: Result<&str, &str>) -> (v: Vec<String>)
    ensures
        match token {
            Err(e) => v@.len() == 1 && v@[0]@ == "token: "@ + e@,
            Ok(_) => v@.len() == 2 && v@[0]@ == "token: configured"@ && v@[1]@ == "chat_id: "@
                + match chat {
                Ok(id) => id@,
                Err(e) => e@,
            },
        },
{
    match token {
        Err(e) => vec![join2("token: ", e)],
        Ok(_) => {
            let line = match chat {
                Ok(id) => join2("chat_id: ", id),
                Err(e) => join2("chat_id: ", e),
            };
            vec![owned("token: configured"), line]
        },
    }
}

/// Discovery looks at every update, the first of a batch too: the chat found is that of
/// the latest update that names one, and none is found only when no update names a chat.
pub proof fn discovery_finds_the_latest_chat(updates: Seq<JsonModel>, i: int)
    ensures
        0 <= i < updates.len() && update_chat(updates[i]) is Some && (forall|j: int|
            i < j < updates.len() ==> update_chat(#[trigger] updates[j]) is None) ==> discovered_chat(
            JsonModel::Array(updates),
        ) == update_chat(updates[i]),
        (forall|j: int| 0 <= j < updates.len() ==> update_chat(#[trigger] updates[j]) is None)
            ==> discovered_chat(JsonModel::Array(updates)) is None,
{
    if 0 <= i < updates.len() && update_chat(updates[i]) is Some && (forall|j: int|
        i < j < updates.len() ==> update_chat(#[trigger] updates[j]) is None) {
        lemma_latest_from(updates, i, updates.len() as int);
    }
    if forall|j: int| 0 <= j < updates.len() ==> update_chat(#[trigger] updates[j]) is None {
        lemma_latest_none(updates, updates.len() as int);
    }
}

proof fn lemma_latest_from(updates: Seq<JsonModel>, i: int, end: int)
    requires
        0 <= i < end <= updates.len(),
        update_chat(updates[i]) is Some,
        forall|j: int| i < j < updates.len() ==> update_chat(#[trigger] updates[j]) is None,
    ensures
        latest_chat(updates, end) == update_chat(updates[i]),
    decreases end,
{
    if end - 1 > i {
        assert(update_chat(updates[end - 1]) is None);
        lemma_latest_from(updates, i, end - 1);
    }
}

proof fn lemma_latest_none(updates: Seq<JsonModel>, end: int)
    requires
        0 <= end <= updates.len(),
        forall|j: int| 0 <= j < updates.len() ==> update_chat(#[trigger] updates[j]) is None,
    ensures
        latest_chat(updates, end) is None,
    decreases end,
{
    if end > 0 {
        assert(update_chat(updates[end - 1]) is None);
        lemma_latest_none(updates, end - 1);
    }
}

} // verus!
