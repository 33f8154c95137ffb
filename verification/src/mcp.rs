//! The MCP server's decisions: how each JSON-RPC message is routed and answered, the
//! `notify` and `ask` tools, and which in-flight `ask` calls are cancelled.
use vstd::prelude::*;

use crate::conversation::{title, title_error, title_error_text, titled, titled_text, MAX_TITLE_CHARS};
use crate::json::{
    array1, array2, at_pointer, bool_of, compact_json, compact_text, entry_from, field, parse_json, parsed_json, same_chars, models_of, object0, object1, object2, object3,
    object4, object5, str_at, str_of, u64_of, Json, JsonModel, NumberModel,
};
use crate::question::{
    action_required_spec, action_required_text_with_title, DEFAULT_TIMEOUT_SECS,
    MAX_TIMEOUT_SECS, MIN_TIMEOUT_SECS, views,
};
use crate::text::{chars_of, debug_quoted, debug_str, equals_str, join2, join3, owned, trim, trim_str};

verus! {

/// The protocol version answered when the client names none.
pub const DEFAULT_PROTOCOL_VERSION: &'static str = "2024-11-05";

/// The server's name.
pub const SERVER_NAME: &'static str = "talbot";

/// The JSON-RPC error code for an unknown method.
pub const METHOD_NOT_FOUND: i64 = -32601;

/// What the `notify` tool is for.
pub const NOTIFY_DESCRIPTION: &'static str = "Send the user a short Telegram message when work is ready, you need something from them, or a long task finishes. Write like a normal person: use plain everyday language and avoid developer jargon, internal names, and acronyms unless the user needs an exact detail. On the first TALBot message in a conversation, choose a short title for that conversation. Reuse the exact same title in every later call.";

/// What `notify`'s message is.
pub const NOTIFY_MESSAGE_DESCRIPTION: &'static str = "One or two plain sentences saying what happened, where to look, and what the user needs to do";

/// What the conversation title is.
pub const TITLE_DESCRIPTION: &'static str = "A short title chosen on the first TALBot use in this conversation and reused unchanged in every later ask or notify call, for example Finance Page";

/// What `action_required` does.
pub const ACTION_DESCRIPTION: &'static str = "Set this to true only when the user must answer or do something. TALBot will add the action-needed marker.";

/// What the `ask` tool is for.
pub const ASK_DESCRIPTION: &'static str = "Ask the user a question in Telegram and wait for their answer. Write it like a short message to a person, using plain everyday language with no developer jargon. TALBot adds an action-needed marker. On the first TALBot message in a conversation, choose a short title and reuse the exact same title in every later call. The user can tap a choice or reply with text. Questions expire after at most two hours; if that happens, stop work that needs the answer.";

/// What `ask`'s message is.
pub const ASK_MESSAGE_DESCRIPTION: &'static str = "A short, plain-language question";

/// What `ask`'s choices are.
pub const CHOICES_DESCRIPTION: &'static str = "Two to eight short button labels";

/// What `ask`'s timeout is.
pub const TIMEOUT_DESCRIPTION: &'static str = "How long to wait for an answer";

/// The pattern a conversation title must match: one line.
pub const TITLE_PATTERN: &'static str = "^[^\\r\\n]+$";

/// A number model for a non-negative count.
pub open spec fn count(n: u64) -> JsonModel {
    JsonModel::Number(NumberModel::PosInt(n))
}

/// `{"type": "string", "description": d}`.
pub open spec fn string_property(d: Seq<char>) -> JsonModel {
    JsonModel::Object(seq![("type"@, JsonModel::Str("string"@)), ("description"@, JsonModel::Str(d))])
}

/// The schema of the conversation title.
pub open spec fn title_property() -> JsonModel {
    JsonModel::Object(
        seq![
            ("type"@, JsonModel::Str("string"@)),
            ("description"@, JsonModel::Str(TITLE_DESCRIPTION@)),
            ("minLength"@, count(1)),
            ("maxLength"@, count(MAX_TITLE_CHARS as u64)),
            ("pattern"@, JsonModel::Str(TITLE_PATTERN@)),
        ],
    )
}

/// The schema of the `notify` tool.
pub open spec fn notify_tool() -> JsonModel {
    let action = JsonModel::Object(
        seq![
            ("type"@, JsonModel::Str("boolean"@)),
            ("description"@, JsonModel::Str(ACTION_DESCRIPTION@)),
            ("default"@, JsonModel::Bool(false)),
        ],
    );
    let properties = JsonModel::Object(
        seq![
            ("message"@, string_property(NOTIFY_MESSAGE_DESCRIPTION@)),
            ("conversation_title"@, title_property()),
            ("action_required"@, action),
        ],
    );
    let schema = JsonModel::Object(
        seq![
            ("type"@, JsonModel::Str("object"@)),
            ("properties"@, properties),
            ("required"@, JsonModel::Array(seq![JsonModel::Str("conversation_title"@), JsonModel::Str("message"@)])),
        ],
    );
    JsonModel::Object(
        seq![
            ("name"@, JsonModel::Str("notify"@)),
            ("description"@, JsonModel::Str(NOTIFY_DESCRIPTION@)),
            ("inputSchema"@, schema),
        ],
    )
}

/// The schema of the `ask` tool.
pub open spec fn ask_tool() -> JsonModel {
    let items = JsonModel::Object(
        seq![
            ("type"@, JsonModel::Str("string"@)),
            ("minLength"@, count(1)),
            ("maxLength"@, count(64)),
        ],
    );
    let choices = JsonModel::Object(
        seq![
            ("type"@, JsonModel::Str("array"@)),
            ("description"@, JsonModel::Str(CHOICES_DESCRIPTION@)),
            ("items"@, items),
            ("minItems"@, count(2)),
            ("maxItems"@, count(8)),
        ],
    );
    let timeout = JsonModel::Object(
        seq![
            ("type"@, JsonModel::Str("integer"@)),
            ("description"@, JsonModel::Str(TIMEOUT_DESCRIPTION@)),
            ("minimum"@, count(MIN_TIMEOUT_SECS)),
            ("maximum"@, count(MAX_TIMEOUT_SECS)),
            ("default"@, count(DEFAULT_TIMEOUT_SECS)),
        ],
    );
    let properties = JsonModel::Object(
        seq![
            ("message"@, string_property(ASK_MESSAGE_DESCRIPTION@)),
            ("conversation_title"@, title_property()),
            ("choices"@, choices),
            ("timeout_seconds"@, timeout),
        ],
    );
    let schema = JsonModel::Object(
        seq![
            ("type"@, JsonModel::Str("object"@)),
            ("properties"@, properties),
            ("required"@, JsonModel::Array(seq![
                JsonModel::Str("conversation_title"@),
                JsonModel::Str("message"@),
                JsonModel::Str("choices"@),
            ])),
        ],
    );
    JsonModel::Object(
        seq![
            ("name"@, JsonModel::Str("ask"@)),
            ("description"@, JsonModel::Str(ASK_DESCRIPTION@)),
            ("inputSchema"@, schema),
        ],
    )
}

/// The result of `tools/list`.
pub open spec fn tools_list_spec() -> JsonModel {
    JsonModel::Object(seq![("tools"@, JsonModel::Array(seq![notify_tool(), ask_tool()]))])
}

fn string_property_json(d: &str) -> (j: Json)
    ensures
        j@ == string_property(d@),
{
    object2("type", Json::string("string"), "description", Json::string(d))
}

fn title_property_json() -> (j: Json)
    ensures
        j@ == title_property(),
{
    object5(
        "type",
        Json::string("string"),
        "description",
        Json::string(TITLE_DESCRIPTION),
        "minLength",
        Json::unsigned(1),
        "maxLength",
        Json::unsigned(MAX_TITLE_CHARS as u64),
        "pattern",
        Json::string(TITLE_PATTERN),
    )
}

fn notify_tool_json() -> (j: Json)
    ensures
        j@ == notify_tool(),
{
    let action = object3(
        "type",
        Json::string("boolean"),
        "description",
        Json::string(ACTION_DESCRIPTION),
        "default",
        Json::Bool(false),
    );
    let properties = object3(
        "message",
        string_property_json(NOTIFY_MESSAGE_DESCRIPTION),
        "conversation_title",
        title_property_json(),
        "action_required",
        action,
    );
    let required = array2(Json::string("conversation_title"), Json::string("message"));
    let schema = object3(
        "type",
        Json::string("object"),
        "properties",
        properties,
        "required",
        required,
    );
    object3("name", Json::string("notify"), "description", Json::string(NOTIFY_DESCRIPTION), "inputSchema", schema)
}

fn ask_tool_json() -> (j: Json)
    ensures
        j@ == ask_tool(),
{
    let items = object3(
        "type",
        Json::string("string"),
        "minLength",
        Json::unsigned(1),
        "maxLength",
        Json::unsigned(64),
    );
    let choices = object5(
        "type",
        Json::string("array"),
        "description",
        Json::string(CHOICES_DESCRIPTION),
        "items",
        items,
        "minItems",
        Json::unsigned(2),
        "maxItems",
        Json::unsigned(8),
    );
    let timeout = object5(
        "type",
        Json::string("integer"),
        "description",
        Json::string(TIMEOUT_DESCRIPTION),
        "minimum",
        Json::unsigned(MIN_TIMEOUT_SECS),
        "maximum",
        Json::unsigned(MAX_TIMEOUT_SECS),
        "default",
        Json::unsigned(DEFAULT_TIMEOUT_SECS),
    );
    let properties = object4(
        "message",
        string_property_json(ASK_MESSAGE_DESCRIPTION),
        "conversation_title",
        title_property_json(),
        "choices",
        choices,
        "timeout_seconds",
        timeout,
    );
    let required = Json::Array(
        vec![Json::string("conversation_title"), Json::string("message"), Json::string("choices")],
    );
    proof {
        assert(models_of(required->Array_0@) =~= seq![
            JsonModel::Str("conversation_title"@),
            JsonModel::Str("message"@),
            JsonModel::Str("choices"@),
        ]);
    }
    let schema = object3(
        "type",
        Json::string("object"),
        "properties",
        properties,
        "required",
        required,
    );
    object3("name", Json::string("ask"), "description", Json::string(ASK_DESCRIPTION), "inputSchema", schema)
}

/// The result of `tools/list`: the `notify` and `ask` tools with their input schemas.
pub fn tools_list() -> (j: Json)
    ensures
        j@ == tools_list_spec(),
{
    object1("tools", array2(notify_tool_json(), ask_tool_json()))
}

/// A text result, marked as an error when `is_error`.
pub open spec fn tool_result_spec(text: Seq<char>, is_error: bool) -> JsonModel {
    let content = JsonModel::Array(
        seq![JsonModel::Object(seq![("type"@, JsonModel::Str("text"@)), ("text"@, JsonModel::Str(text))])],
    );
    if is_error {
        JsonModel::Object(seq![("content"@, content), ("isError"@, JsonModel::Bool(true))])
    } else {
        JsonModel::Object(seq![("content"@, content)])
    }
}

fn text_content(text: &str) -> (j: Json)
    ensures
        j@ == JsonModel::Array(
            seq![JsonModel::Object(seq![("type"@, JsonModel::Str("text"@)), ("text"@, JsonModel::Str(text@))])],
        ),
{
    array1(object2("type", Json::string("text"), "text", Json::string(text)))
}

/// A successful tool result holding `message`.
pub fn tool_success(message: &str) -> (j: Json)
    ensures
        j@ == tool_result_spec(message@, false),
{
    object1("content", text_content(message))
}

/// A failed tool result holding `message`.
pub fn tool_error(message: &str) -> (j: Json)
    ensures
        j@ == tool_result_spec(message@, true),
{
    object2("content", text_content(message), "isError", Json::Bool(true))
}

/// The result of a question that was answered.
pub fn answered_result(answer: &str) -> (j: Json)
    ensures
        j@ == tool_result_spec("User answered: "@ + answer@, false),
{
    tool_success(join2("User answered: ", answer).as_str())
}

/// A JSON-RPC reply to request `id`.
pub open spec fn reply_spec(id: JsonModel, outcome: Result<JsonModel, JsonModel>) -> JsonModel {
    match outcome {
        Ok(r) => JsonModel::Object(seq![("jsonrpc"@, JsonModel::Str("2.0"@)), ("id"@, id), ("result"@, r)]),
        Err(e) => JsonModel::Object(seq![("jsonrpc"@, JsonModel::Str("2.0"@)), ("id"@, id), ("error"@, e)]),
    }
}

/// The model of an outcome.
pub open spec fn outcome_model(o: Result<Json, Json>) -> Result<JsonModel, JsonModel> {
    match o {
        Ok(r) => Ok(r@),
        Err(e) => Err(e@),
    }
}

/// The JSON-RPC reply to request `id`: its `result`, or its `error`.
pub fn reply(id: &Json, outcome: Result<Json, Json>) -> (j: Json)
    ensures
        j@ == reply_spec(id@, outcome_model(outcome)),
{
    match outcome {
        Ok(r) => object3("jsonrpc", Json::string("2.0"), "id", id.duplicate(), "result", r),
        Err(e) => object3("jsonrpc", Json::string("2.0"), "id", id.duplicate(), "error", e),
    }
}


/// How the server handles an incoming message.
#[derive(Debug, PartialEq, Eq, Clone, Copy, Structural)]
pub enum Route {
    /// A cancellation notice for an in-flight request.
    Cancel,
    /// A notification that needs no reply.
    Ignore,
    /// An `ask` call, which waits for the user and so runs beside the reading loop.
    Blocking,
    /// Anything else, answered at once.
    Immediate,
}

/// The message's method, `""` when absent.
pub open spec fn method_of(message: JsonModel) -> Seq<char> {
    match field(message, "method"@) {
        Some(v) => match str_of(v) {
            Some(m) => m,
            None => ""@,
        },
        None => ""@,
    }
}

/// A `tools/call` of the `ask` tool.
pub open spec fn blocking_ask(message: JsonModel) -> bool {
    method_of(message) == "tools/call"@ && str_at(message, "/params/name"@) == Some("ask"@)
}

/// Cancellations first, then messages without an id (notifications), then `ask` calls.
pub open spec fn route_spec(message: JsonModel) -> Route {
    if method_of(message) == "notifications/cancelled"@ {
        Route::Cancel
    } else if field(message, "id"@) is None {
        Route::Ignore
    } else if blocking_ask(message) {
        Route::Blocking
    } else {
        Route::Immediate
    }
}

/// The message's method.
pub fn method(message: &Json) -> (m: &str)
    ensures
        m@ == method_of(message@),
{
    match message.get("method") {
        Some(v) => match v.as_str() {
            Some(m) => m,
            None => "",
        },
        None => "",
    }
}

/// Whether the message is a `tools/call` of the `ask` tool.
pub fn is_blocking_ask(message: &Json) -> (b: bool)
    ensures
        b == blocking_ask(message@),
{
    let is_call = equals_str(&chars_of(method(message)), "tools/call");
    let is_ask = match message.str_at("/params/name") {
        Some(n) => equals_str(&chars_of(n), "ask"),
        None => false,
    };
    is_call && is_ask
}

/// How the server handles an incoming message.
pub fn route(message: &Json) -> (r: Route)
    ensures
        r == route_spec(message@),
{
    if equals_str(&chars_of(method(message)), "notifications/cancelled") {
        Route::Cancel
    } else if message.get("id").is_none() {
        Route::Ignore
    } else if is_blocking_ask(message) {
        Route::Blocking
    } else {
        Route::Immediate
    }
}

/// The model of the in-flight requests: each request's key (its id as compact JSON text)
/// with its ticket; each ticket whose request has not finished, with whether it was
/// cancelled; and the next ticket.
pub struct RequestsModel {
    pub entries: Seq<(Seq<char>, nat)>,
    pub flags: Seq<(nat, bool)>,
    pub next: nat,
}

/// The first entry for `key` at or after `from`, or -1.
pub open spec fn entry_for(entries: Seq<(Seq<char>, nat)>, key: Seq<char>, from: int) -> int
    decreases entries.len() - from,
{
    if from < 0 || from >= entries.len() {
        -1
    } else if entries[from].0 == key {
        from
    } else {
        entry_for(entries, key, from + 1)
    }
}

/// The ticket of the in-flight request whose key is `key`.
pub open spec fn ticket_of(m: RequestsModel, key: Seq<char>) -> Option<nat> {
    let i = entry_for(m.entries, key, 0);
    if i >= 0 {
        Some(m.entries[i].1)
    } else {
        None
    }
}

/// The first flag of ticket `t` at or after `from`, or -1.
pub open spec fn flag_for(flags: Seq<(nat, bool)>, t: nat, from: int) -> int
    decreases flags.len() - from,
{
    if from < 0 || from >= flags.len() {
        -1
    } else if flags[from].0 == t {
        from
    } else {
        flag_for(flags, t, from + 1)
    }
}

/// Whether ticket `t` is cancelled (tickets whose request finished, or that were never
/// handed out, are not).
pub open spec fn is_cancelled_spec(m: RequestsModel, t: nat) -> bool {
    let i = flag_for(m.flags, t, 0);
    i >= 0 && m.flags[i].1
}

/// Ticket `t` marked cancelled, if its request has not finished.
pub open spec fn mark(flags: Seq<(nat, bool)>, t: nat) -> Seq<(nat, bool)> {
    let i = flag_for(flags, t, 0);
    if i >= 0 {
        flags.update(i, (t, true))
    } else {
        flags
    }
}

/// The flags without that of ticket `t`.
pub open spec fn forget(flags: Seq<(nat, bool)>, t: nat) -> Seq<(nat, bool)> {
    let i = flag_for(flags, t, 0);
    if i >= 0 {
        flags.remove(i)
    } else {
        flags
    }
}

/// Every ticket held is one already handed out.
pub open spec fn requests_valid(m: RequestsModel) -> bool {
    &&& forall|i: int| 0 <= i < m.entries.len() ==> #[trigger] m.entries[i].1 < m.next
    &&& forall|i: int| 0 <= i < m.flags.len() ==> #[trigger] m.flags[i].0 < m.next
}

/// Registering a request under `key`: it gets the next ticket, not cancelled; a request
/// still in flight under the same key is cancelled and replaced.
pub open spec fn register_spec(m: RequestsModel, key: Seq<char>) -> (RequestsModel, nat) {
    let t = m.next;
    let i = entry_for(m.entries, key, 0);
    if i >= 0 {
        (
            RequestsModel {
                entries: m.entries.update(i, (key, t)),
                flags: mark(m.flags, m.entries[i].1).push((t, false)),
                next: t + 1,
            },
            t,
        )
    } else {
        (RequestsModel { entries: m.entries.push((key, t)), flags: m.flags.push((t, false)), next: t + 1 }, t)
    }
}

/// The key of an id, if there is one.
pub open spec fn key_of(id: Option<JsonModel>) -> Option<Seq<char>> {
    match id {
        Some(id) => Some(compact_text(id)),
        None => None,
    }
}

/// Cancelling the request under `key`: its ticket, if it is in flight, is marked cancelled.
pub open spec fn cancel_spec(m: RequestsModel, key: Option<Seq<char>>) -> RequestsModel {
    match key {
        Some(key) => match ticket_of(m, key) {
            Some(t) => RequestsModel { flags: mark(m.flags, t), ..m },
            None => m,
        },
        None => m,
    }
}

/// Finishing the request under `key` with ticket `t`: the ticket's flag is dropped, and the request
/// leaves the in-flight set only if `t` is still its ticket, so finishing a replaced
/// request leaves its replacement alone.
pub open spec fn finish_spec(m: RequestsModel, key: Seq<char>, t: nat) -> RequestsModel {
    let i = entry_for(m.entries, key, 0);
    RequestsModel {
        entries: if i >= 0 && m.entries[i].1 == t {
            m.entries.remove(i)
        } else {
            m.entries
        },
        flags: forget(m.flags, t),
        next: m.next,
    }
}

/// The in-flight requests as stored: each key with its ticket, each live ticket with its
/// flag, and the next ticket.
struct Registry {
    entries: Vec<(String, usize)>,
    flags: Vec<(usize, bool)>,
    next: usize,
}

impl View for Registry {
    type V = RequestsModel;

    closed spec fn view(&self) -> RequestsModel {
        RequestsModel {
            entries: Seq::new(self.entries@.len(), |i: int| (self.entries@[i].0@, self.entries@[i].1 as nat)),
            flags: Seq::new(self.flags@.len(), |i: int| (self.flags@[i].0 as nat, self.flags@[i].1)),
            next: self.next as nat,
        }
    }
}

proof fn lemma_entry_for_bounds(entries: Seq<(Seq<char>, nat)>, id: Seq<char>, from: int)
    ensures
        entry_for(entries, id, from) == -1 || (from <= entry_for(entries, id, from) < entries.len()
            && entries[entry_for(entries, id, from)].0 == id),
    decreases entries.len() - from,
{
    if !(from < 0 || from >= entries.len()) && entries[from].0 != id {
        lemma_entry_for_bounds(entries, id, from + 1);
    }
}

proof fn lemma_flag_for_bounds(flags: Seq<(nat, bool)>, t: nat, from: int)
    ensures
        flag_for(flags, t, from) == -1 || (from <= flag_for(flags, t, from) < flags.len()
            && flags[flag_for(flags, t, from)].0 == t),
    decreases flags.len() - from,
{
    if !(from < 0 || from >= flags.len()) && flags[from].0 != t {
        lemma_flag_for_bounds(flags, t, from + 1);
    }
}

/// `flag_for` from `from` is `i` exactly when `i` is the first flag of `t` from there.
proof fn lemma_flag_for_first(flags: Seq<(nat, bool)>, t: nat, from: int, i: int)
    requires
        0 <= from <= i < flags.len(),
        flags[i].0 == t,
        forall|k: int| from <= k < i ==> flags[k].0 != t,
    ensures
        flag_for(flags, t, from) == i,
    decreases i - from,
{
    if from < i {
        lemma_flag_for_first(flags, t, from + 1, i);
    }
}

proof fn lemma_flag_for_skips(flags: Seq<(nat, bool)>, t: nat, from: int, k: int)
    requires
        0 <= from <= k < flags.len(),
        k < flag_for(flags, t, from) || flag_for(flags, t, from) == -1,
    ensures
        flags[k].0 != t,
    decreases k - from,
{
    if flags[from].0 == t {
        assert(flag_for(flags, t, from) == from);
    } else if from < k {
        lemma_flag_for_skips(flags, t, from + 1, k);
    }
}

proof fn lemma_flag_for_none(flags: Seq<(nat, bool)>, t: nat, from: int)
    requires
        0 <= from,
        forall|k: int| from <= k < flags.len() ==> flags[k].0 != t,
    ensures
        flag_for(flags, t, from) == -1,
    decreases flags.len() - from,
{
    if from < flags.len() {
        lemma_flag_for_none(flags, t, from + 1);
    }
}

/// `flag_for` reads the tickets alone.
proof fn lemma_flag_for_tickets(f: Seq<(nat, bool)>, g: Seq<(nat, bool)>, t: nat, from: int)
    requires
        f.len() == g.len(),
        forall|k: int| 0 <= k < f.len() ==> f[k].0 == g[k].0,
    ensures
        flag_for(f, t, from) == flag_for(g, t, from),
    decreases f.len() - from,
{
    if !(from < 0 || from >= f.len()) && f[from].0 != t {
        lemma_flag_for_tickets(f, g, t, from + 1);
    }
}

/// Marking `u` keeps every ticket, cancels `u` if it has a flag, and leaves every other
/// ticket as it was.
proof fn lemma_mark(m: RequestsModel, u: nat, t: nat)
    ensures
        mark(m.flags, u).len() == m.flags.len(),
        forall|k: int| 0 <= k < m.flags.len() ==> #[trigger] mark(m.flags, u)[k].0 == m.flags[k].0,
        flag_for(mark(m.flags, u), t, 0) == flag_for(m.flags, t, 0),
        is_cancelled_spec(RequestsModel { flags: mark(m.flags, u), ..m }, t) == if t == u {
            flag_for(m.flags, t, 0) >= 0
        } else {
            is_cancelled_spec(m, t)
        },
{
    let f = m.flags;
    let g = mark(f, u);
    lemma_flag_for_bounds(f, u, 0);
    lemma_flag_for_bounds(f, t, 0);
    assert forall|k: int| 0 <= k < f.len() implies #[trigger] g[k].0 == f[k].0 by {}
    lemma_flag_for_tickets(f, g, t, 0);
}

/// Pushing a flag keeps the reading of every ticket that already has one, and of every
/// other ticket than the pushed one.
proof fn lemma_flag_push(m: RequestsModel, e: (nat, bool), t: nat)
    ensures
        flag_for(m.flags, t, 0) >= 0 || e.0 != t ==> is_cancelled_spec(
            RequestsModel { flags: m.flags.push(e), ..m },
            t,
        ) == is_cancelled_spec(m, t),
        flag_for(m.flags, t, 0) == -1 && e.0 == t ==> flag_for(m.flags.push(e), t, 0) == m.flags.len(),
        flag_for(m.flags, t, 0) >= 0 ==> flag_for(m.flags.push(e), t, 0) == flag_for(m.flags, t, 0),
{
    let f = m.flags;
    let g = f.push(e);
    lemma_flag_for_bounds(f, t, 0);
    let j = flag_for(f, t, 0);
    if j >= 0 {
        assert forall|k: int| 0 <= k < j implies g[k].0 != t by {
            lemma_flag_for_skips(f, t, 0, k);
        }
        lemma_flag_for_first(g, t, 0, j);
    } else {
        assert forall|k: int| 0 <= k < f.len() implies g[k].0 != t by {
            lemma_flag_for_skips(f, t, 0, k);
        }
        if e.0 == t {
            lemma_flag_for_first(g, t, 0, f.len() as int);
        } else {
            lemma_flag_for_none(g, t, 0);
        }
    }
}

/// Forgetting `u` leaves the reading of every other ticket as it was.
proof fn lemma_forget(m: RequestsModel, u: nat, t: nat)
    requires
        u != t,
    ensures
        is_cancelled_spec(RequestsModel { flags: forget(m.flags, u), ..m }, t) == is_cancelled_spec(m, t),
        flag_for(m.flags, t, 0) >= 0 ==> flag_for(forget(m.flags, u), t, 0) >= 0,
{
    let f = m.flags;
    let i = flag_for(f, u, 0);
    lemma_flag_for_bounds(f, u, 0);
    lemma_flag_for_bounds(f, t, 0);
    if i >= 0 {
        let g = f.remove(i);
        let j = flag_for(f, t, 0);
        if j == -1 {
            assert forall|k: int| 0 <= k < g.len() implies g[k].0 != t by {
                if k < i {
                    lemma_flag_for_skips(f, t, 0, k);
                } else {
                    lemma_flag_for_skips(f, t, 0, k + 1);
                }
            }
            lemma_flag_for_none(g, t, 0);
        } else if j < i {
            assert forall|k: int| 0 <= k < j implies g[k].0 != t by {
                lemma_flag_for_skips(f, t, 0, k);
            }
            lemma_flag_for_first(g, t, 0, j);
        } else {
            assert(j != i);
            assert forall|k: int| 0 <= k < j - 1 implies g[k].0 != t by {
                if k < i {
                    lemma_flag_for_skips(f, t, 0, k);
                } else {
                    lemma_flag_for_skips(f, t, 0, k + 1);
                }
            }
            lemma_flag_for_first(g, t, 0, j - 1);
        }
    }
}

impl Registry {
    /// No request in flight.
    fn new() -> (r: Registry)
        ensures
            r@.entries == Seq::<(Seq<char>, nat)>::empty(),
            r@.flags == Seq::<(nat, bool)>::empty(),
            r@.next == 0,
            requests_valid(r@),
    {
        let r = Registry { entries: Vec::new(), flags: Vec::new(), next: 0 };
        assert(r@.entries =~= Seq::<(Seq<char>, nat)>::empty());
        assert(r@.flags =~= Seq::<(nat, bool)>::empty());
        r
    }

    /// The index of the entry for `key`.
    fn find(&self, key: &Vec<char>) -> (r: Option<usize>)
        ensures
            match r {
                Some(i) => entry_for(self@.entries, key@, 0) == i as int,
                None => entry_for(self@.entries, key@, 0) == -1,
            },
    {
        let ghost es = self@.entries;
        let mut i: usize = 0;
        while i < self.entries.len()
            invariant
                i <= self.entries@.len(),
                es == self@.entries,
                entry_for(es, key@, 0) == entry_for(es, key@, i as int),
            decreases self.entries@.len() - i,
        {
            assert(es[i as int].0 == self.entries@[i as int].0@);
            if same_chars(&chars_of(self.entries[i].0.as_str()), key) {
                return Some(i);
            }
            i += 1;
        }
        None
    }

    /// The index of the flag of `ticket`.
    fn find_flag(&self, ticket: usize) -> (r: Option<usize>)
        ensures
            match r {
                Some(i) => flag_for(self@.flags, ticket as nat, 0) == i as int && i < self.flags@.len(),
                None => flag_for(self@.flags, ticket as nat, 0) == -1,
            },
    {
        let ghost fs = self@.flags;
        let mut i: usize = 0;
        while i < self.flags.len()
            invariant
                i <= self.flags@.len(),
                fs == self@.flags,
                flag_for(fs, ticket as nat, 0) == flag_for(fs, ticket as nat, i as int),
            decreases self.flags@.len() - i,
        {
            assert(fs[i as int].0 == self.flags@[i as int].0 as nat);
            if self.flags[i].0 == ticket {
                return Some(i);
            }
            i += 1;
        }
        None
    }

    /// Marks `ticket` cancelled, if its request has not finished.
    fn mark_ticket(&mut self, ticket: usize)
        ensures
            final(self)@ == (RequestsModel { flags: mark(old(self)@.flags, ticket as nat), ..old(self)@ }),
    {
        let ghost before = self@;
        proof {
            lemma_flag_for_bounds(before.flags, ticket as nat, 0);
        }
        if let Some(j) = self.find_flag(ticket) {
            self.flags.set(j, (ticket, true));
            assert(self@.flags =~= before.flags.update(j as int, (ticket as nat, true)));
        }
        assert(self@.entries =~= before.entries);
    }

    /// Registers request `id` and returns its ticket; a request still in flight under
    /// the same id is cancelled and replaced.  Ids are compared by their JSON text.
    fn register(&mut self, id: &Json) -> (t: usize)
        requires
            old(self)@.next < usize::MAX,
        ensures
            (final(self)@, t as nat) == register_spec(old(self)@, compact_text(id@)),
    {
        let t = self.next;
        let ghost before = self@;
        let key = compact_json(id);
        let chars = chars_of(key.as_str());
        proof {
            lemma_entry_for_bounds(before.entries, key@, 0);
        }
        match self.find(&chars) {
            Some(i) => {
                let old_ticket = self.entries[i].1;
                assert(old_ticket as nat == before.entries[i as int].1);
                self.mark_ticket(old_ticket);
                let ghost marked = self@;
                self.flags.push((t, false));
                self.entries.set(i, (key, t));
                assert(self@.entries =~= before.entries.update(i as int, (compact_text(id@), t as nat)));
                assert(self@.flags =~= marked.flags.push((t as nat, false)));
            },
            None => {
                self.flags.push((t, false));
                self.entries.push((key, t));
                assert(self@.entries =~= before.entries.push((compact_text(id@), t as nat)));
                assert(self@.flags =~= before.flags.push((t as nat, false)));
            },
        }
        self.next = t + 1;
        t
    }

    /// Marks the request named by a `notifications/cancelled` message (its
    /// `params.requestId`) as cancelled, if it is in flight.
    fn cancel(&mut self, message: &Json)
        ensures
            final(self)@ == cancel_spec(old(self)@, key_of(at_pointer(message@, "/params/requestId"@))),
    {
        let ghost before = self@;
        let id = match message.pointer("/params/requestId") {
            Some(id) => id,
            None => return ,
        };
        let key = compact_json(id);
        let chars = chars_of(key.as_str());
        proof {
            lemma_entry_for_bounds(before.entries, key@, 0);
        }
        match self.find(&chars) {
            Some(i) => {
                let ticket = self.entries[i].1;
                self.mark_ticket(ticket);
            },
            None => {},
        }
    }

    /// Ends request `id` with `ticket`: forgets the ticket, and takes the request out of
    /// the in-flight set if `ticket` is still its ticket.
    fn finish(&mut self, id: &Json, ticket: usize)
        ensures
            final(self)@ == finish_spec(old(self)@, compact_text(id@), ticket as nat),
    {
        let ghost before = self@;
        let key = compact_json(id);
        let chars = chars_of(key.as_str());
        proof {
            lemma_entry_for_bounds(before.entries, key@, 0);
            lemma_flag_for_bounds(before.flags, ticket as nat, 0);
        }
        if let Some(i) = self.find(&chars) {
            if self.entries[i].1 == ticket {
                self.entries.remove(i);
                assert(self@.entries =~= before.entries.remove(i as int));
            }
        }
        let ghost taken = self@;
        assert(taken.flags == before.flags);
        if let Some(j) = self.find_flag(ticket) {
            self.flags.remove(j);
            assert(self@.flags =~= before.flags.remove(j as int));
        }
        assert(self@.entries == taken.entries);
    }

    /// Whether another request can be registered: tickets are numbered by `usize`.
    fn can_register(&self) -> (b: bool)
        ensures
            b == (self@.next < usize::MAX),
    {
        self.next < usize::MAX
    }

    /// Whether ticket `ticket` was cancelled (false once its request finished).
    fn is_cancelled(&self, ticket: usize) -> (b: bool)
        ensures
            b == is_cancelled_spec(self@, ticket as nat),
    {
        match self.find_flag(ticket) {
            Some(j) => self.flags[j].1,
            None => false,
        }
    }
}

/// The requests that are in flight, each under its id's compact JSON text, with the
/// ticket that says whether it was cancelled.  Every ticket it holds was handed out, and
/// every method says so of the registry it leaves.
pub struct ActiveRequests {
    registry: Registry,
}

impl View for ActiveRequests {
    type V = RequestsModel;

    closed spec fn view(&self) -> RequestsModel {
        self.registry@
    }
}

impl ActiveRequests {
    #[verifier::type_invariant]
    closed spec fn valid(&self) -> bool {
        requests_valid(self@)
    }

    /// No request in flight.
    pub fn new() -> (r: ActiveRequests)
        ensures
            r@.entries == Seq::<(Seq<char>, nat)>::empty(),
            r@.flags == Seq::<(nat, bool)>::empty(),
            r@.next == 0,
            requests_valid(r@),
    {
        ActiveRequests { registry: Registry::new() }
    }

    /// Registers request `id` and returns its ticket; a request still in flight under
    /// the same id is cancelled and replaced.  Ids are compared by their JSON text.
    pub fn register(&mut self, id: &Json) -> (t: usize)
        requires
            old(self)@.next < usize::MAX,
        ensures
            (final(self)@, t as nat) == register_spec(old(self)@, compact_text(id@)),
            requests_valid(final(self)@),
    {
        proof {
            use_type_invariant(&*self);
        }
        let mut registry = Registry::new();
        std::mem::swap(&mut registry, &mut self.registry);
        let ghost before = registry@;
        let t = registry.register(id);
        proof {
            lemma_register(before, compact_text(id@), 0);
        }
        self.registry = registry;
        t
    }

    /// Marks the request named by a `notifications/cancelled` message (its
    /// `params.requestId`) as cancelled, if it is in flight.
    pub fn cancel(&mut self, message: &Json)
        ensures
            final(self)@ == cancel_spec(old(self)@, key_of(at_pointer(message@, "/params/requestId"@))),
            requests_valid(final(self)@),
    {
        proof {
            use_type_invariant(&*self);
        }
        let mut registry = Registry::new();
        std::mem::swap(&mut registry, &mut self.registry);
        let ghost before = registry@;
        registry.cancel(message);
        proof {
            requests_stay_valid(before, RequestStep::Cancel(key_of(at_pointer(message@, "/params/requestId"@))));
        }
        self.registry = registry;
    }

    /// Ends request `id` with `ticket`: forgets the ticket, and takes the request out of
    /// the in-flight set if `ticket` is still its ticket.
    pub fn finish(&mut self, id: &Json, ticket: usize)
        ensures
            final(self)@ == finish_spec(old(self)@, compact_text(id@), ticket as nat),
            requests_valid(final(self)@),
    {
        proof {
            use_type_invariant(&*self);
        }
        let mut registry = Registry::new();
        std::mem::swap(&mut registry, &mut self.registry);
        let ghost before = registry@;
        registry.finish(id, ticket);
        proof {
            requests_stay_valid(before, RequestStep::Finish(compact_text(id@), ticket as nat));
        }
        self.registry = registry;
    }

    /// Whether another request can be registered: tickets are numbered by `usize`.
    pub fn can_register(&self) -> (b: bool)
        ensures
            b == (self@.next < usize::MAX),
            requests_valid(self@),
    {
        proof {
            use_type_invariant(self);
        }
        self.registry.can_register()
    }

    /// Whether ticket `ticket` was cancelled (false once its request finished).
    pub fn is_cancelled(&self, ticket: usize) -> (b: bool)
        ensures
            b == is_cancelled_spec(self@, ticket as nat),
            requests_valid(self@),
    {
        proof {
            use_type_invariant(self);
        }
        self.registry.is_cancelled(ticket)
    }
}

/// Whether ticket `t` still has a flag: its request has not finished.
pub open spec fn is_live(m: RequestsModel, t: nat) -> bool {
    flag_for(m.flags, t, 0) >= 0
}

/// What registering does to the tickets: the new ticket is live and not cancelled, a
/// live ticket stays live and is cancelled afterwards exactly when it was before or
/// was the ticket the key held, and the requests stay valid.
proof fn lemma_register(m: RequestsModel, key: Seq<char>, t: nat)
    ensures
        is_live(m, t) ==> is_live(register_spec(m, key).0, t),
        is_live(m, t) ==> is_cancelled_spec(register_spec(m, key).0, t) == (is_cancelled_spec(m, t)
            || ticket_of(m, key) == Some(t)),
        requests_valid(m) ==> is_live(register_spec(m, key).0, register_spec(m, key).1),
        requests_valid(m) ==> !is_cancelled_spec(register_spec(m, key).0, register_spec(m, key).1),
        requests_valid(m) ==> requests_valid(register_spec(m, key).0),
{
    let (m1, n) = register_spec(m, key);
    let i = entry_for(m.entries, key, 0);
    lemma_entry_for_bounds(m.entries, key, 0);
    let marked = if i >= 0 {
        RequestsModel { flags: mark(m.flags, m.entries[i].1), ..m }
    } else {
        m
    };
    if i >= 0 {
        lemma_mark(m, m.entries[i].1, t);
        lemma_mark(m, m.entries[i].1, n);
    }
    assert(m1.flags == marked.flags.push((n, false)));
    lemma_flag_push(marked, (n, false), t);
    lemma_flag_push(marked, (n, false), n);
    if requests_valid(m) {
        assert forall|k: int| 0 <= k < marked.flags.len() implies marked.flags[k].0 != n by {
            assert(m.flags[k].0 < m.next);
        }
        lemma_flag_for_none(marked.flags, n, 0);
        assert forall|k: int| 0 <= k < m1.entries.len() implies #[trigger] m1.entries[k].1 < m1.next by {
            if k < m.entries.len() && k != i {
                assert(m1.entries[k] == m.entries[k]);
            }
        }
        assert forall|k: int| 0 <= k < m1.flags.len() implies #[trigger] m1.flags[k].0 < m1.next by {
            if k < m.flags.len() {
                assert(m1.flags[k].0 == m.flags[k].0);
            }
        }
    }
}

/// Registering a request under `key` replaces only the request under that key: the new
/// ticket is live, not cancelled, and now the ticket of `key`, so a later cancellation
/// of `key` reaches it; the request it replaces, if still live, is cancelled; every
/// other ticket reads as it did, and every other key keeps its ticket.
pub proof fn registering_replaces_only_its_key(m: RequestsModel, key: Seq<char>, t: nat, other: Seq<char>)
    requires
        requests_valid(m),
    ensures
        ({
            let (m1, n) = register_spec(m, key);
            &&& is_live(m1, n)
            &&& !is_cancelled_spec(m1, n)
            &&& ticket_of(m1, key) == Some(n)
            &&& is_cancelled_spec(cancel_spec(m1, Some(key)), n)
            &&& match ticket_of(m, key) {
                Some(prev) => is_live(m, prev) ==> is_cancelled_spec(m1, prev),
                None => true,
            }
            &&& (t != n && ticket_of(m, key) != Some(t) ==> is_cancelled_spec(m1, t) == is_cancelled_spec(m, t))
            &&& (other != key ==> ticket_of(m1, other) == ticket_of(m, other))
            &&& requests_valid(m1)
        }),
{
    let (m1, n) = register_spec(m, key);
    lemma_register(m, key, n);
    lemma_register(m, key, t);
    lemma_ticket_after_register(m, key);
    lemma_mark(m1, n, n);
    if let Some(prev) = ticket_of(m, key) {
        lemma_register(m, key, prev);
    }
    if other != key {
        lemma_ticket_kept(m, key, other);
    }
    if t != n && ticket_of(m, key) != Some(t) && !is_live(m, t) {
        let i = entry_for(m.entries, key, 0);
        lemma_entry_for_bounds(m.entries, key, 0);
        let marked = if i >= 0 {
            RequestsModel { flags: mark(m.flags, m.entries[i].1), ..m }
        } else {
            m
        };
        if i >= 0 {
            lemma_mark(m, m.entries[i].1, t);
        }
        assert(m1.flags == marked.flags.push((n, false)));
        lemma_flag_push(marked, (n, false), t);
    }
}

/// A cancellation reaches the request it names and no other: after two requests are
/// registered under different keys and the first is cancelled, the first is cancelled
/// and the second is not.
pub proof fn cancellation_targets_its_request(m: RequestsModel, a: Seq<char>, b: Seq<char>)
    requires
        requests_valid(m),
        a != b,
    ensures
        ({
            let (m1, ta) = register_spec(m, a);
            let (m2, tb) = register_spec(m1, b);
            let m3 = cancel_spec(m2, Some(a));
            is_cancelled_spec(m3, ta) && !is_cancelled_spec(m3, tb)
        }),
{
    let (m1, ta) = register_spec(m, a);
    let (m2, tb) = register_spec(m1, b);
    lemma_register(m, a, ta);
    lemma_register(m1, b, ta);
    lemma_register(m1, b, tb);
    lemma_ticket_kept(m, a, b);
    lemma_entry_for_bounds(m.entries, b, 0);
    lemma_ticket_after_register(m, a);
    lemma_ticket_kept(m1, b, a);
    lemma_mark(m2, ta, ta);
    lemma_mark(m2, ta, tb);
}

/// Registering a key again cancels the earlier request, and finishing that earlier
/// request does not take its replacement out: a later cancellation still reaches the
/// replacement.
pub proof fn replacement_survives_old_finish(m: RequestsModel, key: Seq<char>)
    requires
        requests_valid(m),
    ensures
        ({
            let (m1, first) = register_spec(m, key);
            let (m2, second) = register_spec(m1, key);
            let m3 = finish_spec(m2, key, first);
            let m4 = cancel_spec(m3, Some(key));
            &&& is_cancelled_spec(m2, first)
            &&& ticket_of(m3, key) == Some(second)
            &&& is_cancelled_spec(m4, second)
        }),
{
    let (m1, first) = register_spec(m, key);
    let (m2, second) = register_spec(m1, key);
    lemma_register(m, key, first);
    lemma_register(m1, key, first);
    lemma_register(m1, key, second);
    lemma_ticket_after_register(m, key);
    lemma_ticket_after_register(m1, key);
    lemma_entry_for_bounds(m1.entries, key, 0);
    lemma_entry_for_bounds(m2.entries, key, 0);
    assert(first < second);
    let m3 = finish_spec(m2, key, first);
    lemma_forget(m2, first, second);
    lemma_mark(m3, second, second);
}

/// A cancellation reaches the request it names and no other: in any state, cancelling
/// `key` cancels the ticket of the in-flight request under `key` while it has not
/// finished, and every other ticket reads as it did before.
pub proof fn cancellation_reaches_only_its_request(m: RequestsModel, key: Seq<char>, u: nat)
    ensures
        ticket_of(m, key) matches Some(t) ==> (is_cancelled_spec(cancel_spec(m, Some(key)), t)
            <==> is_live(m, t)),
        ticket_of(m, key) != Some(u) ==> is_cancelled_spec(cancel_spec(m, Some(key)), u)
            == is_cancelled_spec(m, u),
{
    if let Some(t) = ticket_of(m, key) {
        lemma_mark(m, t, t);
        lemma_mark(m, t, u);
    }
}

/// A change to the in-flight requests, each naming requests by their keys: what the
/// server does as messages come and requests end.
pub enum RequestStep {
    Register(Seq<char>),
    Cancel(Option<Seq<char>>),
    Finish(Seq<char>, nat),
}

/// The requests after one change.
pub open spec fn apply_step(m: RequestsModel, s: RequestStep) -> RequestsModel {
    match s {
        RequestStep::Register(key) => register_spec(m, key).0,
        RequestStep::Cancel(key) => cancel_spec(m, key),
        RequestStep::Finish(key, t) => finish_spec(m, key, t),
    }
}

/// The requests after a sequence of changes, in order.
pub open spec fn apply_steps(m: RequestsModel, steps: Seq<RequestStep>) -> RequestsModel
    decreases steps.len(),
{
    if steps.len() == 0 {
        m
    } else {
        apply_steps(apply_step(m, steps[0]), steps.drop_first())
    }
}

/// Every change keeps the requests valid: each ticket held was handed out.
pub proof fn requests_stay_valid(m: RequestsModel, s: RequestStep)
    requires
        requests_valid(m),
    ensures
        requests_valid(apply_step(m, s)),
{
    let n = apply_step(m, s);
    match s {
        RequestStep::Register(key) => lemma_register(m, key, 0),
        RequestStep::Cancel(key) => {
            if let Some(key) = key {
                if let Some(t) = ticket_of(m, key) {
                    lemma_mark(m, t, 0);
                    assert forall|k: int| 0 <= k < n.flags.len() implies #[trigger] n.flags[k].0 < n.next by {
                        assert(n.flags[k].0 == m.flags[k].0);
                    }
                }
            }
        },
        RequestStep::Finish(key, t) => {
            let i = entry_for(m.entries, key, 0);
            let j = flag_for(m.flags, t, 0);
            lemma_entry_for_bounds(m.entries, key, 0);
            lemma_flag_for_bounds(m.flags, t, 0);
            assert forall|k: int| 0 <= k < n.entries.len() implies #[trigger] n.entries[k].1 < n.next by {
                if i >= 0 && m.entries[i].1 == t && k >= i {
                    assert(n.entries[k] == m.entries[k + 1]);
                } else if !(i >= 0 && m.entries[i].1 == t) {
                    assert(n.entries[k] == m.entries[k]);
                } else {
                    assert(n.entries[k] == m.entries[k]);
                }
            }
            assert forall|k: int| 0 <= k < n.flags.len() implies #[trigger] n.flags[k].0 < n.next by {
                if j >= 0 && k >= j {
                    assert(n.flags[k] == m.flags[k + 1]);
                } else {
                    assert(n.flags[k] == m.flags[k]);
                }
            }
        },
    }
}

/// A cancelled request stays cancelled until it finishes: whatever requests are
/// registered, cancelled or finished afterwards, in whatever order, as long as it is
/// not itself finished its ticket still reads as cancelled.
pub proof fn cancelled_requests_stay_cancelled(m: RequestsModel, t: nat, steps: Seq<RequestStep>)
    requires
        is_cancelled_spec(m, t),
        keeps_ticket(steps, t),
    ensures
        is_cancelled_spec(apply_steps(m, steps), t),
    decreases steps.len(),
{
    if steps.len() > 0 {
        let next = apply_step(m, steps[0]);
        match steps[0] {
            RequestStep::Register(key) => lemma_register(m, key, t),
            RequestStep::Cancel(key) => {
                if let Some(key) = key {
                    if let Some(u) = ticket_of(m, key) {
                        lemma_mark(m, u, t);
                    }
                }
            },
            RequestStep::Finish(key, u) => {
                assert(!(steps[0] matches RequestStep::Finish(_, u) && u == t));
                lemma_forget(m, u, t);
            },
        }
        assert(is_cancelled_spec(next, t));
        let rest = steps.drop_first();
        assert forall|k: int| 0 <= k < rest.len() implies !(#[trigger] rest[k] matches RequestStep::Finish(_, u) && u == t) by {
            assert(rest[k] == steps[k + 1]);
        }
        cancelled_requests_stay_cancelled(next, t, rest);
    }
}

/// Reads one line of the input stream: a blank line is skipped, and any other line is
/// the message it holds as JSON, if it is JSON.
pub fn read_message(line: &str) -> (r: Option<Json>)
    ensures
        trim(line@).len() == 0 ==> r is None,
        trim(line@).len() > 0 ==> match r {
            Some(j) => parsed_json(line@) == Some(j@),
            None => parsed_json(line@) is None,
        },
{
    if trim_str(line).unicode_len() == 0 {
        None
    } else {
        parse_json(line)
    }
}

/// What the server does with a message it read.
#[derive(Debug)]
pub enum Received {
    /// Nothing is written for it.
    Nothing,
    /// Request `id` is answered at once: handle it, then write the reply.
    Answer { id: Json },
    /// The `ask` request `id` runs beside the reading loop under `ticket`.
    Start { id: Json, ticket: usize },
}

/// The model of what the server does with a message.
pub enum ReceivedModel {
    Nothing,
    Answer(JsonModel),
    Start(JsonModel, nat),
}

/// The model of a value of `Received`.
pub open spec fn received_model(r: Received) -> ReceivedModel {
    match r {
        Received::Nothing => ReceivedModel::Nothing,
        Received::Answer { id } => ReceivedModel::Answer(id@),
        Received::Start { id, ticket } => ReceivedModel::Start(id@, ticket as nat),
    }
}

/// Reading a message: a cancellation notice cancels the request it names, a
/// notification is dropped, an `ask` call is registered and started, and any other
/// request is answered at once.
pub open spec fn receive_spec(m: RequestsModel, message: JsonModel) -> (RequestsModel, ReceivedModel) {
    match route_spec(message) {
        Route::Cancel => (cancel_spec(m, key_of(at_pointer(message, "/params/requestId"@))), ReceivedModel::Nothing),
        Route::Ignore => (m, ReceivedModel::Nothing),
        Route::Blocking => {
            let id = field(message, "id"@).unwrap();
            let (next, t) = register_spec(m, compact_text(id));
            (next, ReceivedModel::Start(id, t))
        },
        Route::Immediate => (m, ReceivedModel::Answer(field(message, "id"@).unwrap())),
    }
}

/// Whether a message can be read: an `ask` call needs a ticket left.
pub open spec fn can_receive(m: RequestsModel, message: JsonModel) -> bool {
    route_spec(message) == Route::Blocking ==> m.next < usize::MAX
}

/// Reads one message of the stream.
pub fn receive(requests: &mut ActiveRequests, message: &Json) -> (r: Received)
    requires
        can_receive(old(requests)@, message@),
    ensures
        (final(requests)@, received_model(r)) == receive_spec(old(requests)@, message@),
{
    match route(message) {
        Route::Cancel => {
            requests.cancel(message);
            Received::Nothing
        },
        Route::Ignore => Received::Nothing,
        Route::Blocking => {
            let id = message.get("id").unwrap().duplicate();
            let ticket = requests.register(&id);
            Received::Start { id, ticket }
        },
        Route::Immediate => Received::Answer { id: message.get("id").unwrap().duplicate() },
    }
}

/// Ending a started request: it is finished, and its reply is written unless it was
/// cancelled, since the client no longer waits for it.
pub open spec fn complete_spec(m: RequestsModel, id: JsonModel, t: nat, outcome: Result<JsonModel, JsonModel>) -> (
    RequestsModel,
    Option<JsonModel>,
) {
    (finish_spec(m, compact_text(id), t), if is_cancelled_spec(m, t) {
        None
    } else {
        Some(reply_spec(id, outcome))
    })
}

/// Ends the started request `id` with `ticket`, and gives the reply to write, if any.
pub fn complete(requests: &mut ActiveRequests, id: &Json, ticket: usize, outcome: Result<Json, Json>) -> (r:
    Option<Json>)
    ensures
        (final(requests)@, match r {
            Some(j) => Some(j@),
            None => None,
        }) == complete_spec(old(requests)@, id@, ticket as nat, outcome_model(outcome)),
{
    let cancelled = requests.is_cancelled(ticket);
    requests.finish(id, ticket);
    if cancelled {
        None
    } else {
        Some(reply(id, outcome))
    }
}

/// The ids of the requests among the messages, in order: each message with an id that is
/// not a cancellation notice.
pub open spec fn request_ids(messages: Seq<JsonModel>) -> Seq<JsonModel>
    decreases messages.len(),
{
    if messages.len() == 0 {
        Seq::empty()
    } else {
        let m = messages[0];
        let rest = request_ids(messages.drop_first());
        if method_of(m) != "notifications/cancelled"@ && field(m, "id"@) is Some {
            seq![field(m, "id"@).unwrap()] + rest
        } else {
            rest
        }
    }
}

/// The ids answered at once when the messages are read in order.
pub open spec fn answered_ids(m: RequestsModel, messages: Seq<JsonModel>) -> Seq<JsonModel>
    decreases messages.len(),
{
    if messages.len() == 0 {
        Seq::empty()
    } else {
        let (next, r) = receive_spec(m, messages[0]);
        let rest = answered_ids(next, messages.drop_first());
        match r {
            ReceivedModel::Answer(id) => seq![id] + rest,
            _ => rest,
        }
    }
}

/// With no `ask` call among them, every request read is answered at once, once, in the
/// order read, and nothing else is: notifications and cancellation notices get no reply.
pub proof fn every_request_is_answered_in_order(m: RequestsModel, messages: Seq<JsonModel>)
    requires
        forall|k: int| 0 <= k < messages.len() ==> !blocking_ask(#[trigger] messages[k]),
    ensures
        answered_ids(m, messages) == request_ids(messages),
    decreases messages.len(),
{
    if messages.len() > 0 {
        let (next, r) = receive_spec(m, messages[0]);
        let rest = messages.drop_first();
        assert(!blocking_ask(messages[0]));
        assert forall|k: int| 0 <= k < rest.len() implies !blocking_ask(#[trigger] rest[k]) by {
            assert(rest[k] == messages[k + 1]);
        }
        every_request_is_answered_in_order(next, rest);
    }
}

/// Whether no step finishes ticket `t`.
pub open spec fn keeps_ticket(steps: Seq<RequestStep>, t: nat) -> bool {
    forall|k: int| 0 <= k < steps.len() ==> !(#[trigger] steps[k] matches RequestStep::Finish(_, u) && u == t)
}

proof fn lemma_entry_for_other_remove(entries: Seq<(Seq<char>, nat)>, key: Seq<char>, i: int)
    requires
        0 <= i < entries.len(),
        entries[i].0 != key,
    ensures
        entry_for(entries.remove(i), key, 0) >= 0 <==> entry_for(entries, key, 0) >= 0,
        entry_for(entries, key, 0) >= 0 ==> entries.remove(i)[entry_for(entries.remove(i), key, 0)]
            == entries[entry_for(entries, key, 0)],
{
    let g = entries.remove(i);
    let j = entry_for(entries, key, 0);
    lemma_entry_for_bounds(entries, key, 0);
    if j == -1 {
        assert forall|k: int| 0 <= k < g.len() implies g[k].0 != key by {
            if k < i {
                lemma_entry_for_skips(entries, key, 0, k);
            } else {
                lemma_entry_for_skips(entries, key, 0, k + 1);
            }
        }
        lemma_entry_for_none(g, key, 0);
    } else if j < i {
        assert forall|k: int| 0 <= k < j implies g[k].0 != key by {
            lemma_entry_for_skips(entries, key, 0, k);
        }
        lemma_entry_for_first(g, key, 0, j);
    } else {
        assert forall|k: int| 0 <= k < j - 1 implies g[k].0 != key by {
            if k < i {
                lemma_entry_for_skips(entries, key, 0, k);
            } else {
                lemma_entry_for_skips(entries, key, 0, k + 1);
            }
        }
        lemma_entry_for_first(g, key, 0, j - 1);
    }
}

/// Until ticket `t` of the request under `key` finishes, it is either cancelled, or
/// still the ticket of `key` and live.
proof fn lemma_superseded_or_current(m: RequestsModel, key: Seq<char>, t: nat, steps: Seq<RequestStep>)
    requires
        is_cancelled_spec(m, t) || (ticket_of(m, key) == Some(t) && is_live(m, t)),
        keeps_ticket(steps, t),
    ensures
        ({
            let n = apply_steps(m, steps);
            is_cancelled_spec(n, t) || (ticket_of(n, key) == Some(t) && is_live(n, t))
        }),
    decreases steps.len(),
{
    if steps.len() > 0 {
        let next = apply_step(m, steps[0]);
        if is_cancelled_spec(m, t) {
            cancelled_requests_stay_cancelled(m, t, steps);
            return;
        }
        match steps[0] {
            RequestStep::Register(other) => {
                lemma_register(m, other, t);
                if other != key {
                    lemma_ticket_kept(m, other, key);
                }
            },
            RequestStep::Cancel(other) => {
                if let Some(other) = other {
                    if let Some(u) = ticket_of(m, other) {
                        lemma_mark(m, u, t);
                    }
                }
            },
            RequestStep::Finish(other, u) => {
                assert(!(steps[0] matches RequestStep::Finish(_, u) && u == t));
                lemma_forget(m, u, t);
                let i = entry_for(m.entries, other, 0);
                lemma_entry_for_bounds(m.entries, other, 0);
                lemma_entry_for_bounds(m.entries, key, 0);
                if i >= 0 && m.entries[i].1 == u {
                    if other == key {
                        assert(false);
                    }
                    lemma_entry_for_other_remove(m.entries, key, i);
                }
            },
        }
        let rest = steps.drop_first();
        assert forall|k: int| 0 <= k < rest.len() implies !(#[trigger] rest[k] matches RequestStep::Finish(_, u) && u == t) by {
            assert(rest[k] == steps[k + 1]);
        }
        lemma_superseded_or_current(next, key, t, rest);
    }
}

/// A started request that the client cancels, or replaces by a new request under the
/// same id, gets no reply: after it is registered, whatever other changes come before
/// and after the cancellation notice or the new request, as long as it has not finished,
/// it reads as cancelled, and completing it writes nothing.
pub proof fn superseded_requests_get_no_reply(
    m: RequestsModel,
    id: JsonModel,
    before: Seq<RequestStep>,
    last: RequestStep,
    after: Seq<RequestStep>,
    outcome: Result<JsonModel, JsonModel>,
)
    requires
        requests_valid(m),
        last == RequestStep::Register(compact_text(id)) || last == RequestStep::Cancel(Some(compact_text(id))),
        keeps_ticket(before, register_spec(m, compact_text(id)).1),
        keeps_ticket(after, register_spec(m, compact_text(id)).1),
    ensures
        ({
            let (m1, t) = register_spec(m, compact_text(id));
            let n = apply_steps(apply_step(apply_steps(m1, before), last), after);
            &&& is_cancelled_spec(n, t)
            &&& complete_spec(n, id, t, outcome).1 is None
        }),
{
    let key = compact_text(id);
    let (m1, t) = register_spec(m, key);
    lemma_register(m, key, t);
    lemma_ticket_after_register(m, key);
    lemma_superseded_or_current(m1, key, t, before);
    let mb = apply_steps(m1, before);
    let ml = apply_step(mb, last);
    match last {
        RequestStep::Register(_) => lemma_register(mb, key, t),
        RequestStep::Cancel(_) => {
            if let Some(u) = ticket_of(mb, key) {
                lemma_mark(mb, u, t);
            }
        },
        RequestStep::Finish(_, _) => {},
    }
    assert(is_cancelled_spec(ml, t));
    cancelled_requests_stay_cancelled(ml, t, after);
}

/// After registering under `key`, its ticket is the one handed out.
pub proof fn lemma_ticket_after_register(m: RequestsModel, key: Seq<char>)
    ensures
        ticket_of(register_spec(m, key).0, key) == Some(register_spec(m, key).1),
{
    let (m1, t) = register_spec(m, key);
    let i = entry_for(m.entries, key, 0);
    lemma_entry_for_bounds(m.entries, key, 0);
    lemma_entry_for_bounds(m1.entries, key, 0);
    if i >= 0 {
        lemma_entry_for_prefix(m.entries, key, i);
        lemma_entry_for_update(m.entries, key, i, (key, t));
    } else {
        lemma_entry_for_absent_push(m.entries, key, (key, t));
    }
}

/// Registering under `other` keeps the ticket of a different key.
pub proof fn lemma_ticket_kept(m: RequestsModel, other: Seq<char>, key: Seq<char>)
    requires
        other != key,
    ensures
        ticket_of(register_spec(m, other).0, key) == ticket_of(m, key),
{
    let (m1, t) = register_spec(m, other);
    let i = entry_for(m.entries, other, 0);
    lemma_entry_for_bounds(m.entries, other, 0);
    if i >= 0 {
        lemma_entry_for_other_update(m.entries, key, i, (other, t), 0);
    } else {
        lemma_entry_for_other_push(m.entries, key, (other, t), 0);
    }
}

proof fn lemma_entry_for_prefix(entries: Seq<(Seq<char>, nat)>, key: Seq<char>, i: int)
    requires
        entry_for(entries, key, 0) == i,
        i >= 0,
    ensures
        forall|k: int| 0 <= k < i ==> entries[k].0 != key,
{
    assert forall|k: int| 0 <= k < i implies entries[k].0 != key by {
        lemma_entry_for_skips(entries, key, 0, k);
    }
}

proof fn lemma_entry_for_skips(entries: Seq<(Seq<char>, nat)>, key: Seq<char>, from: int, k: int)
    requires
        0 <= from <= k,
        k < entry_for(entries, key, from) || (entry_for(entries, key, from) == -1 && k < entries.len()),
    ensures
        entries[k].0 != key,
    decreases k - from,
{
    if entries[from].0 == key {
        assert(entry_for(entries, key, from) == from);
    } else if from < k {
        lemma_entry_for_skips(entries, key, from + 1, k);
    }
}

proof fn lemma_entry_for_first(entries: Seq<(Seq<char>, nat)>, key: Seq<char>, from: int, i: int)
    requires
        0 <= from <= i < entries.len(),
        entries[i].0 == key,
        forall|k: int| from <= k < i ==> entries[k].0 != key,
    ensures
        entry_for(entries, key, from) == i,
    decreases i - from,
{
    if from < i {
        lemma_entry_for_first(entries, key, from + 1, i);
    }
}

proof fn lemma_entry_for_none(entries: Seq<(Seq<char>, nat)>, key: Seq<char>, from: int)
    requires
        0 <= from,
        forall|k: int| from <= k < entries.len() ==> entries[k].0 != key,
    ensures
        entry_for(entries, key, from) == -1,
    decreases entries.len() - from,
{
    if from < entries.len() {
        lemma_entry_for_none(entries, key, from + 1);
    }
}

proof fn lemma_entry_for_update(
    entries: Seq<(Seq<char>, nat)>,
    key: Seq<char>,
    i: int,
    e: (Seq<char>, nat),
)
    requires
        0 <= i < entries.len(),
        e.0 == key,
        forall|k: int| 0 <= k < i ==> entries[k].0 != key,
    ensures
        entry_for(entries.update(i, e), key, 0) == i,
{
    let u = entries.update(i, e);
    lemma_entry_for_first(u, key, 0, i);
}

proof fn lemma_entry_for_absent_push(entries: Seq<(Seq<char>, nat)>, key: Seq<char>, e: (Seq<char>, nat))
    requires
        entry_for(entries, key, 0) == -1,
        e.0 == key,
    ensures
        entry_for(entries.push(e), key, 0) == entries.len(),
{
    let u = entries.push(e);
    assert forall|k: int| 0 <= k < entries.len() implies u[k].0 != key by {
        lemma_entry_for_skips(entries, key, 0, k);
    }
    lemma_entry_for_first(u, key, 0, entries.len() as int);
}

proof fn lemma_entry_for_other_update(
    entries: Seq<(Seq<char>, nat)>,
    key: Seq<char>,
    i: int,
    e: (Seq<char>, nat),
    from: int,
)
    requires
        0 <= i < entries.len(),
        entries[i].0 != key,
        e.0 != key,
        0 <= from,
    ensures
        entry_for(entries.update(i, e), key, from) == entry_for(entries, key, from),
        entry_for(entries, key, from) >= 0 ==> entries.update(i, e)[entry_for(entries, key, from)]
            == entries[entry_for(entries, key, from)],
    decreases entries.len() - from,
{
    lemma_entry_for_bounds(entries, key, from);
    if from < entries.len() {
        lemma_entry_for_other_update(entries, key, i, e, from + 1);
    }
}

proof fn lemma_entry_for_other_push(
    entries: Seq<(Seq<char>, nat)>,
    key: Seq<char>,
    e: (Seq<char>, nat),
    from: int,
)
    requires
        e.0 != key,
        0 <= from,
    ensures
        entry_for(entries.push(e), key, from) == entry_for(entries, key, from),
        entry_for(entries, key, from) >= 0 ==> entries.push(e)[entry_for(entries, key, from)]
            == entries[entry_for(entries, key, from)],
    decreases entries.len() + 1 - from,
{
    lemma_entry_for_bounds(entries, key, from);
    if from <= entries.len() {
        lemma_entry_for_other_push(entries, key, e, from + 1);
    }
}


/// A question the `ask` tool is to put to the user.
#[derive(Debug)]
pub struct AskRequest {
    pub question: String,
    pub choices: Vec<String>,
    pub timeout_secs: u64,
    pub title: String,
}

/// What a tool call leads to: a result at once, a message to send, or a question to ask.
#[derive(Debug)]
pub enum ToolCall {
    Done(Json),
    Notify(String),
    Ask(AskRequest),
}

/// The model of a tool call's outcome.
pub enum ToolCallModel {
    Done(JsonModel),
    Notify(Seq<char>),
    Ask(Seq<char>, Seq<Seq<char>>, u64, Seq<char>),
}

/// The model of a tool call value.
pub open spec fn tool_call_model(c: ToolCall) -> ToolCallModel {
    match c {
        ToolCall::Done(j) => ToolCallModel::Done(j@),
        ToolCall::Notify(t) => ToolCallModel::Notify(t@),
        ToolCall::Ask(r) => ToolCallModel::Ask(r.question@, views(r.choices@), r.timeout_secs, r.title@),
    }
}

/// The conversation title argument, checked.
pub open spec fn title_arg_spec(message: JsonModel) -> Result<Seq<char>, Seq<char>> {
    match at_pointer(message, "/params/arguments/conversation_title"@) {
        None => Err("missing required argument: conversation_title"@),
        Some(v) => match str_of(v) {
            None => Err("conversation_title must be a string"@),
            Some(t) => match title_error(t) {
                Some(e) => Err(title_error_text(e)),
                None => Ok(trim(t)),
            },
        },
    }
}

/// A notification under its title, marked when the user must act.
pub open spec fn notification_spec(title: Seq<char>, message: Seq<char>, action_required: bool) -> Seq<
    char,
> {
    if action_required {
        action_required_spec(title, message)
    } else {
        titled(title, message)
    }
}

/// The `notify` tool: title, message, and the optional `action_required` flag.
pub open spec fn notify_spec(message: JsonModel) -> ToolCallModel {
    match title_arg_spec(message) {
        Err(e) => ToolCallModel::Done(tool_result_spec(e, true)),
        Ok(title) => match str_at(message, "/params/arguments/message"@) {
            None => ToolCallModel::Done(
                tool_result_spec("missing required argument: message"@, true),
            ),
            Some(text) => match at_pointer(message, "/params/arguments/action_required"@) {
                Some(v) => match bool_of(v) {
                    None => ToolCallModel::Done(
                        tool_result_spec("action_required must be true or false"@, true),
                    ),
                    Some(a) => ToolCallModel::Notify(notification_spec(title, text, a)),
                },
                None => ToolCallModel::Notify(notification_spec(title, text, false)),
            },
        },
    }
}

/// The texts of a list whose items are all strings.
pub open spec fn strings_of(items: Seq<JsonModel>) -> Option<Seq<Seq<char>>> {
    if forall|i: int| 0 <= i < items.len() ==> (#[trigger] str_of(items[i])) is Some {
        Some(Seq::new(items.len(), |i: int| str_of(items[i])->0))
    } else {
        None
    }
}

/// The `ask` tool: title, question, string choices, and an optional timeout.
pub open spec fn ask_spec(message: JsonModel) -> ToolCallModel {
    match title_arg_spec(message) {
        Err(e) => ToolCallModel::Done(tool_result_spec(e, true)),
        Ok(title) => match str_at(message, "/params/arguments/message"@) {
            None => ToolCallModel::Done(
                tool_result_spec("missing required argument: message"@, true),
            ),
            Some(question) => {
                let choices = match at_pointer(message, "/params/arguments/choices"@) {
                    Some(JsonModel::Array(items)) => strings_of(items),
                    _ => None,
                };
                match choices {
                    None => ToolCallModel::Done(
                        tool_result_spec("choices must be an array of strings"@, true),
                    ),
                    Some(cs) => match at_pointer(message, "/params/arguments/timeout_seconds"@) {
                        Some(v) => match u64_of(v) {
                            None => ToolCallModel::Done(
                                tool_result_spec("timeout_seconds must be a positive integer"@, true),
                            ),
                            Some(t) => ToolCallModel::Ask(question, cs, t, title),
                        },
                        None => ToolCallModel::Ask(question, cs, DEFAULT_TIMEOUT_SECS, title),
                    },
                }
            },
        },
    }
}

/// The text of the error for an unknown tool, naming it as `Debug` would.
pub open spec fn unknown_tool_spec(name: Option<Seq<char>>) -> Seq<char> {
    "unknown tool: "@ + match name {
        Some(n) => "Some("@ + debug_quoted(n) + ")"@,
        None => "None"@,
    }
}

/// A `tools/call` request, by tool name.
pub open spec fn tool_call_spec(message: JsonModel) -> ToolCallModel {
    let name = str_at(message, "/params/name"@);
    if name == Some("notify"@) {
        notify_spec(message)
    } else if name == Some("ask"@) {
        ask_spec(message)
    } else {
        ToolCallModel::Done(tool_result_spec(unknown_tool_spec(name), true))
    }
}

/// The conversation title argument, checked.
pub fn conversation_title(message: &Json) -> (r: Result<String, String>)
    ensures
        match r {
            Ok(t) => title_arg_spec(message@) == Ok::<Seq<char>, Seq<char>>(t@),
            Err(e) => title_arg_spec(message@) == Err::<Seq<char>, Seq<char>>(e@),
        },
{
    let value = match message.pointer("/params/arguments/conversation_title") {
        Some(v) => v,
        None => return Err(owned("missing required argument: conversation_title")),
    };
    let text = match value.as_str() {
        Some(t) => t,
        None => return Err(owned("conversation_title must be a string")),
    };
    match title(text) {
        Ok(t) => Ok(owned(t)),
        Err(e) => Err(e.message()),
    }
}

/// The notification text: the message under its title, marked when the user must act.
pub fn notification_text(title: &str, message: &str, action_required: bool) -> (s: String)
    ensures
        s@ == notification_spec(title@, message@, action_required),
{
    if action_required {
        action_required_text_with_title(title, message)
    } else {
        titled_text(title, message)
    }
}

/// The `notify` tool.
pub fn notify(message: &Json) -> (r: ToolCall)
    ensures
        tool_call_model(r) == notify_spec(message@),
{
    let title = match conversation_title(message) {
        Ok(t) => t,
        Err(e) => return ToolCall::Done(tool_error(e.as_str())),
    };
    let text = match message.str_at("/params/arguments/message") {
        Some(t) => t,
        None => return ToolCall::Done(tool_error("missing required argument: message")),
    };
    let action_required = match message.pointer("/params/arguments/action_required") {
        Some(v) => match v.as_bool() {
            Some(b) => b,
            None => return ToolCall::Done(tool_error("action_required must be true or false")),
        },
        None => false,
    };
    ToolCall::Notify(notification_text(title.as_str(), text, action_required))
}

/// The texts of a list whose items are all strings.
fn strings_of_items(items: &Vec<Json>) -> (r: Option<Vec<String>>)
    ensures
        match r {
            Some(v) => strings_of(models_of(items@)) == Some(views(v@)),
            None => strings_of(models_of(items@)) is None,
        },
{
    let ghost ms = models_of(items@);
    let mut out: Vec<String> = Vec::new();
    let mut i: usize = 0;
    while i < items.len()
        invariant
            i <= items@.len(),
            ms == models_of(items@),
            out@.len() == i,
            forall|k: int| 0 <= k < i ==> (#[trigger] str_of(ms[k])) == Some(out@[k]@),
        decreases items@.len() - i,
    {
        match items[i].as_str() {
            Some(t) => out.push(owned(t)),
            None => {
                assert(str_of(ms[i as int]) is None);
                return None;
            },
        }
        i += 1;
    }
    assert(views(out@) =~= Seq::new(ms.len(), |k: int| str_of(ms[k])->0));
    Some(out)
}

/// The `ask` tool.
pub fn ask(message: &Json) -> (r: ToolCall)
    ensures
        tool_call_model(r) == ask_spec(message@),
{
    let title = match conversation_title(message) {
        Ok(t) => t,
        Err(e) => return ToolCall::Done(tool_error(e.as_str())),
    };
    let question = match message.str_at("/params/arguments/message") {
        Some(t) => t,
        None => return ToolCall::Done(tool_error("missing required argument: message")),
    };
    let choices = match message.pointer("/params/arguments/choices") {
        Some(v) => match v.as_array() {
            Some(items) => strings_of_items(items),
            None => None,
        },
        None => None,
    };
    let choices = match choices {
        Some(c) => c,
        None => return ToolCall::Done(tool_error("choices must be an array of strings")),
    };
    let timeout_secs = match message.pointer("/params/arguments/timeout_seconds") {
        Some(v) => match v.as_u64() {
            Some(t) => t,
            None => return ToolCall::Done(tool_error("timeout_seconds must be a positive integer")),
        },
        None => DEFAULT_TIMEOUT_SECS,
    };
    ToolCall::Ask(AskRequest { question: owned(question), choices, timeout_secs, title })
}

/// A `tools/call` request, by tool name.
pub fn tool_call(message: &Json) -> (r: ToolCall)
    ensures
        tool_call_model(r) == tool_call_spec(message@),
{
    let name = message.str_at("/params/name");
    match name {
        Some(n) => {
            let v = chars_of(n);
            if equals_str(&v, "notify") {
                notify(message)
            } else if equals_str(&v, "ask") {
                ask(message)
            } else {
                let inner = join3("Some(", debug_str(n).as_str(), ")");
                let text = join2("unknown tool: ", inner.as_str());
                ToolCall::Done(tool_error(text.as_str()))
            }
        },
        None => {
            let text = join2("unknown tool: ", "None");
            ToolCall::Done(tool_error(text.as_str()))
        },
    }
}

/// What the server does with a request: reply at once, or send a message or ask a
/// question and reply with how that went.
#[derive(Debug)]
pub enum Dispatch {
    Reply(Result<Json, Json>),
    Notify(String),
    Ask(AskRequest),
}

/// The model of a dispatch.
pub enum DispatchModel {
    Reply(Result<JsonModel, JsonModel>),
    Notify(Seq<char>),
    Ask(Seq<char>, Seq<Seq<char>>, u64, Seq<char>),
}

/// The model of a dispatch value.
pub open spec fn dispatch_model(d: Dispatch) -> DispatchModel {
    match d {
        Dispatch::Reply(o) => DispatchModel::Reply(outcome_model(o)),
        Dispatch::Notify(t) => DispatchModel::Notify(t@),
        Dispatch::Ask(r) => DispatchModel::Ask(r.question@, views(r.choices@), r.timeout_secs, r.title@),
    }
}

/// The result of `initialize`.
pub open spec fn initialize_spec(message: JsonModel, version: Seq<char>) -> JsonModel {
    let protocol = match str_at(message, "/params/protocolVersion"@) {
        Some(p) => p,
        None => DEFAULT_PROTOCOL_VERSION@,
    };
    JsonModel::Object(
        seq![
            ("protocolVersion"@, JsonModel::Str(protocol)),
            ("capabilities"@, JsonModel::Object(seq![("tools"@, JsonModel::Object(Seq::empty()))])),
            ("serverInfo"@, JsonModel::Object(seq![
                ("name"@, JsonModel::Str(SERVER_NAME@)),
                ("version"@, JsonModel::Str(version)),
            ])),
        ],
    )
}

/// The error for an unknown method.
pub open spec fn method_not_found_spec(method: Seq<char>) -> JsonModel {
    JsonModel::Object(
        seq![
            ("code"@, JsonModel::Number(NumberModel::NegInt(METHOD_NOT_FOUND))),
            ("message"@, JsonModel::Str("method not found: "@ + method)),
        ],
    )
}

/// How one request is answered: `initialize`, `ping` and `tools/list` at once,
/// `tools/call` by its tool, and any other method with a method-not-found error.
pub open spec fn handle_spec(message: JsonModel, version: Seq<char>) -> DispatchModel {
    let m = method_of(message);
    if m == "initialize"@ {
        DispatchModel::Reply(Ok(initialize_spec(message, version)))
    } else if m == "ping"@ {
        DispatchModel::Reply(Ok(JsonModel::Object(Seq::empty())))
    } else if m == "tools/list"@ {
        DispatchModel::Reply(Ok(tools_list_spec()))
    } else if m == "tools/call"@ {
        match tool_call_spec(message) {
            ToolCallModel::Done(j) => DispatchModel::Reply(Ok(j)),
            ToolCallModel::Notify(t) => DispatchModel::Notify(t),
            ToolCallModel::Ask(q, c, t, title) => DispatchModel::Ask(q, c, t, title),
        }
    } else {
        DispatchModel::Reply(Err(method_not_found_spec(m)))
    }
}

/// How one request is answered; `version` is the server version reported by `initialize`.
pub fn handle(message: &Json, version: &str) -> (r: Dispatch)
    ensures
        dispatch_model(r) == handle_spec(message@, version@),
{
    let m = method(message);
    let mv = chars_of(m);
    if equals_str(&mv, "initialize") {
        let protocol = match message.str_at("/params/protocolVersion") {
            Some(p) => p,
            None => DEFAULT_PROTOCOL_VERSION,
        };
        let result = object3(
            "protocolVersion",
            Json::string(protocol),
            "capabilities",
            object1("tools", object0()),
            "serverInfo",
            object2("name", Json::string(SERVER_NAME), "version", Json::string(version)),
        );
        Dispatch::Reply(Ok(result))
    } else if equals_str(&mv, "ping") {
        Dispatch::Reply(Ok(object0()))
    } else if equals_str(&mv, "tools/list") {
        Dispatch::Reply(Ok(tools_list()))
    } else if equals_str(&mv, "tools/call") {
        match tool_call(message) {
            ToolCall::Done(j) => Dispatch::Reply(Ok(j)),
            ToolCall::Notify(t) => Dispatch::Notify(t),
            ToolCall::Ask(r) => Dispatch::Ask(r),
        }
    } else {
        let error = object2(
            "code",
            Json::integer(METHOD_NOT_FOUND),
            "message",
            Json::Str(join2("method not found: ", m)),
        );
        Dispatch::Reply(Err(error))
    }
}

/// The tool result for a `notify` whose message was sent or failed with `error`.
pub fn notify_result(outcome: Result<&str, &str>) -> (j: Json)
    ensures
        j@ == match outcome {
            Ok(receipt) => tool_result_spec(receipt@, false),
            Err(e) => tool_result_spec(e@, true),
        },
{
    match outcome {
        Ok(receipt) => tool_success(receipt),
        Err(e) => tool_error(e),
    }
}

/// The tool result for an `ask` that was answered or failed with `error`.
pub fn ask_result(outcome: Result<&str, &str>) -> (j: Json)
    ensures
        j@ == match outcome {
            Ok(answer) => tool_result_spec("User answered: "@ + answer@, false),
            Err(e) => tool_result_spec(e@, true),
        },
{
    match outcome {
        Ok(answer) => answered_result(answer),
        Err(e) => tool_error(e),
    }
}

/// An `ask` call without `timeout_seconds` waits the default two hours, the default its
/// schema advertises: when the title, message and string choices are valid, the
/// question is asked with a timeout of 7200 seconds.
pub proof fn asks_wait_two_hours_by_default(
    message: JsonModel,
    title: Seq<char>,
    question: Seq<char>,
    items: Seq<JsonModel>,
    choices: Seq<Seq<char>>,
)
    requires
        at_pointer(message, "/params/arguments/timeout_seconds"@) is None,
        title_arg_spec(message) == Ok::<Seq<char>, Seq<char>>(title),
        str_at(message, "/params/arguments/message"@) == Some(question),
        at_pointer(message, "/params/arguments/choices"@) == Some(JsonModel::Array(items)),
        choices.len() == items.len(),
        forall|i: int| 0 <= i < items.len() ==> str_of(#[trigger] items[i]) == Some(choices[i]),
    ensures
        ask_spec(message) == ToolCallModel::Ask(question, choices, 7200, title),
        DEFAULT_TIMEOUT_SECS == 7200,
{
    assert(strings_of(items) == Some(choices)) by {
        assert(Seq::new(items.len(), |i: int| str_of(items[i])->0) =~= choices);
    }
}

/// A `notify` call without `action_required` sends the plain titled message, as with
/// `action_required: false`: the title, a blank line, and the trimmed message, with no
/// action-needed marker.
pub proof fn notifications_are_plain_by_default(message: JsonModel, title: Seq<char>, text: Seq<char>)
    requires
        at_pointer(message, "/params/arguments/action_required"@) is None,
        title_arg_spec(message) == Ok::<Seq<char>, Seq<char>>(title),
        str_at(message, "/params/arguments/message"@) == Some(text),
    ensures
        notify_spec(message) == ToolCallModel::Notify(title + "\n\n"@ + trim(text)),
{
}

/// The `ask` tool's schema advertises the same default wait: its `timeout_seconds`
/// property has `default` 7200.
pub proof fn ask_schema_advertises_two_hours()
    ensures
        ({
            let schema = field(ask_tool(), "inputSchema"@)->0;
            let properties = field(schema, "properties"@)->0;
            let timeout = field(properties, "timeout_seconds"@)->0;
            field(timeout, "default"@) == Some(JsonModel::Number(NumberModel::PosInt(7200)))
        }),
{
    reveal_strlit("name");
    reveal_strlit("description");
    reveal_strlit("inputSchema");
    reveal_strlit("type");
    reveal_strlit("properties");
    reveal_strlit("message");
    reveal_strlit("conversation_title");
    reveal_strlit("choices");
    reveal_strlit("timeout_seconds");
    reveal_strlit("minimum");
    reveal_strlit("maximum");
    reveal_strlit("default");
    assert("name"@ != "inputSchema"@) by { assert("name"@[0] != "inputSchema"@[0]); }
    assert("description"@ != "inputSchema"@) by { assert("description"@[0] != "inputSchema"@[0]); }
    assert("type"@ != "properties"@) by { assert("type"@[0] != "properties"@[0]); }
    assert("message"@ != "timeout_seconds"@) by { assert("message"@[0] != "timeout_seconds"@[0]); }
    assert("conversation_title"@ != "timeout_seconds"@) by { assert("conversation_title"@[0] != "timeout_seconds"@[0]); }
    assert("choices"@ != "timeout_seconds"@) by { assert("choices"@[0] != "timeout_seconds"@[0]); }
    assert("type"@ != "default"@) by { assert("type"@[0] != "default"@[0]); }
    assert("description"@ != "default"@) by { assert("description"@[2] != "default"@[2]); }
    assert("minimum"@ != "default"@) by { assert("minimum"@[0] != "default"@[0]); }
    assert("maximum"@ != "default"@) by { assert("maximum"@[0] != "default"@[0]); }
    let tool = ask_tool();
    if let JsonModel::Object(e) = tool {
        assert(entry_from(e, "inputSchema"@, 2) == 2);
        assert(entry_from(e, "inputSchema"@, 1) == 2);
        assert(entry_from(e, "inputSchema"@, 0) == 2);
    }
    let schema = field(tool, "inputSchema"@)->0;
    if let JsonModel::Object(e) = schema {
        assert(entry_from(e, "properties"@, 1) == 1);
        assert(entry_from(e, "properties"@, 0) == 1);
    }
    let properties = field(schema, "properties"@)->0;
    if let JsonModel::Object(e) = properties {
        assert(entry_from(e, "timeout_seconds"@, 3) == 3);
        assert(entry_from(e, "timeout_seconds"@, 2) == 3);
        assert(entry_from(e, "timeout_seconds"@, 1) == 3);
        assert(entry_from(e, "timeout_seconds"@, 0) == 3);
    }
    let timeout = field(properties, "timeout_seconds"@)->0;
    if let JsonModel::Object(e) = timeout {
        assert(entry_from(e, "default"@, 4) == 4);
        assert(entry_from(e, "default"@, 3) == 4);
        assert(entry_from(e, "default"@, 2) == 4);
        assert(entry_from(e, "default"@, 1) == 4);
        assert(entry_from(e, "default"@, 0) == 4);
    }
}

/// A `notify` call with `action_required` marks the message exactly when the flag is
/// true: the action-needed marker and a blank line come before the titled message then,
/// and never otherwise.
pub proof fn notifications_are_marked_only_when_asked(
    message: JsonModel,
    title: Seq<char>,
    text: Seq<char>,
    flag: bool,
)
    requires
        at_pointer(message, "/params/arguments/action_required"@) == Some(JsonModel::Bool(flag)),
        title_arg_spec(message) == Ok::<Seq<char>, Seq<char>>(title),
        str_at(message, "/params/arguments/message"@) == Some(text),
    ensures
        notify_spec(message) == ToolCallModel::Notify(
            if flag {
                "🚨 Action needed"@ + "\n\n"@ + (title + "\n\n"@ + trim(text))
            } else {
                title + "\n\n"@ + trim(text)
            },
        ),
{
}

} // verus!
