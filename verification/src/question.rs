//! Interactive Telegram questions: what is checked before asking, what is sent,
//! how replies are read, and what the message says once it is answered or expired.
use vstd::prelude::*;

use crate::conversation::{status_text, with_status};
use crate::json::{
    array0, array1, array2, array_of, entry_from, field, i64_at, i64_field, models_of, object1, object2, object3, object4, str_at, str_field,
    Json, JsonModel, NumberModel,
};
use crate::text::{
    chars_of, decimal, equals_str, hex, hex_chars, join2, join3, owned, parse_usize,
    starts_with, string_of, trim, trimmed, u64_text, usize_value,
};

verus! {

/// The longest single poll of `getUpdates`, in seconds.
pub const POLL_TIMEOUT_SECS: u64 = 25;

/// How long a question waits when no timeout is given, in seconds.
pub const DEFAULT_TIMEOUT_SECS: u64 = 7200;

/// The longest a question may wait, in seconds.
pub const MAX_TIMEOUT_SECS: u64 = 7200;

/// The shortest a question may wait, in seconds.
pub const MIN_TIMEOUT_SECS: u64 = 30;

/// The most buttons a question may have.
pub const MAX_CHOICES: usize = 8;

/// The longest question, in characters.
pub const MAX_QUESTION_CHARS: usize = 3000;

/// The longest button label, in characters.
pub const MAX_CHOICE_CHARS: usize = 64;

/// How many updates one `getUpdates` call may return.
pub const UPDATE_BATCH: usize = 100;

/// How many batches of stale updates are skipped before giving up.
pub const MAX_PENDING_BATCHES: u32 = 100;

/// The marker put before messages that need the user to act.
pub const ACTION_NEEDED: &'static str = "🚨 Action needed";

/// Why a question could not be asked or answered.
#[derive(Debug, PartialEq, Eq, Clone, Copy, Structural)]
pub enum AskError {
    EmptyQuestion,
    QuestionTooLong,
    ChoiceCount,
    TimeoutRange,
    ChoiceLength,
    NotPrivateChat,
    MissingChatId,
    MissingMessageId,
    UpdatesNotArray,
    TooManyPending,
}

/// The sentence for each error.
pub open spec fn ask_error_text(e: AskError) -> Seq<char> {
    match e {
        AskError::EmptyQuestion => "question must not be empty"@,
        AskError::QuestionTooLong => "question must be at most 3000 characters"@,
        AskError::ChoiceCount => "choices must contain between 2 and 8 items"@,
        AskError::TimeoutRange => "timeout_seconds must be between 30 and 7200"@,
        AskError::ChoiceLength => "each choice must contain between 1 and 64 characters"@,
        AskError::NotPrivateChat => "interactive questions require a private Telegram chat"@,
        AskError::MissingChatId => "getChat response is missing a numeric id"@,
        AskError::MissingMessageId => "sendMessage response is missing message_id"@,
        AskError::UpdatesNotArray => "getUpdates response is not an array"@,
        AskError::TooManyPending => "too many pending Telegram updates; send the question again"@,
    }
}

impl AskError {
    /// The sentence reported for this error.
    pub fn message(&self) -> (s: String)
        ensures
            s@ == ask_error_text(*self),
    {
        match self {
            AskError::EmptyQuestion => owned("question must not be empty"),
            AskError::QuestionTooLong => owned("question must be at most 3000 characters"),
            AskError::ChoiceCount => owned("choices must contain between 2 and 8 items"),
            AskError::TimeoutRange => owned("timeout_seconds must be between 30 and 7200"),
            AskError::ChoiceLength => owned("each choice must contain between 1 and 64 characters"),
            AskError::NotPrivateChat => owned(
                "interactive questions require a private Telegram chat",
            ),
            AskError::MissingChatId => owned("getChat response is missing a numeric id"),
            AskError::MissingMessageId => owned("sendMessage response is missing message_id"),
            AskError::UpdatesNotArray => owned("getUpdates response is not an array"),
            AskError::TooManyPending => owned(
                "too many pending Telegram updates; send the question again",
            ),
        }
    }
}

/// `"{value} {unit}"`, with an `s` unless the value is one.
pub open spec fn plural_spec(value: nat, unit: Seq<char>) -> Seq<char> {
    decimal(value) + " "@ + unit + if value == 1 {
        ""@
    } else {
        "s"@
    }
}

/// A wait in the largest whole unit: hours, minutes, or seconds.
pub open spec fn wait_spec(seconds: nat) -> Seq<char> {
    if seconds % 3600 == 0 {
        plural_spec(seconds / 3600, "hour"@)
    } else if seconds % 60 == 0 {
        plural_spec(seconds / 60, "minute"@)
    } else {
        plural_spec(seconds, "second"@)
    }
}

/// What an expired question is edited to say.
pub open spec fn expired_spec(question: Seq<char>, wait: Seq<char>) -> Seq<char> {
    question + "\n\n⌛ Expired after "@ + wait
        + " — Codex stopped waiting. Ask again if you still want to answer."@
}

/// What an answered question is edited to say.
pub open spec fn answered_spec(question: Seq<char>, answer: Seq<char>) -> Seq<char> {
    question + "\n\n✅ Answered: "@ + answer
}

/// The error reported when a question expires.
pub open spec fn expiry_error_spec(wait: Seq<char>) -> Seq<char> {
    "Telegram question expired after "@ + wait
        + "; the buttons were removed. Do not assume an answer or continue work that depends on one"@
}

/// The text of the question message.
pub open spec fn prompt_spec(question: Seq<char>) -> Seq<char> {
    question + "\n\nTap a choice below, or send a text reply."@
}

/// A question under the action-needed marker and its conversation title.
pub open spec fn action_required_spec(title: Seq<char>, message: Seq<char>) -> Seq<char> {
    with_status(ACTION_NEEDED@, Some(title), message)
}

/// `"{value} {unit}"`, with an `s` unless the value is one.
pub fn plural(value: u64, unit: &str) -> (s: String)
    ensures
        s@ == plural_spec(value as nat, unit@),
{
    let suffix = if value == 1 {
        ""
    } else {
        "s"
    };
    let mut s = join3(u64_text(value).as_str(), " ", unit);
    s.append(suffix);
    s
}

/// A wait in the largest whole unit, e.g. `2 hours`, `1 minute`, `30 seconds`.
pub fn wait_label(seconds: u64) -> (s: String)
    ensures
        s@ == wait_spec(seconds as nat),
{
    if seconds % 3600 == 0 {
        plural(seconds / 3600, "hour")
    } else if seconds % 60 == 0 {
        plural(seconds / 60, "minute")
    } else {
        plural(seconds, "second")
    }
}

/// What an expired question is edited to say.
pub fn expired_text(question: &str, wait: &str) -> (s: String)
    ensures
        s@ == expired_spec(question@, wait@),
{
    let mut s = join3(question, "\n\n⌛ Expired after ", wait);
    s.append(" — Codex stopped waiting. Ask again if you still want to answer.");
    s
}

/// What an answered question is edited to say.
pub fn answered_text(question: &str, answer: &str) -> (s: String)
    ensures
        s@ == answered_spec(question@, answer@),
{
    join3(question, "\n\n✅ Answered: ", answer)
}

/// The error reported when a question expires after `wait`.
pub fn expiry_error(wait: &str) -> (s: String)
    ensures
        s@ == expiry_error_spec(wait@),
{
    join3(
        "Telegram question expired after ",
        wait,
        "; the buttons were removed. Do not assume an answer or continue work that depends on one",
    )
}

/// The text of the question message.
pub fn prompt_text(question: &str) -> (s: String)
    ensures
        s@ == prompt_spec(question@),
{
    join2(question, "\n\nTap a choice below, or send a text reply.")
}

/// A question under the action-needed marker and its conversation title.
pub fn action_required_text_with_title(title: &str, message: &str) -> (s: String)
    ensures
        s@ == action_required_spec(title@, message@),
{
    status_text(ACTION_NEEDED, Some(title), message)
}

/// The checks on a question, its buttons and its timeout, in the order they run.
pub open spec fn ask_error(question: Seq<char>, choices: Seq<Seq<char>>, timeout: u64) -> Option<
    AskError,
> {
    let q = trim(question);
    if q.len() == 0 {
        Some(AskError::EmptyQuestion)
    } else if q.len() > MAX_QUESTION_CHARS {
        Some(AskError::QuestionTooLong)
    } else if !(2 <= choices.len() <= MAX_CHOICES) {
        Some(AskError::ChoiceCount)
    } else if !(MIN_TIMEOUT_SECS <= timeout <= MAX_TIMEOUT_SECS) {
        Some(AskError::TimeoutRange)
    } else if exists|i: int|
        0 <= i < choices.len() && !(1 <= #[trigger] trim(choices[i]).len() <= MAX_CHOICE_CHARS) {
        Some(AskError::ChoiceLength)
    } else {
        None
    }
}

/// The views of a list of strings.
pub open spec fn views(v: Seq<String>) -> Seq<Seq<char>> {
    Seq::new(v.len(), |i: int| v[i]@)
}

/// A checked question: the trimmed question and the trimmed button labels.
pub struct CheckedQuestion {
    pub question: String,
    pub choices: Vec<String>,
}

/// Checks a question, its buttons and its timeout, and trims the text.
pub fn check_question(question: &str, choices: &Vec<String>, timeout_secs: u64) -> (r: Result<
    CheckedQuestion,
    AskError,
>)
    ensures
        ask_error(question@, views(choices@), timeout_secs) is None <==> r is Ok,
        r matches Err(e) ==> ask_error(question@, views(choices@), timeout_secs) == Some(e),
        r matches Ok(c) ==> c.question@ == trim(question@) && c.choices@.len() == choices@.len()
            && forall|i: int| 0 <= i < choices@.len() ==> (#[trigger] c.choices@[i])@ == trim(
            choices@[i]@,
        ),
{
    let q = trimmed(question);
    let qn = chars_of(q.as_str()).len();
    if qn == 0 {
        return Err(AskError::EmptyQuestion);
    }
    if qn > MAX_QUESTION_CHARS {
        return Err(AskError::QuestionTooLong);
    }
    if !(2 <= choices.len() && choices.len() <= MAX_CHOICES) {
        return Err(AskError::ChoiceCount);
    }
    if !(MIN_TIMEOUT_SECS <= timeout_secs && timeout_secs <= MAX_TIMEOUT_SECS) {
        return Err(AskError::TimeoutRange);
    }
    let mut out: Vec<String> = Vec::new();
    let mut ok = true;
    let mut i: usize = 0;
    while i < choices.len()
        invariant
            i <= choices@.len(),
            out@.len() == i,
            forall|k: int| 0 <= k < i ==> (#[trigger] out@[k])@ == trim(choices@[k]@),
            ok <==> forall|k: int|
                0 <= k < i ==> 1 <= #[trigger] trim(choices@[k]@).len() <= MAX_CHOICE_CHARS,
        decreases choices@.len() - i,
    {
        let c = trimmed(choices[i].as_str());
        let n = chars_of(c.as_str()).len();
        if !(1 <= n && n <= MAX_CHOICE_CHARS) {
            ok = false;
        }
        out.push(c);
        i += 1;
    }
    if !ok {
        proof {
            let vs = views(choices@);
            let k = choose|k: int|
                0 <= k < choices@.len() && !(1 <= #[trigger] trim(choices@[k]@).len()
                    <= MAX_CHOICE_CHARS);
            assert(vs[k] == choices@[k]@);
        }
        return Err(AskError::ChoiceLength);
    }
    proof {
        let vs = views(choices@);
        assert forall|k: int| 0 <= k < vs.len() implies 1 <= #[trigger] trim(vs[k]).len()
            <= MAX_CHOICE_CHARS by {
            assert(vs[k] == choices@[k]@);
        }
    }
    Ok(CheckedQuestion { question: q, choices: out })
}

/// How long the next poll waits, given the whole seconds left (at least one second,
/// at most the poll limit).
pub fn poll_seconds(remaining_secs: u64) -> (s: u64)
    ensures
        s == (if remaining_secs < 1 {
            1
        } else if remaining_secs > POLL_TIMEOUT_SECS {
            POLL_TIMEOUT_SECS
        } else {
            remaining_secs
        }),
        1 <= s <= POLL_TIMEOUT_SECS,
{
    if remaining_secs < 1 {
        1
    } else if remaining_secs > POLL_TIMEOUT_SECS {
        POLL_TIMEOUT_SECS
    } else {
        remaining_secs
    }
}

/// A lock file older than the longest wait plus five minutes is left over from a
/// question that no longer runs.
pub fn lock_is_stale(age_secs: u64, age_nanos: u32) -> (b: bool)
    ensures
        b == (age_secs > MAX_TIMEOUT_SECS + 300 || (age_secs == MAX_TIMEOUT_SECS + 300 && age_nanos
            > 0)),
{
    age_secs > MAX_TIMEOUT_SECS + 300 || (age_secs == MAX_TIMEOUT_SECS + 300 && age_nanos > 0)
}

/// The identifier of one question: the process id and the time in nanoseconds, both in
/// lower-case hexadecimal.
pub fn request_id_text(process_id: u32, nanos: u128) -> (s: String)
    ensures
        s@ == hex(process_id as nat) + hex(nanos as nat),
{
    let mut v = hex_chars(process_id as u128);
    let mut w = hex_chars(nanos);
    v.append(&mut w);
    string_of(&v)
}


/// The highest `update_id` among the updates, if any has one.
pub open spec fn max_update_id(updates: Seq<JsonModel>) -> Option<int>
    decreases updates.len(),
{
    if updates.len() == 0 {
        None
    } else {
        let rest = max_update_id(updates.drop_last());
        match i64_field(updates.last(), "update_id"@) {
            None => rest,
            Some(x) => match rest {
                None => Some(x as int),
                Some(m) => Some(if m >= x { m } else { x as int }),
            },
        }
    }
}

/// The offset that skips every update seen: one past the highest `update_id`.
pub open spec fn next_offset_spec(updates: Seq<JsonModel>) -> Option<int> {
    match max_update_id(updates) {
        Some(m) => Some(m + 1),
        None => None,
    }
}

/// The offset that skips every update seen: one past the highest `update_id`, or
/// `None` when no update has one.  The highest id must leave room for one more.
pub fn next_offset(updates: &[Json]) -> (r: Option<i64>)
    requires
        max_update_id(models_of(updates@)) matches Some(m) ==> m < i64::MAX,
    ensures
        match r {
            Some(o) => next_offset_spec(models_of(updates@)) == Some(o as int),
            None => next_offset_spec(models_of(updates@)) is None,
        },
{
    let ghost ms = models_of(updates@);
    let mut best: Option<i64> = None;
    let mut i: usize = 0;
    while i < updates.len()
        invariant
            i <= updates@.len(),
            ms == models_of(updates@),
            match best {
                Some(b) => max_update_id(ms.take(i as int)) == Some(b as int),
                None => max_update_id(ms.take(i as int)) is None,
            },
        decreases updates@.len() - i,
    {
        proof {
            assert(ms.take(i + 1).drop_last() =~= ms.take(i as int));
            assert(ms.take(i + 1).last() == updates@[i as int]@);
        }
        let id = match updates[i].get("update_id") {
            Some(v) => v.as_i64(),
            None => None,
        };
        match id {
            Some(x) => {
                best = match best {
                    Some(b) => if b >= x {
                        Some(b)
                    } else {
                        Some(x)
                    },
                    None => Some(x),
                };
            },
            None => {},
        }
        i += 1;
    }
    assert(ms.take(updates@.len() as int) =~= ms);
    match best {
        Some(b) => Some(b + 1),
        None => None,
    }
}

/// What to do after one batch of stale updates was read.
#[derive(Debug, PartialEq, Eq, Clone, Copy, Structural)]
pub enum PendingStep {
    /// Every stale update is skipped by this offset.
    Done(Option<i64>),
    /// A full batch came back: read again from this offset.
    More(Option<i64>),
}

/// Skipping the updates that arrived before a question: an empty batch ends with the
/// offset so far, a short batch ends one past it, a full batch asks for more, and after
/// the last allowed round the question is refused.
pub open spec fn pending_spec(offset: Option<i64>, updates: Seq<JsonModel>, round: u32) -> Result<
    PendingStep,
    AskError,
> {
    if updates.len() == 0 {
        Ok(PendingStep::Done(offset))
    } else {
        let next = match next_offset_spec(updates) {
            Some(o) => Some(o as i64),
            None => None,
        };
        if updates.len() < UPDATE_BATCH {
            Ok(PendingStep::Done(next))
        } else if round + 1 >= MAX_PENDING_BATCHES {
            Err(AskError::TooManyPending)
        } else {
            Ok(PendingStep::More(next))
        }
    }
}

/// One round of skipping stale updates.
pub fn pending_after(offset: Option<i64>, updates: &[Json], round: u32) -> (r: Result<
    PendingStep,
    AskError,
>)
    requires
        max_update_id(models_of(updates@)) matches Some(m) ==> m < i64::MAX,
    ensures
        r == pending_spec(offset, models_of(updates@), round),
{
    if updates.len() == 0 {
        return Ok(PendingStep::Done(offset));
    }
    let next = next_offset(updates);
    if updates.len() < UPDATE_BATCH {
        Ok(PendingStep::Done(next))
    } else if round >= MAX_PENDING_BATCHES - 1 {
        Err(AskError::TooManyPending)
    } else {
        Ok(PendingStep::More(next))
    }
}

/// What the question loop does next, given the time left.
#[derive(Debug, PartialEq, Eq, Clone, Copy, Structural)]
pub enum PollStep {
    /// The wait is over: expire the question.
    Expire,
    /// Poll for this many seconds.
    Poll(u64),
}

/// With no time left the question expires; otherwise the next poll waits for the whole
/// seconds left, between one and the poll limit.
pub open spec fn poll_spec(remaining_secs: u64, remaining_nanos: u32) -> PollStep {
    if remaining_secs == 0 && remaining_nanos == 0 {
        PollStep::Expire
    } else {
        PollStep::Poll(
            if remaining_secs < 1 {
                1
            } else if remaining_secs > POLL_TIMEOUT_SECS {
                POLL_TIMEOUT_SECS
            } else {
                remaining_secs
            },
        )
    }
}

/// With no time left the question expires; otherwise the next poll waits for the whole
/// seconds left, between one and the poll limit.
pub fn poll_step(remaining_secs: u64, remaining_nanos: u32) -> (r: PollStep)
    ensures
        r == poll_spec(remaining_secs, remaining_nanos),
        (remaining_secs == 0 && remaining_nanos == 0) <==> r == PollStep::Expire,
        r matches PollStep::Poll(s) ==> s == (if remaining_secs < 1 {
            1
        } else if remaining_secs > POLL_TIMEOUT_SECS {
            POLL_TIMEOUT_SECS
        } else {
            remaining_secs
        }),
{
    if remaining_secs == 0 && remaining_nanos == 0 {
        PollStep::Expire
    } else {
        PollStep::Poll(poll_seconds(remaining_secs))
    }
}

/// An answer read from an update.
#[derive(Debug, PartialEq, Eq)]
pub enum IncomingAnswer {
    /// A button press: the button's label and the callback to acknowledge.
    Choice { text: String, callback_query_id: String },
    /// A text reply.
    Text(String),
}

/// The model of an answer.
pub enum AnswerModel {
    Choice(Seq<char>, Seq<char>),
    Text(Seq<char>),
}

/// The model of an answer value.
pub open spec fn answer_model(a: IncomingAnswer) -> AnswerModel {
    match a {
        IncomingAnswer::Choice { text, callback_query_id } => AnswerModel::Choice(
            text@,
            callback_query_id@,
        ),
        IncomingAnswer::Text(t) => AnswerModel::Text(t@),
    }
}

/// The text of an answer model.
pub open spec fn answer_text_spec(a: AnswerModel) -> Seq<char> {
    match a {
        AnswerModel::Choice(t, _) => t,
        AnswerModel::Text(t) => t,
    }
}

impl IncomingAnswer {
    /// The answer's text: the button label or the reply.
    pub fn text(&self) -> (s: &str)
        ensures
            s@ == answer_text_spec(answer_model(*self)),
    {
        match self {
            IncomingAnswer::Choice { text, .. } => text.as_str(),
            IncomingAnswer::Text(text) => text.as_str(),
        }
    }
}

/// The `callback_data` of button `index` of question `request_id`.
pub open spec fn callback_prefix(request_id: Seq<char>) -> Seq<char> {
    "talbot:"@ + request_id + ":"@
}

/// The answer an update carries for this question, if any.  A button press counts only
/// when it comes from `user_id` in the chat with `user_id`, names this question and an
/// existing button; a text reply counts only from `user_id` in that chat and when it is
/// not blank.
pub open spec fn answer_spec(
    update: JsonModel,
    user_id: i64,
    request_id: Seq<char>,
    choices: Seq<Seq<char>>,
) -> Option<AnswerModel> {
    if i64_at(update, "/callback_query/message/chat/id"@) == Some(user_id) && i64_at(
        update,
        "/callback_query/from/id"@,
    ) == Some(user_id) {
        match str_at(update, "/callback_query/data"@) {
            None => None,
            Some(data) => {
                let prefix = callback_prefix(request_id);
                if !starts_with(data, prefix) {
                    None
                } else {
                    match usize_value(data.skip(prefix.len() as int)) {
                        None => None,
                        Some(i) => if i < choices.len() {
                            match str_at(update, "/callback_query/id"@) {
                                Some(id) => Some(AnswerModel::Choice(choices[i], id)),
                                None => None,
                            }
                        } else {
                            None
                        },
                    }
                }
            },
        }
    } else if i64_at(update, "/message/chat/id"@) == Some(user_id) && i64_at(
        update,
        "/message/from/id"@,
    ) == Some(user_id) {
        match str_at(update, "/message/text"@) {
            Some(t) => if trim(t).len() > 0 {
                Some(AnswerModel::Text(trim(t)))
            } else {
                None
            },
            None => None,
        }
    } else {
        None
    }
}

fn same_i64(a: Option<i64>, b: i64) -> (r: bool)
    ensures
        r == (a == Some(b)),
{
    match a {
        Some(x) => x == b,
        None => false,
    }
}

/// Reads the answer an update carries for this question, if any.
pub fn parse_answer(update: &Json, user_id: i64, request_id: &str, choices: &[String]) -> (r:
    Option<IncomingAnswer>)
    ensures
        match r {
            Some(a) => answer_spec(update@, user_id, request_id@, views(choices@)) == Some(
                answer_model(a),
            ),
            None => answer_spec(update@, user_id, request_id@, views(choices@)) is None,
        },
{
    if same_i64(update.i64_at("/callback_query/message/chat/id"), user_id) && same_i64(
        update.i64_at("/callback_query/from/id"),
        user_id,
    ) {
        let data = match update.str_at("/callback_query/data") {
            Some(d) => d,
            None => return None,
        };
        let dv = chars_of(data);
        let prefix = join3("talbot:", request_id, ":");
        let pv = chars_of(prefix.as_str());
        if !crate::text::starts_with_exec(&dv, &pv) {
            return None;
        }
        let index = match parse_usize(&dv, pv.len()) {
            Some(i) => i,
            None => return None,
        };
        if index >= choices.len() {
            return None;
        }
        let text = choices[index].clone();
        let id = match update.str_at("/callback_query/id") {
            Some(id) => id,
            None => return None,
        };
        proof {
            assert(views(choices@)[index as int] == choices@[index as int]@);
        }
        return Some(IncomingAnswer::Choice { text, callback_query_id: owned(id) });
    }
    if same_i64(update.i64_at("/message/chat/id"), user_id) && same_i64(
        update.i64_at("/message/from/id"),
        user_id,
    ) {
        if let Some(t) = update.str_at("/message/text") {
            let text = trimmed(t);
            if chars_of(text.as_str()).len() > 0 {
                return Some(IncomingAnswer::Text(text));
            }
        }
    }
    None
}


/// `{"timeout": t, "limit": 100, "allowed_updates": ["message", "callback_query"]}`, with
/// `"offset"` when one is known.
pub open spec fn updates_body_spec(offset: Option<i64>, timeout_secs: u64) -> JsonModel {
    let kinds = JsonModel::Array(seq![JsonModel::Str("message"@), JsonModel::Str("callback_query"@)]);
    let base = seq![
        ("timeout"@, JsonModel::Number(NumberModel::PosInt(timeout_secs))),
        ("limit"@, JsonModel::Number(NumberModel::PosInt(UPDATE_BATCH as u64))),
        ("allowed_updates"@, kinds),
    ];
    match offset {
        Some(o) => JsonModel::Object(base.push(("offset"@, JsonModel::Number(if o >= 0 {
            NumberModel::PosInt(o as u64)
        } else {
            NumberModel::NegInt(o)
        })))),
        None => JsonModel::Object(base),
    }
}

/// The body of a `getUpdates` call.
pub fn updates_body(offset: Option<i64>, timeout_secs: u64) -> (j: Json)
    ensures
        j@ == updates_body_spec(offset, timeout_secs),
{
    let kinds = array2(Json::string("message"), Json::string("callback_query"));
    match offset {
        Some(o) => {
            let j = object4(
                "timeout",
                Json::unsigned(timeout_secs),
                "limit",
                Json::unsigned(UPDATE_BATCH as u64),
                "allowed_updates",
                kinds,
                "offset",
                Json::integer(o),
            );
            proof {
                let kinds_m = JsonModel::Array(seq![JsonModel::Str("message"@), JsonModel::Str("callback_query"@)]);
                let e1 = ("timeout"@, JsonModel::Number(NumberModel::PosInt(timeout_secs)));
                let e2 = ("limit"@, JsonModel::Number(NumberModel::PosInt(UPDATE_BATCH as u64)));
                let e3 = ("allowed_updates"@, kinds_m);
                let e4 = ("offset"@, JsonModel::Number(if o >= 0 {
                    NumberModel::PosInt(o as u64)
                } else {
                    NumberModel::NegInt(o)
                }));
                assert(seq![e1, e2, e3, e4] =~= seq![e1, e2, e3].push(e4));
            }
            j
        },
        None => object3(
            "timeout",
            Json::unsigned(timeout_secs),
            "limit",
            Json::unsigned(UPDATE_BATCH as u64),
            "allowed_updates",
            kinds,
        ),
    }
}

/// The button for choice `index`.
pub open spec fn button_spec(label: Seq<char>, request_id: Seq<char>, index: nat) -> JsonModel {
    JsonModel::Array(seq![JsonModel::Object(seq![
        ("text"@, JsonModel::Str(label)),
        ("callback_data"@, JsonModel::Str(callback_prefix(request_id) + decimal(index))),
    ])])
}

/// One row per choice, each with one button.
pub open spec fn keyboard_spec(choices: Seq<Seq<char>>, request_id: Seq<char>) -> JsonModel {
    JsonModel::Array(Seq::new(choices.len(), |i: int| button_spec(choices[i], request_id, i as nat)))
}

/// The `sendMessage` body that asks the question.
pub open spec fn question_body_spec(
    chat: Seq<char>,
    question: Seq<char>,
    choices: Seq<Seq<char>>,
    request_id: Seq<char>,
) -> JsonModel {
    JsonModel::Object(seq![
        ("chat_id"@, JsonModel::Str(chat)),
        ("text"@, JsonModel::Str(prompt_spec(question))),
        ("reply_markup"@, JsonModel::Object(seq![("inline_keyboard"@, keyboard_spec(choices, request_id))])),
    ])
}

/// The `sendMessage` body that asks the question with one button per choice.
pub fn question_body(chat: &str, question: &str, choices: &Vec<String>, request_id: &str) -> (j:
    Json)
    ensures
        j@ == question_body_spec(chat@, question@, views(choices@), request_id@),
{
    let prefix = join3("talbot:", request_id, ":");
    let mut rows: Vec<Json> = Vec::new();
    let mut i: usize = 0;
    while i < choices.len()
        invariant
            i <= choices@.len(),
            prefix@ == callback_prefix(request_id@),
            rows@.len() == i,
            forall|k: int|
                0 <= k < i ==> (#[trigger] rows@[k])@ == button_spec(
                    choices@[k]@,
                    request_id@,
                    k as nat,
                ),
        decreases choices@.len() - i,
    {
        let data = join2(prefix.as_str(), u64_text(i as u64).as_str());
        let button = object2("text", Json::string(choices[i].as_str()), "callback_data", Json::Str(data));
        let row = array1(button);
        rows.push(row);
        i += 1;
    }
    let ghost vs = views(choices@);
    assert(models_of(rows@) =~= Seq::new(vs.len(), |k: int| button_spec(vs[k], request_id@, k as nat)));
    let keyboard = array_of(rows);
    let markup = object1("inline_keyboard", keyboard);
    object3("chat_id", Json::string(chat), "text", Json::Str(prompt_text(question)), "reply_markup", markup)
}

/// The `getChat` body for the configured chat.
pub fn chat_body(chat: &str) -> (j: Json)
    ensures
        j@ == JsonModel::Object(seq![("chat_id"@, JsonModel::Str(chat@))]),
{
    object1("chat_id", Json::string(chat))
}

/// The `answerCallbackQuery` body that acknowledges a button press.
pub fn callback_answer_body(callback_query_id: &str) -> (j: Json)
    ensures
        j@ == JsonModel::Object(seq![
            ("callback_query_id"@, JsonModel::Str(callback_query_id@)),
            ("text"@, JsonModel::Str("Answer sent to Codex."@)),
        ]),
{
    object2("callback_query_id", Json::string(callback_query_id), "text", Json::string("Answer sent to Codex."))
}

/// The `editMessageText` body that replaces the question's text and removes its buttons.
pub open spec fn edit_body_spec(chat: Seq<char>, message_id: i64, text: Seq<char>) -> JsonModel {
    JsonModel::Object(seq![
        ("chat_id"@, JsonModel::Str(chat)),
        ("message_id"@, JsonModel::Number(if message_id >= 0 {
            NumberModel::PosInt(message_id as u64)
        } else {
            NumberModel::NegInt(message_id)
        })),
        ("text"@, JsonModel::Str(text)),
        ("reply_markup"@, JsonModel::Object(seq![("inline_keyboard"@, JsonModel::Array(Seq::empty()))])),
    ])
}

/// The `editMessageText` body that replaces the question's text and removes its buttons.
pub fn edit_body(chat: &str, message_id: i64, text: &str) -> (j: Json)
    ensures
        j@ == edit_body_spec(chat@, message_id, text@),
{
    let rows = array0();
    object4(
        "chat_id",
        Json::string(chat),
        "message_id",
        Json::integer(message_id),
        "text",
        Json::string(text),
        "reply_markup",
        object1("inline_keyboard", rows),
    )
}

/// The user of a private chat, or why there is none.
pub open spec fn private_user_spec(details: JsonModel) -> Result<i64, AskError> {
    if str_field(details, "type"@) != Some("private"@) {
        Err(AskError::NotPrivateChat)
    } else {
        match i64_field(details, "id"@) {
            Some(id) => Ok(id),
            None => Err(AskError::MissingChatId),
        }
    }
}

/// The id of the sent message, or why there is none.
pub open spec fn message_id_spec(sent: JsonModel) -> Result<i64, AskError> {
    match i64_field(sent, "message_id"@) {
        Some(id) => Ok(id),
        None => Err(AskError::MissingMessageId),
    }
}

/// The updates of a `getUpdates` result, which must be an array.
pub open spec fn updates_spec(result: JsonModel) -> Result<Seq<JsonModel>, AskError> {
    match result {
        JsonModel::Array(items) => Ok(items),
        _ => Err(AskError::UpdatesNotArray),
    }
}

/// The user of a private chat: `getChat` must report a private chat with a numeric id.
pub fn private_chat_user(details: &Json) -> (r: Result<i64, AskError>)
    ensures
        r == private_user_spec(details@),
        match r {
            Ok(id) => str_field(details@, "type"@) == Some("private"@) && i64_field(
                details@,
                "id"@,
            ) == Some(id),
            Err(e) => if str_field(details@, "type"@) != Some("private"@) {
                e == AskError::NotPrivateChat
            } else {
                e == AskError::MissingChatId && i64_field(details@, "id"@) is None
            },
        },
{
    let private = match details.get("type") {
        Some(t) => match t.as_str() {
            Some(t) => equals_str(&chars_of(t), "private"),
            None => false,
        },
        None => false,
    };
    if !private {
        return Err(AskError::NotPrivateChat);
    }
    match details.get("id") {
        Some(id) => match id.as_i64() {
            Some(id) => Ok(id),
            None => Err(AskError::MissingChatId),
        },
        None => Err(AskError::MissingChatId),
    }
}

/// The id of the message that asked the question.
pub fn sent_message_id(sent: &Json) -> (r: Result<i64, AskError>)
    ensures
        r == message_id_spec(sent@),
        match r {
            Ok(id) => i64_field(sent@, "message_id"@) == Some(id),
            Err(e) => i64_field(sent@, "message_id"@) is None && e == AskError::MissingMessageId,
        },
{
    match sent.get("message_id") {
        Some(id) => match id.as_i64() {
            Some(id) => Ok(id),
            None => Err(AskError::MissingMessageId),
        },
        None => Err(AskError::MissingMessageId),
    }
}

/// The updates of a `getUpdates` result, which must be an array.
pub fn updates_of(result: &Json) -> (r: Result<Vec<Json>, AskError>)
    ensures
        match r {
            Ok(v) => updates_spec(result@) == Ok::<Seq<JsonModel>, AskError>(models_of(v@)),
            Err(e) => updates_spec(result@) == Err::<Seq<JsonModel>, AskError>(e),
        },
        match r {
            Ok(v) => result@ == JsonModel::Array(models_of(v@)),
            Err(e) => !(result@ is Array) && e == AskError::UpdatesNotArray,
        },
{
    match result {
        Json::Array(_) => {
            let copy = result.duplicate();
            match copy {
                Json::Array(items) => Ok(items),
                _ => Err(AskError::UpdatesNotArray),
            }
        },
        _ => Err(AskError::UpdatesNotArray),
    }
}

/// The first answer in `updates[from..]`.
pub open spec fn first_answer(
    updates: Seq<JsonModel>,
    from: int,
    user_id: i64,
    request_id: Seq<char>,
    choices: Seq<Seq<char>>,
) -> Option<AnswerModel>
    decreases updates.len() - from,
{
    if from < 0 || from >= updates.len() {
        None
    } else {
        match answer_spec(updates[from], user_id, request_id, choices) {
            Some(a) => Some(a),
            None => first_answer(updates, from + 1, user_id, request_id, choices),
        }
    }
}

/// The first answer to this question among the updates.
pub fn first_answer_in(updates: &[Json], user_id: i64, request_id: &str, choices: &[String]) -> (r:
    Option<IncomingAnswer>)
    ensures
        match r {
            Some(a) => first_answer(models_of(updates@), 0, user_id, request_id@, views(choices@))
                == Some(answer_model(a)),
            None => first_answer(models_of(updates@), 0, user_id, request_id@, views(choices@)) is None,
        },
{
    let ghost ms = models_of(updates@);
    let mut i: usize = 0;
    while i < updates.len()
        invariant
            i <= updates@.len(),
            ms == models_of(updates@),
            first_answer(ms, 0, user_id, request_id@, views(choices@)) == first_answer(
                ms,
                i as int,
                user_id,
                request_id@,
                views(choices@),
            ),
        decreases updates@.len() - i,
    {
        let a = parse_answer(&updates[i], user_id, request_id, choices);
        if a.is_some() {
            return a;
        }
        i += 1;
    }
    None
}

/// A question waiting for its answer.
pub struct AskSession {
    /// The offset that skips every update read so far.
    pub offset: Option<i64>,
    /// The only user whose answers count.
    pub user_id: i64,
    /// The identifier in this question's button data.
    pub request_id: String,
    /// The button labels.
    pub choices: Vec<String>,
}

impl AskSession {
    /// Reads a batch of updates: moves the offset past them, and gives the first answer
    /// to this question among them.
    pub fn receive(&mut self, updates: &[Json]) -> (r: Option<IncomingAnswer>)
        requires
            max_update_id(models_of(updates@)) matches Some(m) ==> m < i64::MAX,
        ensures
            final(self).user_id == old(self).user_id,
            final(self).request_id@ == old(self).request_id@,
            views(final(self).choices@) == views(old(self).choices@),
            final(self).offset == match next_offset_spec(models_of(updates@)) {
                Some(o) => Some(o as i64),
                None => old(self).offset,
            },
            match r {
                Some(a) => first_answer(
                    models_of(updates@),
                    0,
                    old(self).user_id,
                    old(self).request_id@,
                    views(old(self).choices@),
                ) == Some(answer_model(a)),
                None => first_answer(
                    models_of(updates@),
                    0,
                    old(self).user_id,
                    old(self).request_id@,
                    views(old(self).choices@),
                ) is None,
            },
    {
        let answer = first_answer_in(updates, self.user_id, self.request_id.as_str(), self.choices.as_slice());
        if let Some(next) = next_offset(updates) {
            self.offset = Some(next);
        }
        answer
    }
}


/// The next offset is past every update that was read, so no update is seen twice.
pub proof fn next_offset_passes_every_update(updates: Seq<JsonModel>, i: int)
    requires
        0 <= i < updates.len(),
        i64_field(updates[i], "update_id"@) is Some,
    ensures
        next_offset_spec(updates) is Some,
        next_offset_spec(updates)->0 > i64_field(updates[i], "update_id"@)->0,
    decreases updates.len(),
{
    if i < updates.len() - 1 {
        next_offset_passes_every_update(updates.drop_last(), i);
        assert(updates.drop_last()[i] == updates[i]);
    }
}

/// Only the configured user, in the chat with that user, can answer: every answer read
/// from an update comes from `user_id` in the chat with `user_id`.
pub proof fn answers_come_from_the_user(
    update: JsonModel,
    user_id: i64,
    request_id: Seq<char>,
    choices: Seq<Seq<char>>,
)
    requires
        answer_spec(update, user_id, request_id, choices) is Some,
    ensures
        (i64_at(update, "/callback_query/message/chat/id"@) == Some(user_id) && i64_at(
            update,
            "/callback_query/from/id"@,
        ) == Some(user_id)) || (i64_at(update, "/message/chat/id"@) == Some(user_id) && i64_at(
            update,
            "/message/from/id"@,
        ) == Some(user_id)),
{
}

/// A button answer is always one of the question's own choices, and a text answer is
/// never blank.
pub proof fn answers_are_choices_or_text(
    update: JsonModel,
    user_id: i64,
    request_id: Seq<char>,
    choices: Seq<Seq<char>>,
)
    ensures
        answer_spec(update, user_id, request_id, choices) matches Some(AnswerModel::Choice(t, _))
            ==> exists|i: int| 0 <= i < choices.len() && choices[i] == t,
        answer_spec(update, user_id, request_id, choices) matches Some(AnswerModel::Text(t)) ==> t.len()
            > 0 && trim(t) == t,
{
    if i64_at(update, "/callback_query/message/chat/id"@) == Some(user_id) && i64_at(
        update,
        "/callback_query/from/id"@,
    ) == Some(user_id) {
        if let Some(data) = str_at(update, "/callback_query/data"@) {
            let prefix = callback_prefix(request_id);
            if starts_with(data, prefix) {
                crate::text::lemma_usize_value_nonneg(data.skip(prefix.len() as int));
                if let Some(i) = usize_value(data.skip(prefix.len() as int)) {
                    if i < choices.len() {
                        assert(choices[i] == choices[i]);
                    }
                }
            }
        }
    }
    if let Some(AnswerModel::Text(t)) = answer_spec(update, user_id, request_id, choices) {
        let raw = str_at(update, "/message/text"@)->0;
        crate::text::lemma_trim_idempotent(raw);
    }
}

/// A question's wait is bounded: any checked question waits between thirty seconds
/// and two hours, and the default wait is the longest.
pub proof fn checked_waits_are_bounded(question: Seq<char>, choices: Seq<Seq<char>>, timeout: u64)
    requires
        ask_error(question, choices, timeout) is None,
    ensures
        MIN_TIMEOUT_SECS <= timeout <= MAX_TIMEOUT_SECS,
        DEFAULT_TIMEOUT_SECS == MAX_TIMEOUT_SECS,
        2 <= choices.len() <= MAX_CHOICES,
{
}


/// The question as shown: under the action-needed marker and the conversation title
/// when a title is given, as it is otherwise.
pub open spec fn shown_question_spec(question: Seq<char>, title: Option<Seq<char>>) -> Seq<char> {
    match title {
        Some(t) => action_required_spec(t, question),
        None => question,
    }
}

/// The question as shown.
pub fn shown_question(question: &str, title: Option<&str>) -> (s: String)
    ensures
        s@ == shown_question_spec(question@, match title {
            Some(t) => Some(t@),
            None => None,
        }),
{
    match title {
        Some(t) => action_required_text_with_title(t, question),
        None => owned(question),
    }
}


/// What a question is edited to say when the client stopped waiting for it.
pub open spec fn withdrawn_spec(question: Seq<char>) -> Seq<char> {
    question + "\n\n⌛ Withdrawn — Codex stopped waiting. Ask again if you still want to answer."@
}

/// What a question is edited to say when the client stopped waiting for it.
pub fn withdrawn_text(question: &str) -> (s: String)
    ensures
        s@ == withdrawn_spec(question@),
{
    join2(question, "\n\n⌛ Withdrawn — Codex stopped waiting. Ask again if you still want to answer.")
}

/// The error reported when the client stopped waiting for a question.
pub const WITHDRAWN_ERROR: &'static str = "Telegram question was withdrawn because the request was cancelled; the buttons were removed";


/// A button of one question never answers another: when request ids hold no `:`, the
/// button data of question `other` does not begin with the prefix of a different
/// question `request_id`, so such a press is not read as an answer.
pub proof fn buttons_answer_only_their_question(request_id: Seq<char>, other: Seq<char>, index: nat)
    requires
        request_id != other,
        forall|i: int| 0 <= i < request_id.len() ==> request_id[i] != ':',
        forall|i: int| 0 <= i < other.len() ==> other[i] != ':',
    ensures
        !starts_with(callback_prefix(other) + decimal(index), callback_prefix(request_id)),
{
    reveal_strlit("talbot:");
    reveal_strlit(":");
    let data = callback_prefix(other) + decimal(index);
    let prefix = callback_prefix(request_id);
    crate::text::lemma_decimal_reads_back(index);
    if starts_with(data, prefix) {
        let n = request_id.len() as int;
        let m = other.len() as int;
        assert(data.subrange(0, prefix.len() as int)[7 + n] == prefix[7 + n]);
        assert(prefix[7 + n] == ':');
        if n < m {
            assert(data[7 + n] == other[n]);
        } else if n > m {
            assert(data[7 + m] == ':');
            assert(data.subrange(0, prefix.len() as int)[7 + m] == prefix[7 + m]);
            assert(prefix[7 + m] == request_id[m]);
        } else {
            assert forall|i: int| 0 <= i < n implies request_id[i] == other[i] by {
                assert(data.subrange(0, prefix.len() as int)[7 + i] == prefix[7 + i]);
                assert(prefix[7 + i] == request_id[i]);
                assert(data[7 + i] == other[i]);
            }
            assert(request_id =~= other);
        }
    }
}


/// The request ids this library makes hold no `:`, so the law above applies to them.
pub proof fn request_ids_hold_no_colon(process_id: u32, nanos: u128)
    ensures
        forall|i: int|
            0 <= i < (hex(process_id as nat) + hex(nanos as nat)).len() ==> (hex(process_id as nat)
                + hex(nanos as nat))[i] != ':',
{
    crate::text::lemma_hex_digits(process_id as nat);
    crate::text::lemma_hex_digits(nanos as nat);
    let a = hex(process_id as nat);
    let b = hex(nanos as nat);
    assert forall|i: int| 0 <= i < (a + b).len() implies (a + b)[i] != ':' by {
        if i < a.len() {
            assert((a + b)[i] == a[i]);
        } else {
            assert((a + b)[i] == b[i - a.len()]);
        }
    }
}


/// Where a question stands.
#[derive(Debug, PartialEq, Eq, Clone, Copy, Structural)]
pub enum AskPhase {
    /// `getChat` was called to check that the chat is private.
    CheckingChat,
    /// The lock that lets one question wait at a time is being taken.
    Locking,
    /// `getUpdates` was called to skip updates that came before the question.
    SkippingPending,
    /// `sendMessage` was called with the question.
    Sending,
    /// Waiting for the time left before the next poll.
    Waiting,
    /// `getUpdates` was called to look for an answer.
    Polling,
    /// The question is being edited to say it expired.
    Expiring,
    /// The question is being edited to say it was withdrawn.
    Withdrawing,
    /// The button press is being acknowledged.
    Acknowledging,
    /// The question is being edited to show the answer.
    Marking,
    /// Finished.
    Done,
}

/// What happened since the last step.
#[derive(Debug)]
pub enum AskEvent {
    /// The reply to the call asked for: its result, or the error it failed with.
    Replied(Result<Json, String>),
    /// The lock was taken.
    Locked,
    /// The time left before the deadline, and whether the client stopped waiting.
    Tick { remaining_secs: u64, remaining_nanos: u32, cancelled: bool },
}

/// What to do next.
#[derive(Debug)]
pub enum AskAction {
    /// Call a Bot API method with this body, and report its reply.
    Call { method: String, body: Json },
    /// Take the lock, and report when it is held.
    Lock,
    /// Report the time left (the wait starts with the first report).
    Tick,
    /// Stop with the answer, or with the error to report.
    Finish(Result<String, String>),
}

/// A question being asked, step by step.
pub struct Asker {
    pub phase: AskPhase,
    /// The chat the question goes to.
    pub chat: String,
    /// The question as shown.
    pub question: String,
    pub timeout_secs: u64,
    /// How many batches of stale updates were skipped.
    pub round: u32,
    /// The message that asked the question, once sent.
    pub message_id: i64,
    pub session: AskSession,
    /// The answer, once read.
    pub answer: String,
}

/// The model of a question being asked.
pub struct AskerModel {
    pub phase: AskPhase,
    pub chat: Seq<char>,
    pub question: Seq<char>,
    pub timeout_secs: u64,
    pub round: u32,
    pub message_id: i64,
    pub offset: Option<i64>,
    pub user_id: i64,
    pub request_id: Seq<char>,
    pub choices: Seq<Seq<char>>,
    pub answer: Seq<char>,
}

/// The model of an event.
pub enum EventModel {
    Replied(Result<JsonModel, Seq<char>>),
    Locked,
    Tick(u64, u32, bool),
}

/// The model of an action.
pub enum ActionModel {
    Call(Seq<char>, JsonModel),
    Lock,
    Tick,
    Finish(Result<Seq<char>, Seq<char>>),
}

impl View for Asker {
    type V = AskerModel;

    open spec fn view(&self) -> AskerModel {
        AskerModel {
            phase: self.phase,
            chat: self.chat@,
            question: self.question@,
            timeout_secs: self.timeout_secs,
            round: self.round,
            message_id: self.message_id,
            offset: self.session.offset,
            user_id: self.session.user_id,
            request_id: self.session.request_id@,
            choices: views(self.session.choices@),
            answer: self.answer@,
        }
    }
}

/// The model of an event value.
pub open spec fn event_model(e: AskEvent) -> EventModel {
    match e {
        AskEvent::Replied(Ok(j)) => EventModel::Replied(Ok(j@)),
        AskEvent::Replied(Err(t)) => EventModel::Replied(Err(t@)),
        AskEvent::Locked => EventModel::Locked,
        AskEvent::Tick { remaining_secs, remaining_nanos, cancelled } => EventModel::Tick(
            remaining_secs,
            remaining_nanos,
            cancelled,
        ),
    }
}

/// The model of an action value.
pub open spec fn action_model(a: AskAction) -> ActionModel {
    match a {
        AskAction::Call { method, body } => ActionModel::Call(method@, body@),
        AskAction::Lock => ActionModel::Lock,
        AskAction::Tick => ActionModel::Tick,
        AskAction::Finish(Ok(t)) => ActionModel::Finish(Ok(t@)),
        AskAction::Finish(Err(t)) => ActionModel::Finish(Err(t@)),
    }
}

/// The error reported when events come in an order the question does not expect.
pub const OUT_OF_ORDER: &'static str = "the Telegram question received an event it was not waiting for";

/// Stop with an error.
pub open spec fn fail(m: AskerModel, error: Seq<char>) -> (AskerModel, ActionModel) {
    (AskerModel { phase: AskPhase::Done, ..m }, ActionModel::Finish(Err(error)))
}

/// The model of an offset value.
pub open spec fn offset_model(o: Option<int>) -> Option<i64> {
    match o {
        Some(v) => Some(v as i64),
        None => None,
    }
}

/// The body of the edit that shows the answer.
pub open spec fn mark_call(m: AskerModel) -> ActionModel {
    ActionModel::Call(
        "editMessageText"@,
        edit_body_spec(m.chat, m.message_id, answered_spec(m.question, m.answer)),
    )
}

/// One step of asking: what the question does with an event, and what it asks for next.
pub open spec fn step_spec(m: AskerModel, e: EventModel) -> (AskerModel, ActionModel) {
    match (m.phase, e) {
        (AskPhase::CheckingChat, EventModel::Replied(Ok(details))) => match private_user_spec(details) {
            Err(err) => fail(m, ask_error_text(err)),
            Ok(user) => (AskerModel { phase: AskPhase::Locking, user_id: user, ..m }, ActionModel::Lock),
        },
        (AskPhase::Locking, EventModel::Locked) => (
            AskerModel { phase: AskPhase::SkippingPending, round: 0, offset: None, ..m },
            ActionModel::Call("getUpdates"@, updates_body_spec(None, 0)),
        ),
        (AskPhase::SkippingPending, EventModel::Replied(Ok(result))) => match updates_spec(result) {
            Err(err) => fail(m, ask_error_text(err)),
            Ok(updates) => match pending_spec(m.offset, updates, m.round) {
                Err(err) => fail(m, ask_error_text(err)),
                Ok(PendingStep::Done(o)) => (
                    AskerModel { phase: AskPhase::Sending, offset: o, ..m },
                    ActionModel::Call(
                        "sendMessage"@,
                        question_body_spec(m.chat, m.question, m.choices, m.request_id),
                    ),
                ),
                Ok(PendingStep::More(o)) => (
                    AskerModel { offset: o, round: (m.round + 1) as u32, ..m },
                    ActionModel::Call("getUpdates"@, updates_body_spec(o, 0)),
                ),
            },
        },
        (AskPhase::Sending, EventModel::Replied(Ok(sent))) => match message_id_spec(sent) {
            Err(err) => fail(m, ask_error_text(err)),
            Ok(id) => (AskerModel { phase: AskPhase::Waiting, message_id: id, ..m }, ActionModel::Tick),
        },
        (AskPhase::Waiting, EventModel::Tick(secs, nanos, cancelled)) => if cancelled {
            (
                AskerModel { phase: AskPhase::Withdrawing, ..m },
                ActionModel::Call(
                    "editMessageText"@,
                    edit_body_spec(m.chat, m.message_id, withdrawn_spec(m.question)),
                ),
            )
        } else {
            match poll_spec(secs, nanos) {
                PollStep::Expire => (
                    AskerModel { phase: AskPhase::Expiring, ..m },
                    ActionModel::Call(
                        "editMessageText"@,
                        edit_body_spec(
                            m.chat,
                            m.message_id,
                            expired_spec(m.question, wait_spec(m.timeout_secs as nat)),
                        ),
                    ),
                ),
                PollStep::Poll(wait) => (
                    AskerModel { phase: AskPhase::Polling, ..m },
                    ActionModel::Call("getUpdates"@, updates_body_spec(m.offset, wait)),
                ),
            }
        },
        (AskPhase::Polling, EventModel::Replied(Ok(result))) => match updates_spec(result) {
            Err(err) => fail(m, ask_error_text(err)),
            Ok(updates) => {
                let offset = match next_offset_spec(updates) {
                    Some(o) => Some(o as i64),
                    None => m.offset,
                };
                match first_answer(updates, 0, m.user_id, m.request_id, m.choices) {
                    None => (AskerModel { phase: AskPhase::Waiting, offset, ..m }, ActionModel::Tick),
                    Some(AnswerModel::Choice(text, id)) => (
                        AskerModel { phase: AskPhase::Acknowledging, offset, answer: text, ..m },
                        ActionModel::Call(
                            "answerCallbackQuery"@,
                            JsonModel::Object(seq![
                                ("callback_query_id"@, JsonModel::Str(id)),
                                ("text"@, JsonModel::Str("Answer sent to Codex."@)),
                            ]),
                        ),
                    ),
                    Some(AnswerModel::Text(text)) => {
                        let next = AskerModel { phase: AskPhase::Marking, offset, answer: text, ..m };
                        (next, mark_call(next))
                    },
                }
            },
        },
        (AskPhase::Acknowledging, EventModel::Replied(_)) => {
            let next = AskerModel { phase: AskPhase::Marking, ..m };
            (next, mark_call(next))
        },
        (AskPhase::Marking, EventModel::Replied(_)) => (
            AskerModel { phase: AskPhase::Done, ..m },
            ActionModel::Finish(Ok(m.answer)),
        ),
        (AskPhase::Expiring, EventModel::Replied(Ok(_))) => fail(
            m,
            expiry_error_spec(wait_spec(m.timeout_secs as nat)),
        ),
        (AskPhase::Withdrawing, EventModel::Replied(_)) => fail(m, WITHDRAWN_ERROR@),
        (_, EventModel::Replied(Err(err))) => fail(m, err),
        _ => fail(m, OUT_OF_ORDER@),
    }
}

/// No update in a `getUpdates` reply has the highest `update_id`, so the next offset fits.
pub open spec fn offsets_fit(e: EventModel) -> bool {
    match e {
        EventModel::Replied(Ok(JsonModel::Array(items))) => max_update_id(items) matches Some(
            mx,
        ) ==> mx < i64::MAX,
        _ => true,
    }
}

impl Asker {
    /// Checks the question and starts asking it in `chat`; the first step checks that
    /// the chat is private.  A title puts the question under the action-needed marker.
    pub fn start(
        question: &str,
        choices: &Vec<String>,
        timeout_secs: u64,
        title: Option<&str>,
        chat: &str,
        request_id: &str,
    ) -> (r: Result<(Asker, AskAction), AskError>)
        ensures
            ask_error(question@, views(choices@), timeout_secs) is None <==> r is Ok,
            r matches Err(e) ==> ask_error(question@, views(choices@), timeout_secs) == Some(e),
            r matches Ok((a, act)) ==> {
                &&& a@.phase == AskPhase::CheckingChat
                &&& a@.chat == chat@
                &&& a@.question == shown_question_spec(trim(question@), match title {
                    Some(t) => Some(t@),
                    None => None,
                })
                &&& a@.timeout_secs == timeout_secs
                &&& a@.round == 0
                &&& a@.offset is None
                &&& a@.request_id == request_id@
                &&& a@.choices.len() == choices@.len()
                &&& forall|i: int| 0 <= i < choices@.len() ==> #[trigger] a@.choices[i] == trim(choices@[i]@)
                &&& action_model(act) == ActionModel::Call(
                    "getChat"@,
                    JsonModel::Object(seq![("chat_id"@, JsonModel::Str(chat@))]),
                )
            },
    {
        let checked = check_question(question, choices, timeout_secs)?;
        let shown = shown_question(checked.question.as_str(), title);
        let asker = Asker {
            phase: AskPhase::CheckingChat,
            chat: owned(chat),
            question: shown,
            timeout_secs,
            round: 0,
            message_id: 0,
            session: AskSession {
                offset: None,
                user_id: 0,
                request_id: owned(request_id),
                choices: checked.choices,
            },
            answer: String::new(),
        };
        let action = AskAction::Call { method: owned("getChat"), body: chat_body(chat) };
        Ok((asker, action))
    }

    fn finish_with(&mut self, error: String) -> (a: AskAction)
        ensures
            (final(self)@, action_model(a)) == fail(old(self)@, error@),
    {
        self.phase = AskPhase::Done;
        AskAction::Finish(Err(error))
    }

    fn mark(&mut self) -> (a: AskAction)
        ensures
            final(self)@ == (AskerModel { phase: AskPhase::Marking, ..old(self)@ }),
            action_model(a) == mark_call(final(self)@),
    {
        self.phase = AskPhase::Marking;
        let text = answered_text(self.question.as_str(), self.answer.as_str());
        AskAction::Call {
            method: owned("editMessageText"),
            body: edit_body(self.chat.as_str(), self.message_id, text.as_str()),
        }
    }

    /// Takes one event and gives the next action.
    pub fn step(&mut self, event: AskEvent) -> (a: AskAction)
        requires
            offsets_fit(event_model(event)),
        ensures
            (final(self)@, action_model(a)) == step_spec(old(self)@, event_model(event)),
    {
        match (self.phase, event) {
            (AskPhase::CheckingChat, AskEvent::Replied(Ok(details))) => {
                match private_chat_user(&details) {
                    Err(e) => self.finish_with(e.message()),
                    Ok(user) => {
                        self.session.user_id = user;
                        self.phase = AskPhase::Locking;
                        AskAction::Lock
                    },
                }
            },
            (AskPhase::Locking, AskEvent::Locked) => {
                self.phase = AskPhase::SkippingPending;
                self.round = 0;
                self.session.offset = None;
                AskAction::Call { method: owned("getUpdates"), body: updates_body(None, 0) }
            },
            (AskPhase::SkippingPending, AskEvent::Replied(Ok(result))) => {
                match updates_of(&result) {
                    Err(e) => self.finish_with(e.message()),
                    Ok(updates) => match pending_after(self.session.offset, updates.as_slice(), self.round) {
                        Err(e) => self.finish_with(e.message()),
                        Ok(PendingStep::Done(o)) => {
                            self.session.offset = o;
                            self.phase = AskPhase::Sending;
                            let body = question_body(
                                self.chat.as_str(),
                                self.question.as_str(),
                                &self.session.choices,
                                self.session.request_id.as_str(),
                            );
                            AskAction::Call { method: owned("sendMessage"), body }
                        },
                        Ok(PendingStep::More(o)) => {
                            self.session.offset = o;
                            self.round = self.round + 1;
                            AskAction::Call { method: owned("getUpdates"), body: updates_body(o, 0) }
                        },
                    },
                }
            },
            (AskPhase::Sending, AskEvent::Replied(Ok(sent))) => match sent_message_id(&sent) {
                Err(e) => self.finish_with(e.message()),
                Ok(id) => {
                    self.message_id = id;
                    self.phase = AskPhase::Waiting;
                    AskAction::Tick
                },
            },
            (AskPhase::Waiting, AskEvent::Tick { remaining_secs, remaining_nanos, cancelled }) => {
                if cancelled {
                    self.phase = AskPhase::Withdrawing;
                    let text = withdrawn_text(self.question.as_str());
                    AskAction::Call {
                        method: owned("editMessageText"),
                        body: edit_body(self.chat.as_str(), self.message_id, text.as_str()),
                    }
                } else {
                    match poll_step(remaining_secs, remaining_nanos) {
                        PollStep::Expire => {
                            self.phase = AskPhase::Expiring;
                            let wait = wait_label(self.timeout_secs);
                            let text = expired_text(self.question.as_str(), wait.as_str());
                            AskAction::Call {
                                method: owned("editMessageText"),
                                body: edit_body(self.chat.as_str(), self.message_id, text.as_str()),
                            }
                        },
                        PollStep::Poll(wait) => {
                            self.phase = AskPhase::Polling;
                            AskAction::Call {
                                method: owned("getUpdates"),
                                body: updates_body(self.session.offset, wait),
                            }
                        },
                    }
                }
            },
            (AskPhase::Polling, AskEvent::Replied(Ok(result))) => match updates_of(&result) {
                Err(e) => self.finish_with(e.message()),
                Ok(updates) => {
                    let answer = self.session.receive(updates.as_slice());
                    match answer {
                        None => {
                            self.phase = AskPhase::Waiting;
                            AskAction::Tick
                        },
                        Some(IncomingAnswer::Choice { text, callback_query_id }) => {
                            self.answer = text;
                            self.phase = AskPhase::Acknowledging;
                            AskAction::Call {
                                method: owned("answerCallbackQuery"),
                                body: callback_answer_body(callback_query_id.as_str()),
                            }
                        },
                        Some(IncomingAnswer::Text(text)) => {
                            self.answer = text;
                            self.mark()
                        },
                    }
                },
            },
            (AskPhase::Acknowledging, AskEvent::Replied(_)) => self.mark(),
            (AskPhase::Marking, AskEvent::Replied(_)) => {
                self.phase = AskPhase::Done;
                AskAction::Finish(Ok(self.answer.clone()))
            },
            (AskPhase::Expiring, AskEvent::Replied(Ok(_))) => {
                let wait = wait_label(self.timeout_secs);
                self.finish_with(expiry_error(wait.as_str()))
            },
            (AskPhase::Withdrawing, AskEvent::Replied(_)) => self.finish_with(owned(WITHDRAWN_ERROR)),
            (_, AskEvent::Replied(Err(e))) => self.finish_with(e),
            _ => self.finish_with(owned(OUT_OF_ORDER)),
        }
    }
}


/// How far along a question is: no step goes back.
pub open spec fn phase_rank(p: AskPhase) -> nat {
    match p {
        AskPhase::CheckingChat => 0,
        AskPhase::Locking => 1,
        AskPhase::SkippingPending => 2,
        AskPhase::Sending => 3,
        AskPhase::Waiting => 4,
        AskPhase::Polling => 4,
        AskPhase::Expiring => 5,
        AskPhase::Withdrawing => 5,
        AskPhase::Acknowledging => 5,
        AskPhase::Marking => 6,
        AskPhase::Done => 7,
    }
}

/// The actions a question asks for, one per event, from the given state on.
pub open spec fn actions_of(m: AskerModel, events: Seq<EventModel>) -> Seq<ActionModel>
    decreases events.len(),
{
    if events.len() == 0 {
        Seq::empty()
    } else {
        let (next, action) = step_spec(m, events[0]);
        seq![action] + actions_of(next, events.drop_first())
    }
}

/// Whether an action sends the question.
pub open spec fn is_send(a: ActionModel) -> bool {
    a matches ActionModel::Call(method, _) && method == "sendMessage"@
}

/// How many of the actions send the question.
pub open spec fn sends(actions: Seq<ActionModel>) -> nat
    decreases actions.len(),
{
    if actions.len() == 0 {
        0
    } else {
        (if is_send(actions[0]) { 1nat } else { 0nat }) + sends(actions.drop_first())
    }
}

/// No step takes a question back to an earlier phase, and the question is sent only by
/// the step that leaves the skipping of stale updates, with the question's own body.
pub proof fn steps_only_move_forward(m: AskerModel, e: EventModel)
    ensures
        phase_rank(m.phase) <= phase_rank(step_spec(m, e).0.phase),
        is_send(step_spec(m, e).1) ==> {
            &&& m.phase == AskPhase::SkippingPending
            &&& step_spec(m, e).0.phase == AskPhase::Sending
            &&& step_spec(m, e).1 == ActionModel::Call(
                "sendMessage"@,
                question_body_spec(m.chat, m.question, m.choices, m.request_id),
            )
        },
        m.phase == AskPhase::Done ==> step_spec(m, e).1 is Finish,
{
    reveal_strlit("sendMessage");
    reveal_strlit("getUpdates");
    reveal_strlit("editMessageText");
    reveal_strlit("answerCallbackQuery");
    assert("getUpdates"@ != "sendMessage"@) by {
        assert("getUpdates"@[0] != "sendMessage"@[0]);
    }
    assert("editMessageText"@ != "sendMessage"@) by {
        assert("editMessageText"@[0] != "sendMessage"@[0]);
    }
    assert("answerCallbackQuery"@ != "sendMessage"@) by {
        assert("answerCallbackQuery"@[0] != "sendMessage"@[0]);
    }
}

/// A question is sent at most once, and only after the chat was found to be private:
/// from any state, the actions that follow send it at most once, and not at all once it
/// was sent; from the start, it is sent only when the first event is a `getChat` reply
/// that describes a private chat.
pub proof fn the_question_is_sent_at_most_once(m: AskerModel, events: Seq<EventModel>)
    ensures
        sends(actions_of(m, events)) <= (if phase_rank(m.phase) <= 2 { 1nat } else { 0nat }),
        m.phase == AskPhase::CheckingChat && sends(actions_of(m, events)) > 0 ==> (
            events[0] matches EventModel::Replied(Ok(details)) && private_user_spec(details) is Ok),
    decreases events.len(),
{
    if events.len() > 0 {
        let (next, action) = step_spec(m, events[0]);
        steps_only_move_forward(m, events[0]);
        the_question_is_sent_at_most_once(next, events.drop_first());
        assert(actions_of(m, events) == seq![action] + actions_of(next, events.drop_first()));
        let rest = actions_of(next, events.drop_first());
        assert((seq![action] + rest).drop_first() =~= rest);
        assert(sends(seq![action] + rest) == (if is_send(action) { 1nat } else { 0nat }) + sends(rest));
        if m.phase == AskPhase::CheckingChat && sends(actions_of(m, events)) > 0 {
            assert(phase_rank(next.phase) <= 2);
            if !(events[0] matches EventModel::Replied(Ok(details)) && private_user_spec(details) is Ok) {
                assert(next.phase == AskPhase::Done);
                assert(false);
            }
        }
    }
}

/// A question that is not a private chat's is refused before anything else: the
/// `getChat` reply of any other chat ends the question with the error, and a private
/// chat's moves on to taking the lock.
pub proof fn only_private_chats_are_asked(m: AskerModel, details: JsonModel)
    requires
        m.phase == AskPhase::CheckingChat,
    ensures
        private_user_spec(details) matches Err(err) ==> step_spec(m, EventModel::Replied(Ok(details)))
            == (AskerModel { phase: AskPhase::Done, ..m }, ActionModel::Finish(Err(ask_error_text(err)))),
        private_user_spec(details) matches Ok(user) ==> step_spec(m, EventModel::Replied(Ok(details)))
            == (AskerModel { phase: AskPhase::Locking, user_id: user, ..m }, ActionModel::Lock),
        str_field(details, "type"@) != Some("private"@) ==> step_spec(m, EventModel::Replied(Ok(details))).1
            == ActionModel::Finish(Err(ask_error_text(AskError::NotPrivateChat))),
{
}

/// When the wait is over, the question is edited to say that it expired, with its
/// buttons removed, and once that edit is done the question fails with the expiry error.
pub proof fn expiry_removes_the_buttons_then_fails(
    m: AskerModel,
    remaining_secs: u64,
    remaining_nanos: u32,
    reply: JsonModel,
)
    requires
        m.phase == AskPhase::Waiting,
        remaining_secs == 0,
        remaining_nanos == 0,
    ensures
        ({
            let (next, action) = step_spec(m, EventModel::Tick(remaining_secs, remaining_nanos, false));
            &&& next == (AskerModel { phase: AskPhase::Expiring, ..m })
            &&& action == ActionModel::Call(
                "editMessageText"@,
                edit_body_spec(m.chat, m.message_id, expired_spec(m.question, wait_spec(m.timeout_secs as nat))),
            )
            &&& step_spec(next, EventModel::Replied(Ok(reply))) == (
                AskerModel { phase: AskPhase::Done, ..next },
                ActionModel::Finish(Err(expiry_error_spec(wait_spec(m.timeout_secs as nat)))),
            )
        }),
{
}

/// An answer read while polling is returned, once its button press, if any, was
/// acknowledged and the question was edited to show it.
pub proof fn answers_are_marked_then_returned(
    m: AskerModel,
    updates: Seq<JsonModel>,
    first: Result<JsonModel, Seq<char>>,
    second: Result<JsonModel, Seq<char>>,
)
    requires
        m.phase == AskPhase::Polling,
        first_answer(updates, 0, m.user_id, m.request_id, m.choices) is Some,
    ensures
        ({
            let answer = first_answer(updates, 0, m.user_id, m.request_id, m.choices).unwrap();
            let (s1, a1) = step_spec(m, EventModel::Replied(Ok(JsonModel::Array(updates))));
            let (s2, a2) = step_spec(s1, EventModel::Replied(first));
            let (s3, a3) = step_spec(s2, EventModel::Replied(second));
            &&& s1.answer == answer_text_spec(answer)
            &&& match answer {
                AnswerModel::Choice(_, id) => {
                    &&& a1 == ActionModel::Call(
                        "answerCallbackQuery"@,
                        JsonModel::Object(seq![
                            ("callback_query_id"@, JsonModel::Str(id)),
                            ("text"@, JsonModel::Str("Answer sent to Codex."@)),
                        ]),
                    )
                    &&& a2 == mark_call(s2)
                    &&& s2.answer == answer_text_spec(answer)
                    &&& a3 == ActionModel::Finish(Ok(answer_text_spec(answer)))
                    &&& s3.phase == AskPhase::Done
                },
                AnswerModel::Text(_) => {
                    &&& a1 == mark_call(s1)
                    &&& a2 == ActionModel::Finish(Ok(answer_text_spec(answer)))
                    &&& s2.phase == AskPhase::Done
                },
            }
        }),
{
}

/// A question whose client stopped waiting is edited to say it was withdrawn, with its
/// buttons removed, and then ends with the withdrawal error.
pub proof fn cancelled_questions_are_withdrawn(
    m: AskerModel,
    remaining_secs: u64,
    remaining_nanos: u32,
    reply: Result<JsonModel, Seq<char>>,
)
    requires
        m.phase == AskPhase::Waiting,
    ensures
        ({
            let (next, action) = step_spec(m, EventModel::Tick(remaining_secs, remaining_nanos, true));
            &&& next == (AskerModel { phase: AskPhase::Withdrawing, ..m })
            &&& action == ActionModel::Call(
                "editMessageText"@,
                edit_body_spec(m.chat, m.message_id, withdrawn_spec(m.question)),
            )
            &&& step_spec(next, EventModel::Replied(reply)) == (
                AskerModel { phase: AskPhase::Done, ..next },
                ActionModel::Finish(Err(WITHDRAWN_ERROR@)),
            )
        }),
{
}

/// While a question waits, each poll asks Telegram only for updates after the ones
/// already skipped or read: the `getUpdates` call carries the session's offset as its
/// `offset` (none before any update was seen), and waits the whole seconds left, between
/// one and the poll limit.
pub proof fn polls_resume_after_what_was_read(m: AskerModel, secs: u64, nanos: u32)
    requires
        m.phase == AskPhase::Waiting,
        secs > 0 || nanos > 0,
    ensures
        ({
            let a = step_spec(m, EventModel::Tick(secs, nanos, false)).1;
            &&& a is Call
            &&& a->Call_0 == "getUpdates"@
            &&& field(a->Call_1, "offset"@) == match m.offset {
                Some(o) => Some(JsonModel::Number(if o >= 0 {
                    NumberModel::PosInt(o as u64)
                } else {
                    NumberModel::NegInt(o)
                })),
                None => None,
            }
            &&& field(a->Call_1, "timeout"@) == Some(JsonModel::Number(NumberModel::PosInt(
                if secs > 25 { 25 } else if secs < 1 { 1 } else { secs },
            )))
        }),
{
    reveal_strlit("offset");
    reveal_strlit("timeout");
    reveal_strlit("limit");
    reveal_strlit("allowed_updates");
    let a = step_spec(m, EventModel::Tick(secs, nanos, false)).1;
    let w: u64 = if secs > 25 { 25 } else if secs < 1 { 1 } else { secs };
    assert(poll_spec(secs, nanos) == PollStep::Poll(w));
    assert(a == ActionModel::Call("getUpdates"@, updates_body_spec(m.offset, w)));
    assert("timeout"@ != "offset"@) by { assert("timeout"@[0] != "offset"@[0]); }
    assert("limit"@ != "offset"@) by { assert("limit"@[0] != "offset"@[0]); }
    assert("allowed_updates"@ != "offset"@) by { assert("allowed_updates"@[0] != "offset"@[0]); }
    let body = a->Call_1;
    if let JsonModel::Object(entries) = body {
        assert(entries[0].0 == "timeout"@);
        assert(entry_from(entries, "timeout"@, 0) == 0);
        assert(entry_from(entries, "offset"@, 3) == (if m.offset is Some { 3int } else { -1int }));
        assert(entry_from(entries, "offset"@, 2) == entry_from(entries, "offset"@, 3));
        assert(entry_from(entries, "offset"@, 1) == entry_from(entries, "offset"@, 2));
        assert(entry_from(entries, "offset"@, 0) == entry_from(entries, "offset"@, 1));
    }
}

/// A poll that reads updates moves the session's offset past every one of them, so no
/// update read is fetched again.
pub proof fn polls_move_past_what_they_read(m: AskerModel, updates: Seq<JsonModel>, i: int)
    requires
        m.phase == AskPhase::Polling,
        0 <= i < updates.len(),
        i64_field(updates[i], "update_id"@) is Some,
        offsets_fit(EventModel::Replied(Ok(JsonModel::Array(updates)))),
    ensures
        ({
            let next = step_spec(m, EventModel::Replied(Ok(JsonModel::Array(updates)))).0;
            &&& next.offset is Some
            &&& next.offset->0 > i64_field(updates[i], "update_id"@)->0
        }),
{
    next_offset_passes_every_update(updates, i);
    let x = i64_field(updates[i], "update_id"@)->0;
    assert(max_update_id(updates) is Some);
    assert(next_offset_spec(updates)->0 <= i64::MAX);
}

/// Updates that came before the question are skipped: a batch of stale updates moves
/// the session's offset past every one of them, a short batch ends the skipping and
/// sends the question, and an empty batch sends it with the offset unchanged.
pub proof fn stale_updates_are_skipped(m: AskerModel, updates: Seq<JsonModel>, i: int)
    requires
        m.phase == AskPhase::SkippingPending,
        offsets_fit(EventModel::Replied(Ok(JsonModel::Array(updates)))),
        updates.len() >= UPDATE_BATCH ==> m.round + 1 < MAX_PENDING_BATCHES,
    ensures
        ({
            let (next, action) = step_spec(m, EventModel::Replied(Ok(JsonModel::Array(updates))));
            &&& (0 <= i < updates.len() && i64_field(updates[i], "update_id"@) is Some) ==> (
                next.offset is Some && next.offset->0 > i64_field(updates[i], "update_id"@)->0)
            &&& updates.len() < UPDATE_BATCH ==> next.phase == AskPhase::Sending && action is Call
                && action->Call_0 == "sendMessage"@
            &&& updates.len() == 0 ==> next.offset == m.offset
            &&& updates.len() >= UPDATE_BATCH ==> next.phase == AskPhase::SkippingPending
        }),
{
    if 0 <= i < updates.len() && i64_field(updates[i], "update_id"@) is Some {
        next_offset_passes_every_update(updates, i);
        assert(max_update_id(updates) is Some);
    }
}

} // verus!
