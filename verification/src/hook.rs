//! The Codex `PermissionRequest` hook: the Telegram question it asks and the
//! decision it hands back.
use vstd::prelude::*;

use crate::json::{
    parse_json, parsed_json, pretty_json, pretty_text,
    entry_models_of, field, models_of, object1, object2, str_field, Json, JsonModel,
};
use crate::text::{
    clone_chars, slice_chars,
    chars_of, contains, contains_str, ends_with, equals_str, join2, join3, lower, lower_exec, owned,
    replace_chars, replace_where, starts_with, starts_with_exec, string_of, string_of_range,
};

verus! {

/// The button that approves the request.
pub const ALLOW_LABEL: &'static str = "Allow once";

/// The button that refuses the request.
pub const DENY_LABEL: &'static str = "Don't allow";

/// The longest question sent to Telegram, in characters.
pub const MAX_QUESTION_CHARS: usize = 3000;

/// What stands in place of text that may hold a secret.
pub const HIDDEN_INPUT: &'static str = "[Hidden because this may contain a password or other private information]";

/// What stands in place of the value of a sensitive argument.
pub const HIDDEN_VALUE: &'static str = "[HIDDEN]";

/// The marker appended to cut text.
pub const TRUNCATED_SUFFIX: &'static str = "\n… [truncated]";

/// A key is lower-cased and `-` and `.` become `_` before it is matched.
pub open spec fn normalized_key(key: Seq<char>) -> Seq<char> {
    replace_where(lower(key), |c: char| c == '-' || c == '.', '_')
}

/// An argument name that names a secret.
pub open spec fn key_is_sensitive(key: Seq<char>) -> bool {
    let n = normalized_key(key);
    ||| contains(n, "secret"@)
    ||| contains(n, "token"@)
    ||| contains(n, "password"@)
    ||| contains(n, "passwd"@)
    ||| contains(n, "cookie"@)
    ||| contains(n, "authorization"@)
    ||| contains(n, "api_key"@)
    ||| contains(n, "private_key"@)
    ||| contains(n, "credential"@)
}

/// Text that mentions a secret or looks like a credential.
pub open spec fn text_looks_sensitive(text: Seq<char>) -> bool {
    let n = lower(text);
    ||| contains(n, "secret"@)
    ||| contains(n, "token"@)
    ||| contains(n, "password"@)
    ||| contains(n, "passwd"@)
    ||| contains(n, "cookie"@)
    ||| contains(n, "authorization"@)
    ||| contains(n, "api_key"@)
    ||| contains(n, "api-key"@)
    ||| contains(n, "apikey"@)
    ||| contains(n, "private_key"@)
    ||| contains(n, "private-key"@)
    ||| contains(n, "credential"@)
    ||| contains(n, "bearer "@)
    ||| contains(n, "ghp_"@)
    ||| contains(n, "github_pat_"@)
    ||| contains(n, "sk-"@)
    ||| contains(n, "xoxb-"@)
    ||| contains(n, "akia"@)
}

/// The text, or the hidden-input notice when it looks sensitive.
pub open spec fn safe(text: Seq<char>) -> Seq<char> {
    if text_looks_sensitive(text) {
        HIDDEN_INPUT@
    } else {
        text
    }
}

/// The text cut to `max` characters, ending in the truncation marker when cut.
pub open spec fn truncated(text: Seq<char>, max: nat) -> Seq<char> {
    if text.len() <= max {
        text
    } else {
        let keep = if max >= TRUNCATED_SUFFIX@.len() {
            max - TRUNCATED_SUFFIX@.len()
        } else {
            0
        };
        text.take(keep as int) + TRUNCATED_SUFFIX@
    }
}

/// `_` and `-` read as spaces.
pub open spec fn humanized(name: Seq<char>) -> Seq<char> {
    replace_where(name, |c: char| c == '_' || c == '-', ' ')
}

/// The first index at or after `from` where `__` starts, or -1.
pub open spec fn separator_from(s: Seq<char>, from: int) -> int
    decreases s.len() - from,
{
    if from < 0 || from + 1 >= s.len() {
        -1
    } else if s[from] == '_' && s[from + 1] == '_' {
        from
    } else {
        separator_from(s, from + 1)
    }
}

/// The text up to the first `__`, and what follows that `__` if there is one
/// (`str::split("__")` taken one part at a time).
pub open spec fn split_once(s: Seq<char>) -> (Seq<char>, Option<Seq<char>>) {
    let p = separator_from(s, 0);
    if p < 0 {
        (s, None)
    } else {
        (s.take(p), Some(s.skip(p + 2)))
    }
}

/// The plain-language description of a tool.
pub open spec fn action_text(tool: Seq<char>) -> Seq<char> {
    if tool == "Bash"@ {
        "Run a terminal command"@
    } else if tool == "apply_patch"@ {
        "Change files"@
    } else if starts_with(tool, "mcp__"@) {
        let (service, rest) = split_once(tool.skip(5));
        let action = match rest {
            Some(r) => split_once(r).0,
            None => "use a tool"@,
        };
        "Use "@ + humanized(service) + " to "@ + humanized(action)
    } else {
        humanized(tool)
    }
}

/// Whether an argument name names a secret.
pub fn is_sensitive(key: &str) -> (b: bool)
    ensures
        b == key_is_sensitive(key@),
{
    let n = replace_chars(&lower_exec(&chars_of(key)), '-', '.', '_');
    contains_str(&n, "secret") || contains_str(&n, "token") || contains_str(&n, "password")
        || contains_str(&n, "passwd") || contains_str(&n, "cookie") || contains_str(
        &n,
        "authorization",
    ) || contains_str(&n, "api_key") || contains_str(&n, "private_key") || contains_str(
        &n,
        "credential",
    )
}

/// Whether text mentions a secret or looks like a credential.
pub fn looks_sensitive(text: &str) -> (b: bool)
    ensures
        b == text_looks_sensitive(text@),
{
    let n = lower_exec(&chars_of(text));
    contains_str(&n, "secret") || contains_str(&n, "token") || contains_str(&n, "password")
        || contains_str(&n, "passwd") || contains_str(&n, "cookie") || contains_str(
        &n,
        "authorization",
    ) || contains_str(&n, "api_key") || contains_str(&n, "api-key") || contains_str(
        &n,
        "apikey",
    ) || contains_str(&n, "private_key") || contains_str(&n, "private-key") || contains_str(
        &n,
        "credential",
    ) || contains_str(&n, "bearer ") || contains_str(&n, "ghp_") || contains_str(
        &n,
        "github_pat_",
    ) || contains_str(&n, "sk-") || contains_str(&n, "xoxb-") || contains_str(&n, "akia")
}

/// The text, or the hidden-input notice when it may hold a secret.
pub fn safe_text(text: &str) -> (s: String)
    ensures
        s@ == safe(text@),
{
    if looks_sensitive(text) {
        owned(HIDDEN_INPUT)
    } else {
        owned(text)
    }
}

/// The text cut to `max_chars` characters, marked when cut.
pub fn truncate_chars(text: &str, max_chars: usize) -> (s: String)
    ensures
        s@ == truncated(text@, max_chars as nat),
{
    let v = chars_of(text);
    if v.len() <= max_chars {
        return owned(text);
    }
    let suffix = chars_of(TRUNCATED_SUFFIX);
    let keep = if max_chars >= suffix.len() {
        max_chars - suffix.len()
    } else {
        0
    };
    let head = string_of_range(&v, 0, keep);
    join2(head.as_str(), TRUNCATED_SUFFIX)
}

/// `_` and `-` replaced by spaces.
pub fn humanize_name(name: &str) -> (s: String)
    ensures
        s@ == humanized(name@),
{
    string_of(&replace_chars(&chars_of(name), '_', '-', ' '))
}

proof fn lemma_separator_bounds(s: Seq<char>, from: int)
    ensures
        separator_from(s, from) == -1 || (from <= separator_from(s, from) && separator_from(s, from)
            + 1 < s.len()),
    decreases s.len() - from,
{
    if !(from < 0 || from + 1 >= s.len()) && !(s[from] == '_' && s[from + 1] == '_') {
        lemma_separator_bounds(s, from + 1);
    }
}

/// The first index at or after `from` where `__` starts, or `None`.
fn find_separator(v: &Vec<char>, from: usize) -> (r: Option<usize>)
    requires
        from <= v@.len(),
    ensures
        match r {
            Some(p) => separator_from(v@, from as int) == p as int,
            None => separator_from(v@, from as int) == -1,
        },
    decreases v@.len() - from,
{
    if v.len() == 0 || from >= v.len() - 1 {
        None
    } else if v[from] == '_' && v[from + 1] == '_' {
        Some(from)
    } else {
        find_separator(v, from + 1)
    }
}

/// Splits at the first `__`.
fn split_once_exec(v: &Vec<char>) -> (r: (Vec<char>, Option<Vec<char>>))
    ensures
        r.0@ == split_once(v@).0,
        match r.1 {
            Some(rest) => split_once(v@).1 == Some(rest@),
            None => split_once(v@).1 is None,
        },
{
    proof {
        lemma_separator_bounds(v@, 0);
    }
    match find_separator(v, 0) {
        None => (clone_chars(v), None),
        Some(p) => {
            let head = slice_chars(v, 0, p);
            let n = v.len();
            assert(p + 2 <= n);
            let rest = slice_chars(v, p + 2, n);
            assert(head@ =~= v@.take(p as int));
            assert(rest@ =~= v@.skip(p + 2));
            (head, Some(rest))
        },
    }
}

/// The plain-language description of what a tool does.
pub fn action_name(tool_name: &str) -> (s: String)
    ensures
        s@ == action_text(tool_name@),
{
    let v = chars_of(tool_name);
    if equals_str(&v, "Bash") {
        return owned("Run a terminal command");
    }
    if equals_str(&v, "apply_patch") {
        return owned("Change files");
    }
    let prefix = chars_of("mcp__");
    if starts_with_exec(&v, &prefix) {
        proof {
            reveal_strlit("mcp__");
        }
        let after = slice_chars(&v, 5, v.len());
        assert(after@ =~= v@.skip(5));
        let (service, rest) = split_once_exec(&after);
        let action = match rest {
            Some(r) => split_once_exec(&r).0,
            None => chars_of("use a tool"),
        };
        let service_text = string_of(&replace_chars(&service, '_', '-', ' '));
        let action_text = string_of(&replace_chars(&action, '_', '-', ' '));
        let mut s = join3("Use ", service_text.as_str(), " to ");
        s.append(action_text.as_str());
        return s;
    }
    humanize_name(tool_name)
}


/// Why a hook event could not be turned into a question.
#[derive(Debug, PartialEq, Eq, Clone, Copy, Structural)]
pub enum HookError {
    InvalidEventJson,
    NotPermissionRequest,
    MissingToolName,
}

impl HookError {
    /// The sentence reported for this error.
    pub fn message(&self) -> (s: String)
        ensures
            s@ == hook_error_text(*self),
    {
        match self {
            HookError::InvalidEventJson => String::from_str("invalid hook event JSON"),
            HookError::NotPermissionRequest => String::from_str(
                "expected a PermissionRequest hook event",
            ),
            HookError::MissingToolName => String::from_str("PermissionRequest is missing tool_name"),
        }
    }
}

/// The sentence for each hook error.
pub open spec fn hook_error_text(e: HookError) -> Seq<char> {
    match e {
        HookError::InvalidEventJson => "invalid hook event JSON"@,
        HookError::NotPermissionRequest => "expected a PermissionRequest hook event"@,
        HookError::MissingToolName => "PermissionRequest is missing tool_name"@,
    }
}

/// A value with sensitive members hidden, descriptions dropped, and sensitive-looking
/// strings replaced; `key` is the member name the value stands under.
pub open spec fn sanitized(m: JsonModel, key: Option<Seq<char>>) -> JsonModel
    decreases m, 0nat,
{
    if key is Some && key_is_sensitive(key->0) {
        JsonModel::Str(HIDDEN_VALUE@)
    } else {
        match m {
            JsonModel::Object(entries) => JsonModel::Object(sanitized_entries(entries)),
            JsonModel::Array(items) => JsonModel::Array(sanitized_items(items, key)),
            JsonModel::Str(t) => if text_looks_sensitive(t) {
                JsonModel::Str(HIDDEN_INPUT@)
            } else {
                m
            },
            _ => m,
        }
    }
}

/// The members of a sanitized object: `description` dropped, each value sanitized under its name.
pub open spec fn sanitized_entries(entries: Seq<(Seq<char>, JsonModel)>) -> Seq<(Seq<char>, JsonModel)>
    decreases entries, 1nat,
{
    if entries.len() == 0 {
        Seq::empty()
    } else {
        let rest = sanitized_entries(entries.drop_last());
        let (k, v) = entries.last();
        if k == "description"@ {
            rest
        } else {
            rest.push((k, sanitized(v, Some(k))))
        }
    }
}

/// The items of a sanitized array, each sanitized under the array's own name.
pub open spec fn sanitized_items(items: Seq<JsonModel>, key: Option<Seq<char>>) -> Seq<JsonModel>
    decreases items, 1nat,
{
    if items.len() == 0 {
        Seq::empty()
    } else {
        sanitized_items(items.drop_last(), key).push(sanitized(items.last(), key))
    }
}

/// Hides what may be secret in a tool's arguments.
#[verifier::loop_isolation(false)]
pub fn sanitize_value(value: &Json, key: Option<&str>) -> (r: Json)
    ensures
        r@ == sanitized(value@, match key {
            Some(k) => Some(k@),
            None => None,
        }),
    decreases value,
{
    let ghost gkey = match key {
        Some(k) => Some(k@),
        None => None::<Seq<char>>,
    };
    if let Some(k) = key {
        if is_sensitive(k) {
            return Json::string(HIDDEN_VALUE);
        }
    }
    match value {
        Json::Object(entries) => {
            let ghost em = entry_models_of(entries@);
            let mut out: Vec<(String, Json)> = Vec::new();
            let mut i: usize = 0;
            while i < entries.len()
                invariant
                    i <= entries@.len(),
                    em == entry_models_of(entries@),
                    entry_models_of(out@) == sanitized_entries(em.take(i as int)),
                decreases entries@.len() - i,
            {
                proof {
                    assert(decreases_to!(*value => (*value)->Object_0));
                    assert(decreases_to!(*entries => entries[i as int]));
                    assert(decreases_to!(entries[i as int] => entries[i as int].1));
                    assert(em.take(i + 1).drop_last() =~= em.take(i as int));
                    assert(em.take(i + 1).last() == em[i as int]);
                }
                let (k, v) = &entries[i];
                let kc = chars_of(k.as_str());
                if !equals_str(&kc, "description") {
                    let sv = sanitize_value(v, Some(k.as_str()));
                    let ghost before = out@;
                    out.push((k.clone(), sv));
                    assert(entry_models_of(out@) =~= entry_models_of(before).push(
                        (k@, sv@),
                    ));
                }
                i += 1;
            }
            assert(em.take(entries@.len() as int) =~= em);
            Json::Object(out)
        },
        Json::Array(items) => {
            let ghost im = models_of(items@);
            let mut out: Vec<Json> = Vec::new();
            let mut i: usize = 0;
            while i < items.len()
                invariant
                    i <= items@.len(),
                    im == models_of(items@),
                    models_of(out@) == sanitized_items(im.take(i as int), gkey),
                decreases items@.len() - i,
            {
                proof {
                    assert(decreases_to!(*value => (*value)->Array_0));
                    assert(decreases_to!(*items => items[i as int]));
                    assert(im.take(i + 1).drop_last() =~= im.take(i as int));
                    assert(im.take(i + 1).last() == im[i as int]);
                }
                let sv = sanitize_value(&items[i], key);
                let ghost before = out@;
                out.push(sv);
                assert(models_of(out@) =~= models_of(before).push(sv@));
                i += 1;
            }
            assert(im.take(items@.len() as int) =~= im);
            Json::Array(out)
        },
        Json::Str(t) => if looks_sensitive(t.as_str()) {
            Json::string(HIDDEN_INPUT)
        } else {
            value.duplicate()
        },
        _ => value.duplicate(),
    }
}


/// What the question shows of a tool's arguments: text, or a value for the caller to
/// print as pretty JSON.
#[derive(Debug)]
pub enum Preview {
    Text(String),
    Structured(Json),
}

/// The model of a preview.
pub enum PreviewModel {
    Text(Seq<char>),
    Structured(JsonModel),
}

/// The model of a preview value.
pub open spec fn preview_model(p: Preview) -> PreviewModel {
    match p {
        Preview::Text(t) => PreviewModel::Text(t@),
        Preview::Structured(j) => PreviewModel::Structured(j@),
    }
}

/// Shell commands and patches are shown as text (hidden when they look sensitive);
/// other arguments are shown as a sanitized value.
pub open spec fn preview_spec(tool: Seq<char>, input: JsonModel) -> PreviewModel {
    if (tool == "Bash"@ || tool == "apply_patch"@) && str_field(input, "command"@) is Some {
        PreviewModel::Text(safe(str_field(input, "command"@)->0))
    } else {
        PreviewModel::Structured(sanitized(input, None))
    }
}

/// The arguments of the event's tool, `null` when absent.
pub open spec fn tool_input_of(event: JsonModel) -> JsonModel {
    match field(event, "tool_input"@) {
        Some(v) => v,
        None => JsonModel::Null,
    }
}

/// The description that comes with the tool's arguments, if any.
pub open spec fn description_of(event: JsonModel) -> Option<Seq<char>> {
    str_field(tool_input_of(event), "description"@)
}

/// The working folder named by the event, `unknown` when absent.
pub open spec fn cwd_of(event: JsonModel) -> Seq<char> {
    match str_field(event, "cwd"@) {
        Some(c) => c,
        None => "unknown"@,
    }
}

/// The first part of the question: what Codex wants, where, and why.
pub open spec fn header_spec(tool: Seq<char>, event: JsonModel) -> Seq<char> {
    let base = "Codex needs your okay before it can continue."@ + "\n\n"@ + "What it wants to do: "@
        + action_text(tool) + "\n\n"@ + "Folder: "@ + truncated(cwd_of(event), 500);
    match description_of(event) {
        Some(d) => base + "\n\n"@ + "Why: "@ + truncated(safe(d), 500),
        None => base,
    }
}

/// The label before the argument preview.
pub open spec fn details_label() -> Seq<char> {
    "\n\nDetails:\n"@
}

/// The closing question.
pub open spec fn footer() -> Seq<char> {
    "\n\nDo you want to allow this once?"@
}

/// How many characters are left for the preview.
pub open spec fn preview_budget(header: Seq<char>) -> nat {
    let fixed = header.len() + details_label().len() + footer().len();
    if fixed <= MAX_QUESTION_CHARS {
        (MAX_QUESTION_CHARS - fixed) as nat
    } else {
        0
    }
}

/// The whole question for an event whose tool is `tool`, given the printed preview.
pub open spec fn question_spec(tool: Seq<char>, event: JsonModel, preview: Seq<char>) -> Seq<char> {
    let header = header_spec(tool, event);
    header + details_label() + truncated(preview, preview_budget(header)) + footer()
}

/// What the question shows of a tool's arguments, before a value is printed.
pub fn preview_source(tool_name: &str, tool_input: &Json) -> (p: Preview)
    ensures
        preview_model(p) == preview_spec(tool_name@, tool_input@),
{
    let v = chars_of(tool_name);
    if equals_str(&v, "Bash") || equals_str(&v, "apply_patch") {
        if let Some(c) = tool_input.get("command") {
            if let Some(command) = c.as_str() {
                return Preview::Text(safe_text(command));
            }
        }
    }
    Preview::Structured(sanitize_value(tool_input, None))
}

/// The text of a preview: text as it is, a value printed as pretty JSON.
pub open spec fn preview_text(p: PreviewModel) -> Seq<char> {
    match p {
        PreviewModel::Text(t) => t,
        PreviewModel::Structured(j) => pretty_text(j),
    }
}

/// The text of a preview.
pub fn render_preview(p: Preview) -> (s: String)
    ensures
        s@ == preview_text(preview_model(p)),
{
    match p {
        Preview::Text(t) => t,
        Preview::Structured(j) => pretty_json(&j),
    }
}

/// What the question shows of a tool's arguments: a shell command or patch as text
/// (hidden when it looks sensitive), other arguments sanitized and printed as pretty JSON.
pub fn input_preview(tool_name: &str, tool_input: &Json) -> (s: String)
    ensures
        s@ == preview_text(preview_spec(tool_name@, tool_input@)),
{
    render_preview(preview_source(tool_name, tool_input))
}

/// Checks that a hook event is a `PermissionRequest`.
pub fn check_event(event: &Json) -> (r: Result<(), HookError>)
    ensures
        r is Ok <==> str_field(event@, "hook_event_name"@) == Some("PermissionRequest"@),
        r matches Err(e) ==> e == HookError::NotPermissionRequest,
{
    match event.get("hook_event_name") {
        Some(n) => match n.as_str() {
            Some(name) => {
                if equals_str(&chars_of(name), "PermissionRequest") {
                    Ok(())
                } else {
                    Err(HookError::NotPermissionRequest)
                }
            },
            None => Err(HookError::NotPermissionRequest),
        },
        None => Err(HookError::NotPermissionRequest),
    }
}

/// Reads the hook event from its input text: it must be JSON, and a `PermissionRequest`.
pub fn read_event(input: &str) -> (r: Result<Json, HookError>)
    ensures
        (r == Err::<Json, HookError>(HookError::InvalidEventJson)) <==> parsed_json(input@) is None,
        parsed_json(input@) matches Some(m) ==> match r {
            Ok(j) => j@ == m && str_field(m, "hook_event_name"@) == Some("PermissionRequest"@),
            Err(e) => e == HookError::NotPermissionRequest && str_field(m, "hook_event_name"@) != Some(
                "PermissionRequest"@,
            ),
        },
{
    match parse_json(input) {
        None => Err(HookError::InvalidEventJson),
        Some(event) => {
            check_event(&event)?;
            Ok(event)
        },
    }
}

/// The tool the event names.
fn tool_name_of(event: &Json) -> (r: Result<&str, HookError>)
    ensures
        match r {
            Ok(t) => str_field(event@, "tool_name"@) == Some(t@),
            Err(e) => str_field(event@, "tool_name"@) is None && e == HookError::MissingToolName,
        },
{
    match event.get("tool_name") {
        Some(n) => match n.as_str() {
            Some(t) => Ok(t),
            None => Err(HookError::MissingToolName),
        },
        None => Err(HookError::MissingToolName),
    }
}

/// The preview of the event's tool arguments; the event must name its tool.
fn event_preview(event: &Json) -> (r: Result<Preview, HookError>)
    ensures
        match r {
            Ok(p) => str_field(event@, "tool_name"@) is Some && preview_model(p) == preview_spec(
                str_field(event@, "tool_name"@)->0,
                tool_input_of(event@),
            ),
            Err(e) => str_field(event@, "tool_name"@) is None && e == HookError::MissingToolName,
        },
{
    let tool = tool_name_of(event)?;
    match event.get("tool_input") {
        Some(input) => Ok(preview_source(tool, input)),
        None => Ok(preview_source(tool, &Json::Null)),
    }
}

/// The first part of the question.
fn header_text(tool: &str, event: &Json) -> (s: String)
    ensures
        s@ == header_spec(tool@, event@),
{
    let cwd = match event.get("cwd") {
        Some(c) => match c.as_str() {
            Some(c) => c,
            None => "unknown",
        },
        None => "unknown",
    };
    let mut s = owned("Codex needs your okay before it can continue.");
    s.append("\n\n");
    s.append("What it wants to do: ");
    s.append(action_name(tool).as_str());
    s.append("\n\n");
    s.append("Folder: ");
    s.append(truncate_chars(cwd, 500).as_str());
    let description = match event.get("tool_input") {
        Some(input) => match input.get("description") {
            Some(d) => d.as_str(),
            None => None,
        },
        None => None,
    };
    proof {
        if field(event@, "tool_input"@) is None {
            assert(field(JsonModel::Null, "description"@) is None);
        }
    }
    if let Some(d) = description {
        s.append("\n\n");
        s.append("Why: ");
        s.append(truncate_chars(safe_text(d).as_str(), 500).as_str());
    }
    s
}

/// The question for an event, given the printed preview of its arguments.
fn question_with_preview(event: &Json, preview: &str) -> (r: Result<String, HookError>)
    ensures
        match r {
            Ok(m) => str_field(event@, "tool_name"@) is Some && m@ == question_spec(
                str_field(event@, "tool_name"@)->0,
                event@,
                preview@,
            ),
            Err(e) => str_field(event@, "tool_name"@) is None && e == HookError::MissingToolName,
        },
{
    let tool = tool_name_of(event)?;
    let header = header_text(tool, event);
    let label = "\n\nDetails:\n";
    let footer_text = "\n\nDo you want to allow this once?";
    let fixed_len = chars_of(header.as_str()).len() as u128 + chars_of(label).len() as u128
        + chars_of(footer_text).len() as u128;
    let available: usize = if fixed_len <= MAX_QUESTION_CHARS as u128 {
        (MAX_QUESTION_CHARS as u128 - fixed_len) as usize
    } else {
        0
    };
    let mut m = header;
    m.append(label);
    m.append(truncate_chars(preview, available).as_str());
    m.append(footer_text);
    Ok(m)
}

/// The question for an event whose tool is `tool`: header, the printed preview of its
/// sanitized arguments cut to the room left, and the closing question.
pub open spec fn permission_question_spec(tool: Seq<char>, event: JsonModel) -> Seq<char> {
    question_spec(tool, event, preview_text(preview_spec(tool, tool_input_of(event))))
}

/// The Telegram question for a `PermissionRequest` event.  It is at most 3000
/// characters whenever the header leaves room for the truncation marker.
pub fn permission_message(event: &Json) -> (r: Result<String, HookError>)
    ensures
        match r {
            Ok(m) => str_field(event@, "tool_name"@) is Some && m@ == permission_question_spec(
                str_field(event@, "tool_name"@)->0,
                event@,
            ),
            Err(e) => str_field(event@, "tool_name"@) is None && e == HookError::MissingToolName,
        },
{
    let preview = render_preview(event_preview(event)?);
    question_with_preview(event, preview.as_str())
}

/// The hook output that approves the request.
pub fn allow_response() -> (j: Json)
    ensures
        j@ == allow_model(),
{
    let decision = object1("behavior", Json::string("allow"));
    let output = object2("hookEventName", Json::string("PermissionRequest"), "decision", decision);
    object1("hookSpecificOutput", output)
}

/// The hook output that refuses the request with `message`.
pub fn deny_response(message: &str) -> (j: Json)
    ensures
        j@ == deny_model(message@),
{
    let decision = object2("behavior", Json::string("deny"), "message", Json::string(message));
    let output = object2("hookEventName", Json::string("PermissionRequest"), "decision", decision);
    object1("hookSpecificOutput", output)
}

/// `{"hookSpecificOutput": {"hookEventName": "PermissionRequest", "decision": {"behavior": "allow"}}}`
pub open spec fn allow_model() -> JsonModel {
    JsonModel::Object(seq![("hookSpecificOutput"@, JsonModel::Object(seq![
        ("hookEventName"@, JsonModel::Str("PermissionRequest"@)),
        ("decision"@, JsonModel::Object(seq![("behavior"@, JsonModel::Str("allow"@))])),
    ]))])
}

/// The same with `"behavior": "deny"` and the message.
pub open spec fn deny_model(message: Seq<char>) -> JsonModel {
    JsonModel::Object(seq![("hookSpecificOutput"@, JsonModel::Object(seq![
        ("hookEventName"@, JsonModel::Str("PermissionRequest"@)),
        ("decision"@, JsonModel::Object(seq![
            ("behavior"@, JsonModel::Str("deny"@)),
            ("message"@, JsonModel::Str(message)),
        ])),
    ]))])
}

/// What the user chose refuses the request unless it is the allow button.
pub open spec fn decision_spec(answer: Seq<char>) -> JsonModel {
    if answer == ALLOW_LABEL@ {
        allow_model()
    } else {
        deny_model(DECLINED@)
    }
}

/// The refusal sent when the user picked anything but the allow button.
pub const DECLINED: &'static str = "You chose not to allow this in Telegram.";

/// The refusal sent when no answer could be had.
pub const NOT_APPROVED: &'static str = "You did not approve this in Telegram, so TALBot blocked it.";

/// The two buttons of the question.
pub fn choices() -> (v: Vec<String>)
    ensures
        v@.len() == 2,
        v@[0]@ == ALLOW_LABEL@,
        v@[1]@ == DENY_LABEL@,
{
    vec![owned(ALLOW_LABEL), owned(DENY_LABEL)]
}

/// The hook output for the user's answer.
pub fn decision_for_answer(answer: &str) -> (j: Json)
    ensures
        j@ == decision_spec(answer@),
{
    if equals_str(&chars_of(answer), ALLOW_LABEL) {
        allow_response()
    } else {
        deny_response(DECLINED)
    }
}

/// The hook output when no answer could be had.
pub fn failure_response() -> (j: Json)
    ensures
        j@ == deny_model(NOT_APPROVED@),
{
    deny_response(NOT_APPROVED)
}


/// Cut text never exceeds the limit once the limit leaves room for the marker; text
/// that fits is kept whole, and text that does not is cut to exactly the limit and
/// ends with the marker.
pub proof fn truncation_respects_the_limit(text: Seq<char>, max: nat)
    ensures
        text.len() <= max ==> truncated(text, max) == text,
        max >= TRUNCATED_SUFFIX@.len() ==> truncated(text, max).len() <= max,
        text.len() > max >= TRUNCATED_SUFFIX@.len() ==> truncated(text, max).len() == max
            && ends_with(truncated(text, max), TRUNCATED_SUFFIX@),
{
    if text.len() > max && max >= TRUNCATED_SUFFIX@.len() {
        let r = truncated(text, max);
        let keep = max - TRUNCATED_SUFFIX@.len();
        assert(r.subrange(r.len() - TRUNCATED_SUFFIX@.len(), r.len() as int) =~= TRUNCATED_SUFFIX@);
    }
}

/// The permission question ends with the closing question, and it stays within the
/// Telegram limit whenever its header leaves room for the details label, the closing
/// question and the truncation marker; when the preview is longer than the room left,
/// the question fills the limit exactly.
pub proof fn permission_question_fits(tool: Seq<char>, event: JsonModel, preview: Seq<char>)
    ensures
        ends_with(question_spec(tool, event, preview), footer()),
        header_spec(tool, event).len() + details_label().len() + footer().len()
            + TRUNCATED_SUFFIX@.len() <= MAX_QUESTION_CHARS ==> question_spec(tool, event, preview).len()
            <= MAX_QUESTION_CHARS,
        header_spec(tool, event).len() + details_label().len() + footer().len()
            + TRUNCATED_SUFFIX@.len() <= MAX_QUESTION_CHARS && preview.len() > preview_budget(
            header_spec(tool, event),
        ) ==> question_spec(tool, event, preview).len() == MAX_QUESTION_CHARS,
{
    let header = header_spec(tool, event);
    let budget = preview_budget(header);
    truncation_respects_the_limit(preview, budget);
    let q = question_spec(tool, event, preview);
    assert(q.subrange(q.len() - footer().len(), q.len() as int) =~= footer());
}

/// Every string a sanitized value holds is one of the two notices or does not look
/// sensitive, at every depth.
pub open spec fn clean(m: JsonModel) -> bool
    decreases m, 0nat,
{
    match m {
        JsonModel::Str(t) => t == HIDDEN_VALUE@ || t == HIDDEN_INPUT@ || !text_looks_sensitive(t),
        JsonModel::Array(items) => clean_items(items),
        JsonModel::Object(entries) => clean_entries(entries),
        _ => true,
    }
}

/// Every item is clean.
pub open spec fn clean_items(items: Seq<JsonModel>) -> bool
    decreases items, 1nat,
{
    items.len() == 0 || (clean_items(items.drop_last()) && clean(items.last()))
}

/// Every member value is clean, and no member is a description.
pub open spec fn clean_entries(entries: Seq<(Seq<char>, JsonModel)>) -> bool
    decreases entries, 1nat,
{
    entries.len() == 0 || (clean_entries(entries.drop_last()) && entries.last().0 != "description"@
        && clean(entries.last().1))
}

/// Sanitizing leaves nothing that looks like a secret, except behind the notices, and
/// drops every description.
pub proof fn sanitized_is_clean(m: JsonModel, key: Option<Seq<char>>)
    ensures
        clean(sanitized(m, key)),
    decreases m, 0nat,
{
    if key is Some && key_is_sensitive(key->0) {
    } else {
        match m {
            JsonModel::Array(items) => {
                sanitized_items_are_clean(items, key);
            },
            JsonModel::Object(entries) => {
                sanitized_entries_are_clean(entries);
            },
            _ => {},
        }
    }
}

proof fn sanitized_items_are_clean(items: Seq<JsonModel>, key: Option<Seq<char>>)
    ensures
        clean_items(sanitized_items(items, key)),
    decreases items, 1nat,
{
    if items.len() > 0 {
        sanitized_items_are_clean(items.drop_last(), key);
        sanitized_is_clean(items.last(), key);
        let r = sanitized_items(items, key);
        assert(r.drop_last() =~= sanitized_items(items.drop_last(), key));
    }
}

proof fn sanitized_entries_are_clean(entries: Seq<(Seq<char>, JsonModel)>)
    ensures
        clean_entries(sanitized_entries(entries)),
    decreases entries, 1nat,
{
    if entries.len() > 0 {
        sanitized_entries_are_clean(entries.drop_last());
        let (k, v) = entries.last();
        if k != "description"@ {
            sanitized_is_clean(v, Some(k));
            let r = sanitized_entries(entries);
            assert(r.drop_last() =~= sanitized_entries(entries.drop_last()));
        }
    }
}

/// Only the allow button approves; any other answer is a refusal.
pub proof fn only_the_allow_button_approves(answer: Seq<char>)
    ensures
        decision_spec(answer) == allow_model() <==> answer == ALLOW_LABEL@,
        answer != ALLOW_LABEL@ ==> decision_spec(answer) == deny_model(DECLINED@),
{
    if answer != ALLOW_LABEL@ {
        let d = deny_model(DECLINED@);
        let a = allow_model();
        if let (JsonModel::Object(de), JsonModel::Object(ae)) = (d, a) {
            if let (JsonModel::Object(de2), JsonModel::Object(ae2)) = (de[0].1, ae[0].1) {
                if let (JsonModel::Object(de3), JsonModel::Object(ae3)) = (de2[1].1, ae2[1].1) {
                    assert(de3.len() != ae3.len());
                }
            }
        }
    }
}

/// A shell command or a patch is shown as itself: for the `Bash` and `apply_patch`
/// tools, when the arguments hold a string `command`, the preview is that text made
/// safe, not the arguments printed as JSON; any other tool's arguments, or arguments
/// without a string command, are sanitized and printed as pretty JSON.
pub proof fn commands_and_patches_are_shown_as_text(tool: Seq<char>, input: JsonModel)
    ensures
        tool == "Bash"@ || tool == "apply_patch"@ ==> match str_field(input, "command"@) {
            Some(c) => preview_text(preview_spec(tool, input)) == safe(c),
            None => true,
        },
        str_field(input, "command"@) is None ==> preview_text(preview_spec(tool, input)) == pretty_text(
            sanitized(input, None),
        ),
        tool != "Bash"@ && tool != "apply_patch"@ ==> preview_text(preview_spec(tool, input))
            == pretty_text(sanitized(input, None)),
{
}

} // verus!
