//! Conversation-title validation and message formatting.
use vstd::prelude::*;

use crate::text::{
    chars_of, contains, contains_str, join3, lemma_trim_idempotent, trim, trim_bounds, trimmed,
};

verus! {

/// The longest conversation title, in characters.
pub const MAX_TITLE_CHARS: usize = 80;

/// Why a conversation title was refused.
#[derive(Debug, PartialEq, Eq, Clone, Copy, Structural)]
pub enum TitleError {
    Empty,
    TooLong,
    MultiLine,
}

/// The error a title is refused with, if any, in the order the checks run.
pub open spec fn title_error(input: Seq<char>) -> Option<TitleError> {
    let t = trim(input);
    if t.len() == 0 {
        Some(TitleError::Empty)
    } else if t.len() > MAX_TITLE_CHARS {
        Some(TitleError::TooLong)
    } else if contains(t, seq!['\n']) || contains(t, seq!['\r']) {
        Some(TitleError::MultiLine)
    } else {
        None
    }
}

/// `title`, a blank line, then the trimmed message.
pub open spec fn titled(title: Seq<char>, message: Seq<char>) -> Seq<char> {
    title + "\n\n"@ + trim(message)
}

/// A status marker, a blank line, then the titled (or bare, trimmed) message.
pub open spec fn with_status(status: Seq<char>, title: Option<Seq<char>>, message: Seq<char>) -> Seq<
    char,
> {
    match title {
        Some(t) => status + "\n\n"@ + titled(t, message),
        None => status + "\n\n"@ + trim(message),
    }
}

impl TitleError {
    /// The sentence reported to the caller for this error.
    pub fn message(&self) -> (s: String)
        ensures
            s@ == title_error_text(*self),
    {
        match self {
            TitleError::Empty => String::from_str("conversation_title must not be empty"),
            TitleError::TooLong => String::from_str(
                "conversation_title must be at most 80 characters",
            ),
            TitleError::MultiLine => String::from_str("conversation_title must be a single line"),
        }
    }
}

/// The sentence for each title error.
pub open spec fn title_error_text(e: TitleError) -> Seq<char> {
    match e {
        TitleError::Empty => "conversation_title must not be empty"@,
        TitleError::TooLong => "conversation_title must be at most 80 characters"@,
        TitleError::MultiLine => "conversation_title must be a single line"@,
    }
}

/// Validates a conversation title: trimmed, non-empty, at most 80 characters, one line.
pub fn title(input: &str) -> (r: Result<&str, TitleError>)
    ensures
        title_error(input@) is None <==> r is Ok,
        r matches Ok(t) ==> t@ == trim(input@),
        r matches Err(e) ==> title_error(input@) == Some(e),
{
    let v = chars_of(input);
    let (lo, hi) = trim_bounds(&v);
    if lo == hi {
        return Err(TitleError::Empty);
    }
    if hi - lo > MAX_TITLE_CHARS {
        return Err(TitleError::TooLong);
    }
    let t = input.substring_char(lo, hi);
    let tv = chars_of(t);
    let lf = contains_str(&tv, "\n");
    let cr = contains_str(&tv, "\r");
    proof {
        reveal_strlit("\n");
        reveal_strlit("\r");
        assert("\n"@ =~= seq!['\n']);
        assert("\r"@ =~= seq!['\r']);
    }
    if lf || cr {
        return Err(TitleError::MultiLine);
    }
    Ok(t)
}

/// The message under its conversation title: `"{title}\n\n{message.trim()}"`.
pub fn titled_text(title: &str, message: &str) -> (s: String)
    ensures
        s@ == titled(title@, message@),
{
    join3(title, "\n\n", trimmed(message).as_str())
}

/// The message under a status marker and, when given, the conversation title.
pub fn status_text(status: &str, title: Option<&str>, message: &str) -> (s: String)
    ensures
        s@ == with_status(status@, match title {
            Some(t) => Some(t@),
            None => None,
        }, message@),
{
    match title {
        Some(t) => join3(status, "\n\n", titled_text(t, message).as_str()),
        None => join3(status, "\n\n", trimmed(message).as_str()),
    }
}


/// A valid title is its own validated form: checking the title that `title` gave
/// accepts it unchanged.
pub proof fn title_is_stable(input: Seq<char>)
    requires
        title_error(input) is None,
    ensures
        title_error(trim(input)) is None,
        trim(trim(input)) == trim(input),
{
    lemma_trim_idempotent(input);
}


/// Words joined with single spaces (`[String]::join(" ")`).
pub open spec fn joined(words: Seq<Seq<char>>) -> Seq<char>
    decreases words.len(),
{
    if words.len() == 0 {
        Seq::empty()
    } else if words.len() == 1 {
        words[0]
    } else {
        joined(words.drop_last()) + " "@ + words.last()
    }
}

/// The views of a list of strings.
pub open spec fn word_views(words: Seq<String>) -> Seq<Seq<char>> {
    Seq::new(words.len(), |i: int| words[i]@)
}

/// What `talbot send` sends: the words joined with spaces, under the conversation
/// title when one is given.
pub open spec fn command_message_spec(title_arg: Option<Seq<char>>, words: Seq<Seq<char>>) -> Result<
    Seq<char>,
    TitleError,
> {
    match title_arg {
        None => Ok(joined(words)),
        Some(t) => match title_error(t) {
            Some(e) => Err(e),
            None => Ok(titled(trim(t), joined(words))),
        },
    }
}

/// Words joined with single spaces.
pub fn join_words(words: &Vec<String>) -> (s: String)
    ensures
        s@ == joined(word_views(words@)),
{
    let ghost ws = word_views(words@);
    let mut s = String::new();
    let mut i: usize = 0;
    while i < words.len()
        invariant
            i <= words@.len(),
            ws == word_views(words@),
            s@ == joined(ws.take(i as int)),
        decreases words@.len() - i,
    {
        proof {
            assert(ws.take(i + 1).drop_last() =~= ws.take(i as int));
            assert(ws.take(i + 1).last() == words@[i as int]@);
        }
        if i > 0 {
            s.append(" ");
        }
        s.append(words[i].as_str());
        proof {
            if i == 0 {
                assert(s@ =~= joined(ws.take(1)));
            }
        }
        i += 1;
    }
    assert(ws.take(words@.len() as int) =~= ws);
    s
}

/// What `talbot send` sends.
pub fn command_message(conversation_title: Option<&str>, words: &Vec<String>) -> (r: Result<
    String,
    TitleError,
>)
    ensures
        match r {
            Ok(m) => command_message_spec(
                match conversation_title {
                    Some(t) => Some(t@),
                    None => None,
                },
                word_views(words@),
            ) == Ok::<Seq<char>, TitleError>(m@),
            Err(e) => command_message_spec(
                match conversation_title {
                    Some(t) => Some(t@),
                    None => None,
                },
                word_views(words@),
            ) == Err::<Seq<char>, TitleError>(e),
        },
{
    let message = join_words(words);
    match conversation_title {
        None => Ok(message),
        Some(t) => {
            let t = title(t)?;
            Ok(titled_text(t, message.as_str()))
        },
    }
}

} // verus!
