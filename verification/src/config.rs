//! What is kept on disk under `~/.talbot`, read from and written as text.
use vstd::prelude::*;

use crate::text::{
    chars_of, i64_text, i64_value, int_text, lemma_int_text_parses, parse_i64, trim, trimmed,
};

verus! {

/// A saved update offset older than this many seconds is ignored (six days).
pub const MAX_UPDATE_OFFSET_AGE_SECS: u64 = 518400;

/// The file that holds the bot token.
pub const TOKEN_FILE: &'static str = "token";

/// The file that holds the chat id.
pub const CHAT_ID_FILE: &'static str = "chat_id";

/// The file that holds the saved update offset.
pub const UPDATE_OFFSET_FILE: &'static str = "update_offset";

/// The directory under the home directory.
pub const DIR_NAME: &'static str = ".talbot";

/// The lock file of the question that is waiting.
pub const LOCK_FILE: &'static str = "ask.lock";

/// The stored text, trimmed, when anything is left.
pub open spec fn stored_value(contents: Seq<char>) -> Option<Seq<char>> {
    if trim(contents).len() == 0 {
        None
    } else {
        Some(trim(contents))
    }
}

/// An age of `secs` seconds and `nanos` nanoseconds is at most six days.
pub open spec fn recent(secs: u64, nanos: u32) -> bool {
    secs < MAX_UPDATE_OFFSET_AGE_SECS || (secs == MAX_UPDATE_OFFSET_AGE_SECS && nanos == 0)
}

/// The saved offset when it is recent and its trimmed text is a valid `i64`.
pub open spec fn update_offset_spec(contents: Seq<char>, secs: u64, nanos: u32) -> Option<int> {
    if recent(secs, nanos) {
        i64_value(trim(contents))
    } else {
        None
    }
}

/// The token or chat id held by a file's contents: trimmed, and `None` when blank.
pub fn stored_text(contents: &str) -> (r: Option<String>)
    ensures
        match r {
            Some(s) => stored_value(contents@) == Some(s@),
            None => stored_value(contents@) is None,
        },
{
    let t = trimmed(contents);
    if chars_of(t.as_str()).len() == 0 {
        None
    } else {
        Some(t)
    }
}

/// The saved update offset, given the file's contents and how long ago it was written:
/// only an offset at most six days old is used.
pub fn parse_update_offset(contents: &str, age_secs: u64, age_nanos: u32) -> (r: Option<i64>)
    ensures
        match r {
            Some(o) => update_offset_spec(contents@, age_secs, age_nanos) == Some(o as int),
            None => update_offset_spec(contents@, age_secs, age_nanos) is None,
        },
{
    if age_secs < MAX_UPDATE_OFFSET_AGE_SECS || (age_secs == MAX_UPDATE_OFFSET_AGE_SECS
        && age_nanos == 0) {
        parse_i64(trimmed(contents).as_str())
    } else {
        None
    }
}

/// The text an update offset is saved as.
pub fn update_offset_text(offset: i64) -> (s: String)
    ensures
        s@ == int_text(offset as int),
{
    i64_text(offset)
}

/// What `write_update_offset` stores, read back at once, gives the same offset.
pub proof fn saved_offset_reads_back(offset: i64)
    ensures
        update_offset_spec(int_text(offset as int), 0, 0) == Some(offset as int),
{
    lemma_int_text_parses(offset as int);
}

} // verus!
