//! The decisions around one chat exchange: whether the backend's answer may
//! be decoded at all, and which title the conversation ends with.
use vstd::prelude::*;
use vstd::string::*;
use crate::session::{StreamEvent, EventKind, error_event};

verus! {

/// The title of a conversation that has none yet.
pub const UNTITLED: &'static str = "Untitled Conversation";

/// At most this many characters of the message make a fallback title.
pub const FALLBACK_TITLE_CHARS: usize = 30;

/// A 2xx status.
pub open spec fn is_success(status: u16) -> bool {
    200 <= status <= 299
}

pub open spec fn failure_message(status_text: Seq<char>) -> Seq<char> {
    "API request failed: "@ + status_text
}

/// Whether a response status lets the body be decoded.
pub fn status_ok(status: u16) -> (r: bool)
    ensures
        r == is_success(status),
{
    200 <= status && status <= 299
}

/// The one error event for a response whose status is not 2xx, naming the
/// status as `status_text` renders it; `None` for a 2xx status.
pub fn status_error(status: u16, status_text: &str) -> (r: Option<StreamEvent>)
    ensures
        r is None <==> is_success(status),
        r matches Some(e) ==> e@ == error_event(failure_message(status_text@)),
{
    if status_ok(status) {
        None
    } else {
        let mut message = String::from_str("API request failed: ");
        message.append(status_text);
        Some(
            StreamEvent {
                event_type: EventKind::Error,
                content: Some(message),
                tool_call: None,
                full_content: None,
                tool_calls: None,
            },
        )
    }
}

/// The first 30 characters of the message, with `...` when it is longer.
pub open spec fn fallback_title_of(message: Seq<char>) -> Seq<char> {
    if message.len() > FALLBACK_TITLE_CHARS {
        message.take(FALLBACK_TITLE_CHARS as int) + "..."@
    } else {
        message
    }
}

/// The title derived from the user's message when the backend gave none.
pub fn fallback_title(message: &str) -> (r: String)
    ensures
        r@ == fallback_title_of(message@),
{
    let n = message.unicode_len();
    if n > FALLBACK_TITLE_CHARS {
        let mut r = String::from_str(message.substring_char(0, FALLBACK_TITLE_CHARS));
        r.append("...");
        r
    } else {
        String::from_str(message)
    }
}

/// When the backend gave no title: the fallback title if the stored one is
/// absent or the placeholder, else nothing to change.
pub open spec fn title_when_missing_of(stored: Option<Seq<char>>, message: Seq<char>) -> Option<
    Seq<char>,
> {
    match stored {
        Some(t) => if t == UNTITLED@ {
            Some(fallback_title_of(message))
        } else {
            None
        },
        None => Some(fallback_title_of(message)),
    }
}

/// The title to store when the backend gave none.
pub fn title_when_missing(stored: &Option<String>, message: &str) -> (r: Option<String>)
    ensures
        crate::registry::opt_text(r) == title_when_missing_of(crate::registry::opt_text(*stored), message@),
{
    match stored {
        Some(t) => {
            if crate::json::str_eq(t.as_str(), UNTITLED) {
                Some(fallback_title(message))
            } else {
                None
            }
        },
        None => Some(fallback_title(message)),
    }
}

/// The title a finished exchange leaves: the decoded one, else as for a
/// missing title.
pub fn final_title(decoded: Option<String>, stored: &Option<String>, message: &str) -> (r: Option<
    String,
>)
    ensures
        crate::registry::opt_text(r) == match crate::registry::opt_text(decoded) {
            Some(t) => Some(t),
            None => title_when_missing_of(crate::registry::opt_text(*stored), message@),
        },
{
    match decoded {
        Some(t) => Some(t),
        None => title_when_missing(stored, message),
    }
}

} // verus!
