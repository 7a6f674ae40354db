//! The facts one decoded frame carries: a content delta, a title, a tool
//! call request and a tool call result, each found by a fixed priority of
//! field layouts; and the array-shaped tool calls of the non-streaming flow.
use vstd::prelude::*;
use vstd::string::*;
use crate::json::{
    Json,
    field,
    text_of,
    str_field,
    pretty_text,
    compact_text,
    str_eq,
    get_str,
    pretty_json,
    compact_json,
};
use crate::registry::{ToolCall, ToolCallView, ToolStatus, registered, opt_text};

verus! {

/// Tool output longer than this many characters loses its tail.
pub const MAX_OUTPUT_CHARS: usize = 1000000;

pub open spec fn view_str(r: Option<&str>) -> Option<Seq<char>> {
    match r {
        Some(s) => Some(s@),
        None => None,
    }
}

pub open spec fn text_or(o: Option<Seq<char>>, d: Seq<char>) -> Seq<char> {
    match o {
        Some(s) => s,
        None => d,
    }
}

/// `v.type` as a string, empty when absent or not a string.
pub open spec fn msg_type(v: Json) -> Seq<char> {
    text_or(str_field(v, "type"@), seq![])
}

/// The content delta: `v.answer`, else `v.content.answer`, else a string
/// `v.content` in an answer frame or an assistant frame.
pub open spec fn content_delta(v: Json) -> Option<Seq<char>> {
    if str_field(v, "answer"@) is Some {
        str_field(v, "answer"@)
    } else {
        match field(v, "content"@) {
            Some(c) => if str_field(c, "answer"@) is Some {
                str_field(c, "answer"@)
            } else if (c is Str) && (msg_type(v) == "answer"@ || str_field(v, "role"@) == Some(
                "assistant"@,
            )) {
                text_of(Some(c))
            } else {
                None
            },
            None => None,
        }
    }
}

/// The title, first match wins: `v.title`, else a string `v.content` in a
/// title frame, else `v.content.title`.
pub open spec fn title_of(v: Json) -> Option<Seq<char>> {
    if str_field(v, "title"@) is Some {
        str_field(v, "title"@)
    } else if msg_type(v) == "title"@ && str_field(v, "content"@) is Some {
        str_field(v, "content"@)
    } else {
        match field(v, "content"@) {
            Some(c) => str_field(c, "title"@),
            None => None,
        }
    }
}

/// `v.content[key]`, if present.
pub open spec fn inner(v: Json, key: Seq<char>) -> Option<Json> {
    match field(v, "content"@) {
        Some(c) => field(c, key),
        None => None,
    }
}

/// The call a `tool_request` frame asks for, running and without output.
pub open spec fn tool_request_of(v: Json) -> Option<ToolCallView> {
    if msg_type(v) == "tool_request"@ {
        match inner(v, "tool_request"@) {
            Some(r) => match str_field(r, "tool_call_id"@) {
                Some(id) => Some(
                    ToolCallView {
                        id: id,
                        tool_name: text_or(str_field(r, "tool_name"@), "Unknown"@),
                        tool_input: match field(r, "parameters"@) {
                            Some(p) => pretty_text(p),
                            None => seq![],
                        },
                        tool_output: None,
                        status: ToolStatus::Running,
                    },
                ),
                None => None,
            },
            None => None,
        }
    } else {
        None
    }
}

/// `s` cut to its first `MAX_OUTPUT_CHARS` characters with a marker
/// appended, when it is longer than that.
pub open spec fn truncated(s: Seq<char>) -> Seq<char> {
    if s.len() > MAX_OUTPUT_CHARS {
        s.take(MAX_OUTPUT_CHARS as int) + "...(truncated)"@
    } else {
        s
    }
}

/// What a `tool_response` frame reports for a call.
pub struct ToolResultView {
    pub id: Seq<char>,
    pub status: ToolStatus,
    pub output: Option<Seq<char>>,
}

/// The outcome a `tool_response` frame reports: success when `code` is
/// `"0"` or absent; the result text, if a string, truncated.
pub open spec fn tool_response_of(v: Json) -> Option<ToolResultView> {
    if msg_type(v) == "tool_response"@ {
        match inner(v, "tool_response"@) {
            Some(r) => match str_field(r, "tool_call_id"@) {
                Some(id) => Some(
                    ToolResultView {
                        id: id,
                        status: if text_or(str_field(r, "code"@), "0"@) == "0"@ {
                            ToolStatus::Success
                        } else {
                            ToolStatus::Error
                        },
                        output: match str_field(r, "result"@) {
                            Some(s) => Some(truncated(s)),
                            None => None,
                        },
                    },
                ),
                None => None,
            },
            None => None,
        }
    } else {
        None
    }
}

/// The elements of `v[key]` when it is an array, else none.
pub open spec fn array_field(v: Json, key: Seq<char>) -> Seq<Json> {
    match field(v, key) {
        Some(Json::Array(items)) => items@,
        _ => seq![],
    }
}

/// The call an element of a `tool_calls` array describes, if it has an id.
pub open spec fn listed_call(e: Json) -> Option<ToolCallView> {
    match str_field(e, "id"@) {
        Some(id) => Some(
            ToolCallView {
                id: id,
                tool_name: text_or(str_field(e, "name"@), "Unknown"@),
                tool_input: match field(e, "args"@) {
                    Some(a) => compact_text(a),
                    None => seq![],
                },
                tool_output: None,
                status: ToolStatus::Running,
            },
        ),
        None => None,
    }
}

/// Registering, in order, each call that the elements describe.
pub open spec fn register_listed(calls: Seq<ToolCallView>, items: Seq<Json>) -> Seq<ToolCallView>
    decreases items.len(),
{
    if items.len() == 0 {
        calls
    } else {
        let before = register_listed(calls, items.drop_last());
        match listed_call(items.last()) {
            Some(c) => registered(before, c),
            None => before,
        }
    }
}

/// The calls after the array-shaped `tool_calls` of `v` and then of an
/// object `v.content` are registered.
pub open spec fn register_arrays(calls: Seq<ToolCallView>, v: Json) -> Seq<ToolCallView> {
    let first = register_listed(calls, array_field(v, "tool_calls"@));
    match field(v, "content"@) {
        Some(c) => if c is Object {
            register_listed(first, array_field(c, "tool_calls"@))
        } else {
            first
        },
        None => first,
    }
}

/// `v.type`, or the empty string.
pub fn msg_type_of(v: &Json) -> (r: &str)
    ensures
        r@ == msg_type(*v),
{
    match get_str(v, "type") {
        Some(t) => t,
        None => {
            proof {
                reveal_strlit("");
            }
            assert(""@ =~= Seq::<char>::empty());
            ""
        },
    }
}

/// The content delta of a frame.
pub fn content_delta_of(v: &Json) -> (r: Option<&str>)
    ensures
        view_str(r) == content_delta(*v),
{
    if let Some(a) = get_str(v, "answer") {
        return Some(a);
    }
    match v.get("content") {
        Some(c) => {
            if let Some(a) = get_str(c, "answer") {
                Some(a)
            } else {
                match c.as_str() {
                    Some(s) => {
                        let is_answer = str_eq(msg_type_of(v), "answer");
                        let is_assistant = match get_str(v, "role") {
                            Some(r) => str_eq(r, "assistant"),
                            None => false,
                        };
                        if is_answer || is_assistant {
                            Some(s)
                        } else {
                            None
                        }
                    },
                    None => None,
                }
            }
        },
        None => None,
    }
}

/// The title a frame carries.
pub fn title_in(v: &Json) -> (r: Option<&str>)
    ensures
        view_str(r) == title_of(*v),
{
    if let Some(t) = get_str(v, "title") {
        Some(t)
    } else if str_eq(msg_type_of(v), "title") && get_str(v, "content").is_some() {
        get_str(v, "content")
    } else {
        match v.get("content") {
            Some(c) => get_str(c, "title"),
            None => None,
        }
    }
}

/// `v.content[key]`.
fn inner_of<'a>(v: &'a Json, key: &str) -> (r: Option<&'a Json>)
    ensures
        match r {
            Some(x) => inner(*v, key@) == Some(*x),
            None => inner(*v, key@) is None,
        },
{
    match v.get("content") {
        Some(c) => c.get(key),
        None => None,
    }
}

/// The text of an optional string, or `d`.
fn owned_or(o: Option<&str>, d: &str) -> (r: String)
    ensures
        r@ == text_or(view_str(o), d@),
{
    match o {
        Some(s) => String::from_str(s),
        None => String::from_str(d),
    }
}

/// The call a `tool_request` frame asks for.
pub fn tool_request_in(v: &Json) -> (r: Option<ToolCall>)
    ensures
        match r {
            Some(c) => tool_request_of(*v) == Some(c@),
            None => tool_request_of(*v) is None,
        },
{
    if !str_eq(msg_type_of(v), "tool_request") {
        return None;
    }
    let req = match inner_of(v, "tool_request") {
        Some(r) => r,
        None => return None,
    };
    let id = match get_str(req, "tool_call_id") {
        Some(id) => id,
        None => return None,
    };
    let tool_input = match req.get("parameters") {
        Some(p) => pretty_json(p),
        None => String::new(),
    };
    Some(
        ToolCall {
            id: String::from_str(id),
            tool_name: owned_or(get_str(req, "tool_name"), "Unknown"),
            tool_input,
            tool_output: None,
            status: ToolStatus::Running,
        },
    )
}

/// `s`, or its first `MAX_OUTPUT_CHARS` characters followed by
/// `...(truncated)` when it is longer.
pub fn truncate_output(s: &str) -> (r: String)
    ensures
        r@ == truncated(s@),
{
    let n = s.unicode_len();
    if n > MAX_OUTPUT_CHARS {
        let mut r = String::from_str(s.substring_char(0, MAX_OUTPUT_CHARS));
        r.append("...(truncated)");
        r
    } else {
        String::from_str(s)
    }
}

/// What a `tool_response` frame reports.
pub struct ToolResult {
    pub id: String,
    pub status: ToolStatus,
    pub output: Option<String>,
}

impl View for ToolResult {
    type V = ToolResultView;

    open spec fn view(&self) -> ToolResultView {
        ToolResultView { id: self.id@, status: self.status, output: opt_text(self.output) }
    }
}

/// The outcome a `tool_response` frame reports.
pub fn tool_response_in(v: &Json) -> (r: Option<ToolResult>)
    ensures
        match r {
            Some(t) => tool_response_of(*v) == Some(t@),
            None => tool_response_of(*v) is None,
        },
{
    if !str_eq(msg_type_of(v), "tool_response") {
        return None;
    }
    let res = match inner_of(v, "tool_response") {
        Some(r) => r,
        None => return None,
    };
    let id = match get_str(res, "tool_call_id") {
        Some(id) => id,
        None => return None,
    };
    let code = match get_str(res, "code") {
        Some(c) => c,
        None => "0",
    };
    let status = if str_eq(code, "0") {
        ToolStatus::Success
    } else {
        ToolStatus::Error
    };
    let output = match get_str(res, "result") {
        Some(s) => Some(truncate_output(s)),
        None => None,
    };
    Some(ToolResult { id: String::from_str(id), status, output })
}

/// The call an element of a `tool_calls` array describes.
pub fn listed_call_in(e: &Json) -> (r: Option<ToolCall>)
    ensures
        match r {
            Some(c) => listed_call(*e) == Some(c@),
            None => listed_call(*e) is None,
        },
{
    let id = match get_str(e, "id") {
        Some(id) => id,
        None => return None,
    };
    let tool_input = match e.get("args") {
        Some(a) => compact_json(a),
        None => String::new(),
    };
    Some(
        ToolCall {
            id: String::from_str(id),
            tool_name: owned_or(get_str(e, "name"), "Unknown"),
            tool_input,
            tool_output: None,
            status: ToolStatus::Running,
        },
    )
}

} // verus!
