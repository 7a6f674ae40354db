//! The running state of one chat exchange and the events that folding each
//! frame into it produces.
use vstd::prelude::*;
use vstd::string::*;
use crate::json::{Json, array_field_items};
use crate::extract::{
    content_delta,
    title_of,
    tool_request_of,
    tool_response_of,
    register_listed,
    register_arrays,
    array_field,
    content_delta_of,
    title_in,
    tool_request_in,
    tool_response_in,
    listed_call_in,
};
use crate::registry::{
    ToolCall,
    ToolCallView,
    ToolCallRegistry,
    registered,
    completed,
    finishable,
    has_id,
    index_of,
    unique_ids,
    views_of,
    opt_text,
};

verus! {

/// The kind of an event handed to the UI layer.
#[derive(Clone, Copy, Debug, PartialEq, Eq, Structural)]
pub enum EventKind {
    Content,
    ToolCall,
    ToolResult,
    Done,
    Error,
}

impl EventKind {
    /// The tag used on the wire.
    pub fn as_str(&self) -> (r: &'static str)
        ensures
            r@ == kind_name(*self),
    {
        match self {
            EventKind::Content => "content",
            EventKind::ToolCall => "tool_call",
            EventKind::ToolResult => "tool_result",
            EventKind::Done => "done",
            EventKind::Error => "error",
        }
    }
}

pub open spec fn kind_name(k: EventKind) -> Seq<char> {
    match k {
        EventKind::Content => "content"@,
        EventKind::ToolCall => "tool_call"@,
        EventKind::ToolResult => "tool_result"@,
        EventKind::Done => "done"@,
        EventKind::Error => "error"@,
    }
}

/// An event for the UI layer: a content delta with the text so far, a tool
/// call that started, a tool call that finished with all calls so far, the
/// end of the reply, or an error.
#[derive(Clone, Debug)]
pub struct StreamEvent {
    pub event_type: EventKind,
    pub content: Option<String>,
    pub tool_call: Option<ToolCall>,
    pub full_content: Option<String>,
    pub tool_calls: Option<Vec<ToolCall>>,
}

pub struct EventView {
    pub kind: EventKind,
    pub content: Option<Seq<char>>,
    pub tool_call: Option<ToolCallView>,
    pub full_content: Option<Seq<char>>,
    pub tool_calls: Option<Seq<ToolCallView>>,
}

impl View for StreamEvent {
    type V = EventView;

    open spec fn view(&self) -> EventView {
        EventView {
            kind: self.event_type,
            content: opt_text(self.content),
            tool_call: match self.tool_call {
                Some(c) => Some(c@),
                None => None,
            },
            full_content: opt_text(self.full_content),
            tool_calls: match self.tool_calls {
                Some(v) => Some(views_of(v@)),
                None => None,
            },
        }
    }
}

pub open spec fn event_views(s: Seq<StreamEvent>) -> Seq<EventView> {
    s.map_values(|e: StreamEvent| e@)
}

pub open spec fn content_event(delta: Seq<char>, full: Seq<char>) -> EventView {
    EventView {
        kind: EventKind::Content,
        content: Some(delta),
        tool_call: None,
        full_content: Some(full),
        tool_calls: None,
    }
}

pub open spec fn started_event(c: ToolCallView) -> EventView {
    EventView {
        kind: EventKind::ToolCall,
        content: None,
        tool_call: Some(c),
        full_content: None,
        tool_calls: None,
    }
}

pub open spec fn finished_event(c: ToolCallView, all: Seq<ToolCallView>) -> EventView {
    EventView {
        kind: EventKind::ToolResult,
        content: None,
        tool_call: Some(c),
        full_content: None,
        tool_calls: Some(all),
    }
}

/// The tool calls as the final event carries them: none when empty.
pub open spec fn calls_if_any(calls: Seq<ToolCallView>) -> Option<Seq<ToolCallView>> {
    if calls.len() == 0 {
        None
    } else {
        Some(calls)
    }
}

pub open spec fn done_event(full: Seq<char>, calls: Seq<ToolCallView>) -> EventView {
    EventView {
        kind: EventKind::Done,
        content: None,
        tool_call: None,
        full_content: Some(full),
        tool_calls: calls_if_any(calls),
    }
}

pub open spec fn error_event(message: Seq<char>) -> EventView {
    EventView {
        kind: EventKind::Error,
        content: Some(message),
        tool_call: None,
        full_content: None,
        tool_calls: None,
    }
}

/// The state of one exchange: the reply so far, the latest title, the calls.
pub struct SessionView {
    pub full_response: Seq<char>,
    pub title: Option<Seq<char>>,
    pub tool_calls: Seq<ToolCallView>,
}

pub open spec fn fresh_session() -> SessionView {
    SessionView { full_response: seq![], title: None, tool_calls: seq![] }
}

/// The content delta appended to the reply.
pub open spec fn after_content(s: SessionView, v: Json) -> SessionView {
    match content_delta(v) {
        Some(d) => SessionView { full_response: s.full_response + d, ..s },
        None => s,
    }
}

/// The most recent title wins.
pub open spec fn after_title(s: SessionView, v: Json) -> SessionView {
    match title_of(v) {
        Some(t) => SessionView { title: Some(t), ..s },
        None => s,
    }
}

pub open spec fn after_request(s: SessionView, v: Json) -> SessionView {
    match tool_request_of(v) {
        Some(c) => SessionView { tool_calls: registered(s.tool_calls, c), ..s },
        None => s,
    }
}

pub open spec fn after_response(s: SessionView, v: Json) -> SessionView {
    match tool_response_of(v) {
        Some(r) => SessionView { tool_calls: completed(s.tool_calls, r.id, r.status, r.output), ..s },
        None => s,
    }
}

/// The state after the rules are applied to frame `v` in their fixed order.
pub open spec fn step(s: SessionView, v: Json) -> SessionView {
    after_response(after_request(after_title(after_content(s, v), v), v), v)
}

pub open spec fn content_events(s: SessionView, v: Json) -> Seq<EventView> {
    match content_delta(v) {
        Some(d) => if d.len() > 0 {
            seq![content_event(d, s.full_response + d)]
        } else {
            seq![]
        },
        None => seq![],
    }
}

pub open spec fn request_events(s: SessionView, v: Json) -> Seq<EventView> {
    match tool_request_of(v) {
        Some(c) => if !has_id(s.tool_calls, c.id) {
            seq![started_event(c)]
        } else {
            seq![]
        },
        None => seq![],
    }
}

pub open spec fn response_events(s: SessionView, v: Json) -> Seq<EventView> {
    match tool_response_of(v) {
        Some(r) => if finishable(s.tool_calls, r.id) {
            let all = completed(s.tool_calls, r.id, r.status, r.output);
            seq![finished_event(all[index_of(s.tool_calls, r.id)], all)]
        } else {
            seq![]
        },
        None => seq![],
    }
}

/// The events that folding frame `v` into `s` produces, in order.
pub open spec fn step_events(s: SessionView, v: Json) -> Seq<EventView> {
    let s1 = after_title(after_content(s, v), v);
    content_events(s, v) + request_events(s1, v) + response_events(after_request(s1, v), v)
}

/// The non-streaming fold: the same rules, then the array-shaped calls.
pub open spec fn step_batch(s: SessionView, v: Json) -> SessionView {
    SessionView { tool_calls: register_arrays(step(s, v).tool_calls, v), ..step(s, v) }
}

/// The state of one chat exchange.
pub struct Session {
    full_response: String,
    title: Option<String>,
    tool_calls: ToolCallRegistry,
}

impl View for Session {
    type V = SessionView;

    closed spec fn view(&self) -> SessionView {
        SessionView {
            full_response: self.full_response@,
            title: opt_text(self.title),
            tool_calls: self.tool_calls@,
        }
    }
}

/// Registers, in order, the calls listed in the array `v[tool_calls]`.
fn register_array(reg: &mut ToolCallRegistry, v: &Json)
    requires
        old(reg).wf(),
    ensures
        final(reg).wf(),
        final(reg)@ == register_listed(old(reg)@, array_field(*v, "tool_calls"@)),
{
    let items = match array_field_items(v, "tool_calls") {
        Some(items) => items,
        None => {
            assert(register_listed(old(reg)@, seq![]) == old(reg)@);
            return ;
        },
    };
    let mut i: usize = 0;
    while i < items.len()
        invariant
            reg.wf(),
            0 <= i <= items@.len(),
            items@ == array_field(*v, "tool_calls"@),
            reg@ == register_listed(old(reg)@, items@.take(i as int)),
        decreases items@.len() - i,
    {
        assert(items@.take(i + 1).drop_last() =~= items@.take(i as int));
        if let Some(c) = listed_call_in(&items[i]) {
            reg.register(c);
        }
        i += 1;
    }
    assert(items@.take(i as int) =~= items@);
}

impl Session {
    pub open spec fn wf(&self) -> bool {
        unique_ids(self@.tool_calls)
    }

    pub fn new() -> (r: Session)
        ensures
            r@ == fresh_session(),
            r.wf(),
    {
        Session { full_response: String::new(), title: None, tool_calls: ToolCallRegistry::new() }
    }

    /// The reply text so far.
    pub fn full_response(&self) -> (r: &String)
        ensures
            r@ == self@.full_response,
    {
        &self.full_response
    }

    /// The latest title, if any frame carried one.
    pub fn title(&self) -> (r: &Option<String>)
        ensures
            opt_text(*r) == self@.title,
    {
        &self.title
    }

    /// The tool calls in first-seen order.
    pub fn tool_calls(&self) -> (r: &ToolCallRegistry)
        ensures
            r@ == self@.tool_calls,
            r.wf() == self.wf(),
    {
        &self.tool_calls
    }

    /// Folds frame `v` into the state (streaming flow) and returns the events
    /// it produces.
    pub fn apply_frame(&mut self, v: &Json) -> (events: Vec<StreamEvent>)
        requires
            old(self).wf(),
        ensures
            final(self).wf(),
            final(self)@ == step(old(self)@, *v),
            event_views(events@) == step_events(old(self)@, *v),
    {
        let ghost s0 = self@;
        let mut events: Vec<StreamEvent> = Vec::new();
        if let Some(d) = content_delta_of(v) {
            self.full_response.append(d);
            if !d.is_empty() {
                events.push(
                    StreamEvent {
                        event_type: EventKind::Content,
                        content: Some(String::from_str(d)),
                        tool_call: None,
                        full_content: Some(self.full_response.clone()),
                        tool_calls: None,
                    },
                );
            }
        }
        assert(self@ == after_content(s0, *v));
        assert(event_views(events@) =~= content_events(s0, *v));
        if let Some(t) = title_in(v) {
            self.title = Some(String::from_str(t));
        }
        let ghost s1 = self@;
        let ghost e1 = events@;
        assert(s1 == after_title(after_content(s0, *v), *v));
        if let Some(call) = tool_request_in(v) {
            let shown = call.duplicate();
            if self.tool_calls.register(call) {
                events.push(
                    StreamEvent {
                        event_type: EventKind::ToolCall,
                        content: None,
                        tool_call: Some(shown),
                        full_content: None,
                        tool_calls: None,
                    },
                );
            }
        }
        let ghost s2 = self@;
        let ghost e2 = events@;
        assert(s2 == after_request(s1, *v));
        assert(event_views(e2) =~= event_views(e1) + request_events(s1, *v));
        if let Some(res) = tool_response_in(v) {
            if let Some(i) = self.tool_calls.complete(res.id.as_str(), res.status, res.output) {
                let shown = self.tool_calls.at(i).duplicate();
                let all = self.tool_calls.snapshot();
                events.push(
                    StreamEvent {
                        event_type: EventKind::ToolResult,
                        content: None,
                        tool_call: Some(shown),
                        full_content: None,
                        tool_calls: Some(all),
                    },
                );
            }
        }
        assert(self@ == after_response(s2, *v));
        assert(event_views(events@) =~= event_views(e2) + response_events(s2, *v));
        events
    }

    /// Registers the array-shaped tool calls of frame `v`, which only the
    /// non-streaming flow reads.
    pub fn apply_listed_calls(&mut self, v: &Json)
        requires
            old(self).wf(),
        ensures
            final(self).wf(),
            final(self)@ == (SessionView {
                tool_calls: register_arrays(old(self)@.tool_calls, *v),
                ..old(self)@
            }),
    {
        register_array(&mut self.tool_calls, v);
        match v.get("content") {
            Some(c) => {
                if c.is_object() {
                    register_array(&mut self.tool_calls, c);
                }
            },
            None => {},
        }
    }

    /// The terminal event of a finished stream: the whole reply, and the calls
    /// when there are any.
    pub fn done_event(&self) -> (r: StreamEvent)
        ensures
            r@ == done_event(self@.full_response, self@.tool_calls),
    {
        let calls = if self.tool_calls.is_empty() {
            None
        } else {
            Some(self.tool_calls.snapshot())
        };
        StreamEvent {
            event_type: EventKind::Done,
            content: None,
            tool_call: None,
            full_content: Some(self.full_response.clone()),
            tool_calls: calls,
        }
    }

    /// The final values of the exchange: the reply, the title, and the calls
    /// when there are any.
    pub fn into_parts(self) -> (r: (String, Option<String>, Option<Vec<ToolCall>>))
        ensures
            r.0@ == self@.full_response,
            opt_text(r.1) == self@.title,
            match r.2 {
                Some(v) => views_of(v@) == self@.tool_calls && self@.tool_calls.len() > 0,
                None => self@.tool_calls.len() == 0,
            },
    {
        let calls = if self.tool_calls.is_empty() {
            None
        } else {
            Some(self.tool_calls.snapshot())
        };
        (self.full_response, self.title, calls)
    }
}

} // verus!
