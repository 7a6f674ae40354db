//! Tool calls requested by the backend, and the insertion-ordered registry
//! that tracks each one from request to result.
use vstd::prelude::*;

verus! {

/// Where a tool call stands: `Running` until its result arrives, then
/// `Success` or `Error` for good.
#[derive(Clone, Copy, Debug, PartialEq, Eq, Structural)]
pub enum ToolStatus {
    Running,
    Success,
    Error,
}

impl ToolStatus {
    /// The lower-case name used on the wire and in storage.
    pub fn as_str(&self) -> (r: &'static str)
        ensures
            r@ == status_name(*self),
    {
        match self {
            ToolStatus::Running => "running",
            ToolStatus::Success => "success",
            ToolStatus::Error => "error",
        }
    }
}

pub open spec fn status_name(s: ToolStatus) -> Seq<char> {
    match s {
        ToolStatus::Running => "running"@,
        ToolStatus::Success => "success"@,
        ToolStatus::Error => "error"@,
    }
}

/// One tool invocation; identity is `id`.
#[derive(Clone, Debug)]
pub struct ToolCall {
    pub id: String,
    pub tool_name: String,
    pub tool_input: String,
    pub tool_output: Option<String>,
    pub status: ToolStatus,
}

/// The mathematical content of a `ToolCall`.
pub struct ToolCallView {
    pub id: Seq<char>,
    pub tool_name: Seq<char>,
    pub tool_input: Seq<char>,
    pub tool_output: Option<Seq<char>>,
    pub status: ToolStatus,
}

pub open spec fn opt_text(o: Option<String>) -> Option<Seq<char>> {
    match o {
        Some(s) => Some(s@),
        None => None,
    }
}

impl View for ToolCall {
    type V = ToolCallView;

    open spec fn view(&self) -> ToolCallView {
        ToolCallView {
            id: self.id@,
            tool_name: self.tool_name@,
            tool_input: self.tool_input@,
            tool_output: opt_text(self.tool_output),
            status: self.status,
        }
    }
}

pub fn copy_text(o: &Option<String>) -> (r: Option<String>)
    ensures
        opt_text(r) == opt_text(*o),
{
    match o {
        Some(s) => Some(s.clone()),
        None => None,
    }
}

impl ToolCall {
    /// A field-by-field copy.
    pub fn duplicate(&self) -> (r: ToolCall)
        ensures
            r@ == self@,
    {
        ToolCall {
            id: self.id.clone(),
            tool_name: self.tool_name.clone(),
            tool_input: self.tool_input.clone(),
            tool_output: copy_text(&self.tool_output),
            status: self.status,
        }
    }
}

pub open spec fn views_of(v: Seq<ToolCall>) -> Seq<ToolCallView> {
    v.map_values(|c: ToolCall| c@)
}

/// Some call in `calls` has this id.
pub open spec fn has_id(calls: Seq<ToolCallView>, id: Seq<char>) -> bool {
    exists|i: int| 0 <= i < calls.len() && calls[i].id == id
}

/// No two calls share an id.
pub open spec fn unique_ids(calls: Seq<ToolCallView>) -> bool {
    forall|i: int, j: int|
        0 <= i < calls.len() && 0 <= j < calls.len() && i != j ==> calls[i].id != calls[j].id
}

/// The position of the call with this id (meaningful when `has_id`).
pub open spec fn index_of(calls: Seq<ToolCallView>, id: Seq<char>) -> int {
    choose|i: int| 0 <= i < calls.len() && calls[i].id == id
}

/// The number of calls with this id.
pub open spec fn count_id(calls: Seq<ToolCallView>, id: Seq<char>) -> nat
    decreases calls.len(),
{
    if calls.len() == 0 {
        0
    } else {
        count_id(calls.drop_last(), id) + if calls.last().id == id {
            1nat
        } else {
            0nat
        }
    }
}

/// Registering `c`: appended when its id is new, otherwise nothing changes.
pub open spec fn registered(calls: Seq<ToolCallView>, c: ToolCallView) -> Seq<ToolCallView> {
    if has_id(calls, c.id) {
        calls
    } else {
        calls.push(c)
    }
}

/// The call with this id exists and is still running.
pub open spec fn finishable(calls: Seq<ToolCallView>, id: Seq<char>) -> bool {
    has_id(calls, id) && calls[index_of(calls, id)].status == ToolStatus::Running
}

/// `c` after its one transition out of `Running`.
pub open spec fn finished_call(
    c: ToolCallView,
    status: ToolStatus,
    output: Option<Seq<char>>,
) -> ToolCallView {
    ToolCallView { status: status, tool_output: output, ..c }
}

/// Completing the call with this id: only a running call changes.
pub open spec fn completed(
    calls: Seq<ToolCallView>,
    id: Seq<char>,
    status: ToolStatus,
    output: Option<Seq<char>>,
) -> Seq<ToolCallView> {
    if finishable(calls, id) {
        let i = index_of(calls, id);
        calls.update(i, finished_call(calls[i], status, output))
    } else {
        calls
    }
}

/// Tool calls in first-seen order, unique by id.
pub struct ToolCallRegistry {
    calls: Vec<ToolCall>,
}

impl View for ToolCallRegistry {
    type V = Seq<ToolCallView>;

    closed spec fn view(&self) -> Seq<ToolCallView> {
        views_of(self.calls@)
    }
}

impl ToolCallRegistry {
    pub open spec fn wf(&self) -> bool {
        unique_ids(self@)
    }

    pub fn new() -> (r: ToolCallRegistry)
        ensures
            r@ == Seq::<ToolCallView>::empty(),
            r.wf(),
    {
        let r = ToolCallRegistry { calls: Vec::new() };
        assert(r@ =~= Seq::<ToolCallView>::empty());
        r
    }

    pub fn len(&self) -> (r: usize)
        ensures
            r == self@.len(),
    {
        self.calls.len()
    }

    pub fn is_empty(&self) -> (r: bool)
        ensures
            r == (self@.len() == 0),
    {
        self.calls.len() == 0
    }

    /// The call at position `i`.
    pub fn at(&self, i: usize) -> (r: &ToolCall)
        requires
            i < self@.len(),
        ensures
            r@ == self@[i as int],
    {
        &self.calls[i]
    }

    /// The position of the call with this id, if any.
    pub fn position(&self, id: &str) -> (r: Option<usize>)
        requires
            self.wf(),
        ensures
            match r {
                Some(i) => i < self@.len() && self@[i as int].id == id@ && i == index_of(
                    self@,
                    id@,
                ),
                None => !has_id(self@, id@),
            },
    {
        let mut i: usize = 0;
        while i < self.calls.len()
            invariant
                self.wf(),
                0 <= i <= self@.len(),
                self@.len() == self.calls@.len(),
                forall|j: int| 0 <= j < i ==> self@[j].id != id@,
            decreases self.calls@.len() - i,
        {
            if crate::json::str_eq(self.calls[i].id.as_str(), id) {
                assert(self@[i as int].id == id@);
                assert(has_id(self@, id@));
                let ghost k = index_of(self@, id@);
                assert(self@[k].id == id@ && 0 <= k < self@.len());
                assert(k == i as int) by {
                    if k != i as int {
                        assert(self@[k].id != self@[i as int].id);
                    }
                }
                return Some(i);
            }
            i += 1;
        }
        None
    }

    /// Appends `call` unless its id is already present; says whether it did.
    pub fn register(&mut self, call: ToolCall) -> (added: bool)
        requires
            old(self).wf(),
        ensures
            final(self).wf(),
            final(self)@ == registered(old(self)@, call@),
            added == !has_id(old(self)@, call@.id),
    {
        match self.position(call.id.as_str()) {
            Some(_) => false,
            None => {
                let ghost c = call@;
                self.calls.push(call);
                assert(self@ =~= old(self)@.push(c));
                true
            },
        }
    }

    /// Moves the running call with this id to `status` with `output`; says
    /// where it stands, or `None` when there is no such running call.
    pub fn complete(&mut self, id: &str, status: ToolStatus, output: Option<String>) -> (r: Option<
        usize,
    >)
        requires
            old(self).wf(),
        ensures
            final(self).wf(),
            final(self)@ == completed(old(self)@, id@, status, opt_text(output)),
            match r {
                Some(i) => finishable(old(self)@, id@) && i == index_of(old(self)@, id@),
                None => !finishable(old(self)@, id@),
            },
    {
        match self.position(id) {
            Some(i) => {
                if self.calls[i].status == ToolStatus::Running {
                    let ghost out = opt_text(output);
                    self.calls[i].status = status;
                    self.calls[i].tool_output = output;
                    assert(self@ =~= old(self)@.update(
                        i as int,
                        finished_call(old(self)@[i as int], status, out),
                    ));
                    Some(i)
                } else {
                    None
                }
            },
            None => None,
        }
    }

    /// A copy of every call, in order.
    pub fn snapshot(&self) -> (r: Vec<ToolCall>)
        ensures
            views_of(r@) == self@,
    {
        let mut out: Vec<ToolCall> = Vec::new();
        let mut i: usize = 0;
        while i < self.calls.len()
            invariant
                0 <= i <= self.calls@.len(),
                views_of(out@) == views_of(self.calls@.take(i as int)),
            decreases self.calls@.len() - i,
        {
            let c = self.calls[i].duplicate();
            let ghost before = out@;
            out.push(c);
            assert(self.calls@.take(i + 1) =~= self.calls@.take(i as int).push(self.calls@[i as int]));
            assert(views_of(out@) =~= views_of(before).push(c@));
            assert(views_of(self.calls@.take(i + 1)) =~= views_of(self.calls@.take(i as int)).push(
                self.calls@[i as int]@,
            ));
            i += 1;
        }
        assert(self.calls@.take(i as int) =~= self.calls@);
        out
    }
}

} // verus!
