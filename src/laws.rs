//! Laws of the decoder that relate several calls or hold of every input.
use vstd::prelude::*;
use vstd::utf8::{
    valid_utf8,
    decode_utf8,
    length_of_first_scalar,
    pop_first_scalar,
    decode_first_scalar,
};
use crate::json::{Json, str_field, field};
use crate::extract::{
    content_delta,
    title_of,
    tool_request_of,
    tool_response_of,
    register_listed,
    listed_call,
    array_field,
};
use crate::registry::{
    ToolCallView,
    ToolStatus,
    registered,
    has_id,
    unique_ids,
    count_id,
    finishable,
    index_of,
};
use crate::session::{
    SessionView,
    EventView,
    EventKind,
    step,
    step_batch,
    step_events,
    content_events,
    request_events,
    response_events,
    after_content,
    after_title,
    after_request,
    fresh_session,
};
use crate::stream::{
    DecoderView,
    split_text,
    run_lines,
    run_events,
    line_events,
    on_line,
    decoded,
    decoded_events,
    lossy_text,
    frame_of,
    trimmed_text,
};

verus! {

/// The bytes of the chunks, one after the other.
pub open spec fn flatten_bytes(chunks: Seq<Seq<u8>>) -> Seq<u8>
    decreases chunks.len(),
{
    if chunks.len() == 0 {
        seq![]
    } else {
        flatten_bytes(chunks.drop_last()) + chunks.last()
    }
}

/// The decoded texts of the chunks, one after the other.
pub open spec fn decode_each(chunks: Seq<Seq<u8>>) -> Seq<char>
    decreases chunks.len(),
{
    if chunks.len() == 0 {
        seq![]
    } else {
        decode_each(chunks.drop_last()) + lossy_text(chunks.last())
    }
}

/// The decoder after `ChatStream::feed` of each chunk in turn.
pub open spec fn fed(d: DecoderView, chunks: Seq<Seq<u8>>) -> DecoderView
    decreases chunks.len(),
{
    if chunks.len() == 0 {
        d
    } else {
        decoded(fed(d, chunks.drop_last()), lossy_text(chunks.last()))
    }
}

/// The events of `ChatStream::feed` of each chunk in turn.
pub open spec fn fed_events(d: DecoderView, chunks: Seq<Seq<u8>>) -> Seq<EventView>
    decreases chunks.len(),
{
    if chunks.len() == 0 {
        seq![]
    } else {
        fed_events(d, chunks.drop_last()) + decoded_events(
            fed(d, chunks.drop_last()),
            lossy_text(chunks.last()),
        )
    }
}

/// The delta an event carries, if it is a content event.
pub open spec fn delta_of(e: EventView) -> Seq<char> {
    if e.kind == EventKind::Content {
        match e.content {
            Some(d) => d,
            None => seq![],
        }
    } else {
        seq![]
    }
}

/// The deltas of the content events, one after the other.
pub open spec fn content_of(events: Seq<EventView>) -> Seq<char>
    decreases events.len(),
{
    if events.len() == 0 {
        seq![]
    } else {
        content_of(events.drop_last()) + delta_of(events.last())
    }
}

/// The number of events of one kind.
pub open spec fn count_kind(events: Seq<EventView>, kind: EventKind) -> nat
    decreases events.len(),
{
    if events.len() == 0 {
        0
    } else {
        count_kind(events.drop_last(), kind) + if events.last().kind == kind {
            1nat
        } else {
            0nat
        }
    }
}

/// A fresh decoder.
pub open spec fn start(listed: bool) -> DecoderView {
    DecoderView { carry: seq![], session: fresh_session(), listed: listed }
}

proof fn lemma_split_append(carry: Seq<char>, a: Seq<char>, b: Seq<char>)
    ensures
        split_text(carry, a + b) == ({
            let (l1, t1) = split_text(carry, a);
            let (l2, t2) = split_text(t1, b);
            (l1 + l2, t2)
        }),
    decreases b.len(),
{
    if b.len() == 0 {
        assert(a + b =~= a);
        let (l1, t1) = split_text(carry, a);
        assert(l1 + seq![] =~= l1);
    } else {
        lemma_split_append(carry, a, b.drop_last());
        assert((a + b).drop_last() =~= a + b.drop_last());
        let (l1, t1) = split_text(carry, a);
        let (l2, t2) = split_text(t1, b.drop_last());
        assert((l1 + l2).push(t2) =~= l1 + l2.push(t2));
    }
}

proof fn lemma_run_append(listed: bool, s: SessionView, l1: Seq<Seq<char>>, l2: Seq<Seq<char>>)
    ensures
        run_lines(listed, s, l1 + l2) == run_lines(listed, run_lines(listed, s, l1), l2),
        run_events(listed, s, l1 + l2) == run_events(listed, s, l1) + run_events(
            listed,
            run_lines(listed, s, l1),
            l2,
        ),
    decreases l2.len(),
{
    if l2.len() == 0 {
        assert(l1 + l2 =~= l1);
        assert(run_events(listed, s, l1) + seq![] =~= run_events(listed, s, l1));
    } else {
        lemma_run_append(listed, s, l1, l2.drop_last());
        assert((l1 + l2).drop_last() =~= l1 + l2.drop_last());
        assert((l1 + l2).last() == l2.last());
        let m = run_lines(listed, s, l1);
        assert(run_events(listed, s, l1) + run_events(listed, m, l2.drop_last()) + line_events(
            run_lines(listed, m, l2.drop_last()),
            l2.last(),
        ) =~= run_events(listed, s, l1) + (run_events(listed, m, l2.drop_last()) + line_events(
            run_lines(listed, m, l2.drop_last()),
            l2.last(),
        )));
    }
}

proof fn lemma_decoded_append(d: DecoderView, a: Seq<char>, b: Seq<char>)
    ensures
        decoded(d, a + b) == decoded(decoded(d, a), b),
        decoded_events(d, a + b) == decoded_events(d, a) + decoded_events(decoded(d, a), b),
{
    lemma_split_append(d.carry, a, b);
    let (l1, t1) = split_text(d.carry, a);
    let (l2, t2) = split_text(t1, b);
    lemma_run_append(d.listed, d.session, l1, l2);
}

proof fn lemma_fed(d: DecoderView, chunks: Seq<Seq<u8>>)
    ensures
        fed(d, chunks) == decoded(d, decode_each(chunks)),
        fed_events(d, chunks) == decoded_events(d, decode_each(chunks)),
    decreases chunks.len(),
{
    if chunks.len() == 0 {
        assert(split_text(d.carry, seq![]) == (Seq::<Seq<char>>::empty(), d.carry));
        assert(decoded(d, seq![]) == d);
    } else {
        lemma_fed(d, chunks.drop_last());
        lemma_decoded_append(d, decode_each(chunks.drop_last()), lossy_text(chunks.last()));
    }
}

proof fn lemma_content_of_append(x: Seq<EventView>, y: Seq<EventView>)
    ensures
        content_of(x + y) == content_of(x) + content_of(y),
    decreases y.len(),
{
    if y.len() == 0 {
        assert(x + y =~= x);
        assert(content_of(x) + seq![] =~= content_of(x));
    } else {
        lemma_content_of_append(x, y.drop_last());
        assert((x + y).drop_last() =~= x + y.drop_last());
        assert((x + y).last() == y.last());
        assert(content_of(x + y) =~= content_of(x) + content_of(y));
    }
}

proof fn lemma_count_kind_append(x: Seq<EventView>, y: Seq<EventView>, k: EventKind)
    ensures
        count_kind(x + y, k) == count_kind(x, k) + count_kind(y, k),
    decreases y.len(),
{
    if y.len() == 0 {
        assert(x + y =~= x);
    } else {
        lemma_count_kind_append(x, y.drop_last(), k);
        assert((x + y).drop_last() =~= x + y.drop_last());
        assert((x + y).last() == y.last());
    }
}

proof fn lemma_content_single(e: EventView)
    ensures
        content_of(seq![e]) == delta_of(e),
{
    let x = seq![e];
    assert(x.drop_last() =~= Seq::<EventView>::empty());
    assert(x.last() == e);
    assert(content_of(Seq::<EventView>::empty()) == Seq::<char>::empty());
    assert(Seq::<char>::empty() + delta_of(e) =~= delta_of(e));
}

proof fn lemma_step_content(s: SessionView, v: Json)
    ensures
        s.full_response + content_of(step_events(s, v)) == step(s, v).full_response,
        step_batch(s, v).full_response == step(s, v).full_response,
{
    let s1 = after_title(after_content(s, v), v);
    let ce = content_events(s, v);
    let re = request_events(s1, v);
    let pe = response_events(after_request(s1, v), v);
    assert(content_of(re) == Seq::<char>::empty()) by {
        if re.len() > 0 {
            lemma_content_single(re[0]);
            assert(re =~= seq![re[0]]);
        }
    }
    assert(content_of(pe) == Seq::<char>::empty()) by {
        if pe.len() > 0 {
            lemma_content_single(pe[0]);
            assert(pe =~= seq![pe[0]]);
        }
    }
    lemma_content_of_append(ce, re);
    lemma_content_of_append(ce + re, pe);
    match content_delta(v) {
        Some(d) => {
            if d.len() > 0 {
                lemma_content_single(ce[0]);
                assert(ce =~= seq![ce[0]]);
            } else {
                assert(d =~= seq![]);
            }
            assert(s.full_response + content_of(ce) =~= s.full_response + d);
        },
        None => {
            assert(s.full_response + content_of(ce) =~= s.full_response);
        },
    }
    assert(content_of(ce) + content_of(re) + content_of(pe) =~= content_of(ce));
}

proof fn lemma_run_content(listed: bool, s: SessionView, lines: Seq<Seq<char>>)
    ensures
        s.full_response + content_of(run_events(listed, s, lines)) == run_lines(
            listed,
            s,
            lines,
        ).full_response,
    decreases lines.len(),
{
    if lines.len() == 0 {
        assert(s.full_response + seq![] =~= s.full_response);
    } else {
        lemma_run_content(listed, s, lines.drop_last());
        let m = run_lines(listed, s, lines.drop_last());
        let le = line_events(m, lines.last());
        lemma_content_of_append(run_events(listed, s, lines.drop_last()), le);
        match frame_of(trimmed_text(lines.last())) {
            Some(v) => {
                lemma_step_content(m, v);
            },
            None => {
                assert(le =~= seq![]);
            },
        }
        assert(s.full_response + content_of(run_events(listed, s, lines)) =~= m.full_response
            + content_of(le));
    }
}

/// However a byte sequence is cut into chunks, the decoder ends in the same
/// state (so the final event carries the same reply), and the deltas of its
/// content events concatenate to that reply; this holds whenever each chunk
/// decodes to its own share of the whole, that is whenever no cut falls
/// inside a multi-byte character.
pub proof fn lemma_chunk_boundary_invariance(
    listed: bool,
    a: Seq<Seq<u8>>,
    b: Seq<Seq<u8>>,
)
    requires
        flatten_bytes(a) == flatten_bytes(b),
        decode_each(a) == lossy_text(flatten_bytes(a)),
        decode_each(b) == lossy_text(flatten_bytes(b)),
    ensures
        fed(start(listed), a) == fed(start(listed), b),
        content_of(fed_events(start(listed), a)) == fed(start(listed), a).session.full_response,
        content_of(fed_events(start(listed), b)) == fed(start(listed), b).session.full_response,
{
    let d = start(listed);
    lemma_fed(d, a);
    lemma_fed(d, b);
    lemma_run_content(listed, d.session, split_text(d.carry, decode_each(a)).0);
    lemma_run_content(listed, d.session, split_text(d.carry, decode_each(b)).0);
    assert(d.session.full_response + content_of(fed_events(d, a)) =~= content_of(fed_events(d, a)));
    assert(d.session.full_response + content_of(fed_events(d, b)) =~= content_of(fed_events(d, b)));
}

proof fn lemma_count_single(e: EventView, k: EventKind)
    ensures
        count_kind(seq![e], k) == if e.kind == k {
            1nat
        } else {
            0nat
        },
{
    let x = seq![e];
    assert(x.drop_last() =~= Seq::<EventView>::empty());
    assert(x.last() == e);
    assert(count_kind(Seq::<EventView>::empty(), k) == 0);
}

proof fn lemma_count_empty(k: EventKind)
    ensures
        count_kind(Seq::<EventView>::empty(), k) == 0,
{
}

proof fn lemma_registered_unique(calls: Seq<ToolCallView>, c: ToolCallView)
    requires
        unique_ids(calls),
    ensures
        unique_ids(registered(calls, c)),
        has_id(registered(calls, c), c.id),
{
    if !has_id(calls, c.id) {
        let r = calls.push(c);
        assert(r[calls.len() as int].id == c.id);
        assert forall|i: int, j: int|
            0 <= i < r.len() && 0 <= j < r.len() && i != j implies r[i].id != r[j].id by {
            if i < calls.len() && j < calls.len() {
                assert(calls[i].id != calls[j].id);
            } else if i < calls.len() {
                assert(calls[i].id != c.id);
            } else if j < calls.len() {
                assert(calls[j].id != c.id);
            }
        }
    }
}

proof fn lemma_count_unique(calls: Seq<ToolCallView>, id: Seq<char>)
    requires
        unique_ids(calls),
    ensures
        count_id(calls, id) == if has_id(calls, id) {
            1nat
        } else {
            0nat
        },
    decreases calls.len(),
{
    if calls.len() > 0 {
        let p = calls.drop_last();
        assert(unique_ids(p)) by {
            assert forall|i: int, j: int|
                0 <= i < p.len() && 0 <= j < p.len() && i != j implies p[i].id != p[j].id by {
                assert(calls[i].id != calls[j].id);
            }
        }
        lemma_count_unique(p, id);
        let n = calls.len() - 1;
        if calls.last().id == id {
            assert(calls[n].id == id);
            assert(!has_id(p, id)) by {
                if has_id(p, id) {
                    let i = choose|i: int| 0 <= i < p.len() && p[i].id == id;
                    assert(calls[i].id != calls[n].id);
                }
            }
        } else {
            if has_id(calls, id) {
                let i = choose|i: int| 0 <= i < calls.len() && calls[i].id == id;
                assert(i != n);
                assert(p[i].id == id);
            }
            if has_id(p, id) {
                let i = choose|i: int| 0 <= i < p.len() && p[i].id == id;
                assert(calls[i].id == id);
            }
        }
    }
}

proof fn lemma_request_not_response()
    ensures
        "tool_request"@ != "tool_response"@,
{
    reveal_strlit("tool_request");
    reveal_strlit("tool_response");
    assert("tool_request"@.len() != "tool_response"@.len());
}

/// Folding the same tool request frame twice registers its call exactly
/// once: the second fold leaves the calls as the first left them, and of
/// the two folds only the first, and only for an id not seen before,
/// announces a started call.
pub proof fn lemma_request_idempotent(s: SessionView, v: Json)
    requires
        unique_ids(s.tool_calls),
        tool_request_of(v) is Some,
    ensures
        ({
            let c = tool_request_of(v)->0;
            let once = step(s, v);
            let twice = step(once, v);
            &&& twice.tool_calls == once.tool_calls
            &&& count_id(twice.tool_calls, c.id) == 1
            &&& count_kind(step_events(s, v), EventKind::ToolCall) == if has_id(
                s.tool_calls,
                c.id,
            ) {
                0nat
            } else {
                1nat
            }
            &&& count_kind(step_events(once, v), EventKind::ToolCall) == 0
        }),
{
    let c = tool_request_of(v)->0;
    lemma_request_not_response();
    assert(tool_response_of(v) is None);
    let once = step(s, v);
    assert(once.tool_calls == registered(s.tool_calls, c));
    lemma_registered_unique(s.tool_calls, c);
    let twice = step(once, v);
    assert(twice.tool_calls == registered(once.tool_calls, c));
    lemma_count_unique(twice.tool_calls, c.id);
    lemma_events_of_request(s, v);
    lemma_events_of_request(once, v);
}

proof fn lemma_events_of_request(s: SessionView, v: Json)
    requires
        tool_request_of(v) is Some,
        tool_response_of(v) is None,
    ensures
        count_kind(step_events(s, v), EventKind::ToolCall) == if has_id(
            s.tool_calls,
            tool_request_of(v)->0.id,
        ) {
            0nat
        } else {
            1nat
        },
{
    let s1 = after_title(after_content(s, v), v);
    let ce = content_events(s, v);
    let re = request_events(s1, v);
    let pe = response_events(after_request(s1, v), v);
    assert(pe =~= seq![]);
    lemma_count_empty(EventKind::ToolCall);
    assert(count_kind(ce, EventKind::ToolCall) == 0) by {
        if ce.len() > 0 {
            lemma_count_single(ce[0], EventKind::ToolCall);
            assert(ce =~= seq![ce[0]]);
        }
    }
    if re.len() > 0 {
        lemma_count_single(re[0], EventKind::ToolCall);
        assert(re =~= seq![re[0]]);
    }
    lemma_count_kind_append(ce, re, EventKind::ToolCall);
    lemma_count_kind_append(ce + re, pe, EventKind::ToolCall);
    assert(ce + re + pe =~= ce + re);
}

/// A tool result for an id that no request registered changes no call and
/// adds no event beyond the frame's own content delta (none at all when
/// the frame carries no content).
pub proof fn lemma_unknown_result_ignored(s: SessionView, v: Json)
    requires
        tool_response_of(v) is Some,
        !has_id(s.tool_calls, tool_response_of(v)->0.id),
    ensures
        step(s, v).tool_calls == s.tool_calls,
        step_events(s, v) == content_events(s, v),
        content_delta(v) is None ==> step_events(s, v) == Seq::<EventView>::empty(),
{
    lemma_request_not_response();
    assert(tool_request_of(v) is None);
    let s1 = after_title(after_content(s, v), v);
    assert(!finishable(s1.tool_calls, tool_response_of(v)->0.id));
    assert(content_events(s, v) + seq![] + seq![] =~= content_events(s, v));
}

/// A root-level `title` wins over every other place a title may stand.
pub proof fn lemma_root_title_wins(s: SessionView, v: Json)
    requires
        str_field(v, "title"@) is Some,
    ensures
        title_of(v) == str_field(v, "title"@),
        step(s, v).title == str_field(v, "title"@),
        step_batch(s, v).title == str_field(v, "title"@),
{
}

proof fn lemma_registered_keeps(calls: Seq<ToolCallView>, c: ToolCallView, i: int)
    requires
        0 <= i < calls.len(),
    ensures
        registered(calls, c).len() >= calls.len(),
        registered(calls, c)[i] == calls[i],
{
}

proof fn lemma_listed_keeps(calls: Seq<ToolCallView>, items: Seq<Json>, i: int)
    requires
        0 <= i < calls.len(),
    ensures
        register_listed(calls, items).len() >= calls.len(),
        register_listed(calls, items)[i] == calls[i],
    decreases items.len(),
{
    if items.len() > 0 {
        lemma_listed_keeps(calls, items.drop_last(), i);
        let before = register_listed(calls, items.drop_last());
        match listed_call(items.last()) {
            Some(c) => lemma_registered_keeps(before, c, i),
            None => {},
        }
    }
}

/// A call that has left `Running` keeps its place and never changes again,
/// whatever frame follows, in either flow.
pub proof fn lemma_finished_call_is_final(s: SessionView, v: Json, i: int)
    requires
        0 <= i < s.tool_calls.len(),
        s.tool_calls[i].status != ToolStatus::Running,
    ensures
        step(s, v).tool_calls.len() >= s.tool_calls.len(),
        step(s, v).tool_calls[i] == s.tool_calls[i],
        step_batch(s, v).tool_calls.len() >= s.tool_calls.len(),
        step_batch(s, v).tool_calls[i] == s.tool_calls[i],
{
    let s1 = after_title(after_content(s, v), v);
    let s2 = after_request(s1, v);
    match tool_request_of(v) {
        Some(c) => lemma_registered_keeps(s1.tool_calls, c, i),
        None => {},
    }
    assert(s2.tool_calls.len() >= s.tool_calls.len() && s2.tool_calls[i] == s.tool_calls[i]);
    match tool_response_of(v) {
        Some(r) => {
            if finishable(s2.tool_calls, r.id) {
                assert(index_of(s2.tool_calls, r.id) != i);
            }
        },
        None => {},
    }
    let calls = step(s, v).tool_calls;
    lemma_listed_keeps(calls, array_field(v, "tool_calls"@), i);
    let first = register_listed(calls, array_field(v, "tool_calls"@));
    match field(v, "content"@) {
        Some(c) => {
            if c is Object {
                lemma_listed_keeps(first, array_field(c, "tool_calls"@), i);
            }
        },
        None => {},
    }
}

proof fn lemma_decode_concat(b1: Seq<u8>, b2: Seq<u8>)
    requires
        valid_utf8(b1),
        valid_utf8(b2),
    ensures
        valid_utf8(b1 + b2),
        decode_utf8(b1 + b2) == decode_utf8(b1) + decode_utf8(b2),
    decreases b1.len(),
{
    vstd::utf8::valid_utf8_concat(b1, b2);
    if b1.len() == 0 {
        assert(b1 + b2 =~= b2);
        assert(decode_utf8(b1) + decode_utf8(b2) =~= decode_utf8(b2));
    } else {
        let n = length_of_first_scalar(b1);
        assert(1 <= n <= b1.len());
        let rest = pop_first_scalar(b1);
        assert(rest.len() < b1.len());
        lemma_decode_concat(rest, b2);
        let both = b1 + b2;
        assert(both[0] == b1[0]);
        assert(n >= 2 ==> both[1] == b1[1]);
        assert(n >= 3 ==> both[2] == b1[2]);
        assert(n >= 4 ==> both[3] == b1[3]);
        assert(length_of_first_scalar(both) == n);
        assert(decode_first_scalar(both) == decode_first_scalar(b1));
        assert(pop_first_scalar(both) =~= rest + b2);
        assert(decode_utf8(both) =~= decode_utf8(b1) + decode_utf8(b2));
    }
}

proof fn lemma_decode_each_utf8(chunks: Seq<Seq<u8>>)
    requires
        forall|i: int| 0 <= i < chunks.len() ==> valid_utf8(#[trigger] chunks[i]),
    ensures
        valid_utf8(flatten_bytes(chunks)),
        decode_each(chunks) == decode_utf8(flatten_bytes(chunks)),
    decreases chunks.len(),
{
    if chunks.len() == 0 {
        assert(decode_utf8(Seq::<u8>::empty()) =~= Seq::<char>::empty());
    } else {
        let p = chunks.drop_last();
        assert forall|i: int| 0 <= i < p.len() implies valid_utf8(#[trigger] p[i]) by {
            assert(p[i] == chunks[i]);
        }
        lemma_decode_each_utf8(p);
        assert(valid_utf8(chunks[chunks.len() - 1]));
        lemma_decode_concat(flatten_bytes(p), chunks.last());
    }
}

/// For a body that is valid UTF-8, cut into chunks only at character
/// boundaries (each chunk is then valid UTF-8 itself), every cutting leaves
/// the decoder in the same state and emits the same events, and the deltas
/// of its content events concatenate to the reply.
pub proof fn lemma_chunk_boundary_invariance_utf8(
    listed: bool,
    a: Seq<Seq<u8>>,
    b: Seq<Seq<u8>>,
)
    requires
        flatten_bytes(a) == flatten_bytes(b),
        forall|i: int| 0 <= i < a.len() ==> valid_utf8(#[trigger] a[i]),
        forall|i: int| 0 <= i < b.len() ==> valid_utf8(#[trigger] b[i]),
    ensures
        fed(start(listed), a) == fed(start(listed), b),
        fed_events(start(listed), a) == fed_events(start(listed), b),
        content_of(fed_events(start(listed), a)) == fed(start(listed), a).session.full_response,
{
    lemma_decode_each_utf8(a);
    lemma_decode_each_utf8(b);
    lemma_fed(start(listed), a);
    lemma_fed(start(listed), b);
    lemma_chunk_boundary_invariance(listed, a, b);
}

/// A line that does not change the streaming session and emits nothing:
/// no frame at all, or a result for an id unknown at that point, with no
/// content delta and no title.
pub open spec fn inert_line(s: SessionView, r: Seq<char>) -> bool {
    match frame_of(trimmed_text(r)) {
        Some(v) => tool_response_of(v) is Some && !has_id(s.tool_calls, tool_response_of(v)->0.id)
            && content_delta(v) is None && title_of(v) is None,
        None => true,
    }
}

/// Inserting into a stream a line that reports a result for an id no
/// earlier line requested (and carries no content or title) changes
/// neither the final state (reply, title, calls) nor any event.
pub proof fn lemma_unknown_result_line_changes_nothing(
    s: SessionView,
    l1: Seq<Seq<char>>,
    r: Seq<char>,
    l2: Seq<Seq<char>>,
)
    requires
        inert_line(run_lines(false, s, l1), r),
    ensures
        run_lines(false, s, l1 + seq![r] + l2) == run_lines(false, s, l1 + l2),
        run_events(false, s, l1 + seq![r] + l2) == run_events(false, s, l1 + l2),
{
    let m = run_lines(false, s, l1);
    match frame_of(trimmed_text(r)) {
        Some(v) => {
            lemma_unknown_result_ignored(m, v);
            lemma_request_not_response();
            assert(step(m, v) == m);
            assert(content_events(m, v) =~= Seq::<EventView>::empty());
        },
        None => {},
    }
    assert(on_line(false, m, r) == m);
    assert(line_events(m, r) =~= Seq::<EventView>::empty());
    let one = seq![r];
    assert(one.drop_last() =~= Seq::<Seq<char>>::empty());
    assert(one.last() == r);
    assert(run_lines(false, m, Seq::<Seq<char>>::empty()) == m);
    assert(run_events(false, m, Seq::<Seq<char>>::empty()) == Seq::<EventView>::empty());
    assert(run_lines(false, m, one) == m);
    assert(run_events(false, m, one) =~= Seq::<EventView>::empty());
    lemma_run_append(false, s, l1, one);
    lemma_run_append(false, s, l1 + one, l2);
    lemma_run_append(false, s, l1, l2);
    assert(run_events(false, s, l1) + Seq::<EventView>::empty() =~= run_events(false, s, l1));
}

/// Each content event carries, as the text so far, `base` followed by every
/// delta up to and including its own.
pub open spec fn accumulates(base: Seq<char>, events: Seq<EventView>) -> bool {
    forall|k: int|
        0 <= k < events.len() && (#[trigger] events[k]).kind == EventKind::Content
            ==> events[k].full_content == Some(base + content_of(events.take(k + 1)))
}

proof fn lemma_step_accumulates(s: SessionView, v: Json)
    ensures
        accumulates(s.full_response, step_events(s, v)),
{
    let s1 = after_title(after_content(s, v), v);
    let ce = content_events(s, v);
    let re = request_events(s1, v);
    let pe = response_events(after_request(s1, v), v);
    let ev = step_events(s, v);
    assert(ev == ce + re + pe);
    assert forall|k: int|
        0 <= k < ev.len() && (#[trigger] ev[k]).kind == EventKind::Content implies ev[k].full_content
        == Some(s.full_response + content_of(ev.take(k + 1))) by {
        assert(k < ce.len());
        assert(k == 0);
        assert(ev.take(1) =~= seq![ce[0]]);
        lemma_content_single(ce[0]);
    }
}

proof fn lemma_accumulates_append(base: Seq<char>, x: Seq<EventView>, y: Seq<EventView>)
    requires
        accumulates(base, x),
        accumulates(base + content_of(x), y),
    ensures
        accumulates(base, x + y),
{
    let e = x + y;
    assert forall|k: int|
        0 <= k < e.len() && (#[trigger] e[k]).kind == EventKind::Content implies e[k].full_content
        == Some(base + content_of(e.take(k + 1))) by {
        if k < x.len() {
            assert(e.take(k + 1) =~= x.take(k + 1));
            assert(e[k] == x[k]);
        } else {
            let j = k - x.len();
            assert(e[k] == y[j]);
            assert(e.take(k + 1) =~= x + y.take(j + 1));
            lemma_content_of_append(x, y.take(j + 1));
            assert(base + content_of(x) + content_of(y.take(j + 1)) =~= base + (content_of(x)
                + content_of(y.take(j + 1))));
        }
    }
}

proof fn lemma_run_accumulates(listed: bool, s: SessionView, lines: Seq<Seq<char>>)
    ensures
        accumulates(s.full_response, run_events(listed, s, lines)),
    decreases lines.len(),
{
    if lines.len() > 0 {
        lemma_run_accumulates(listed, s, lines.drop_last());
        lemma_run_content(listed, s, lines.drop_last());
        let m = run_lines(listed, s, lines.drop_last());
        match frame_of(trimmed_text(lines.last())) {
            Some(v) => lemma_step_accumulates(m, v),
            None => {},
        }
        lemma_accumulates_append(
            s.full_response,
            run_events(listed, s, lines.drop_last()),
            line_events(m, lines.last()),
        );
    }
}

/// However the body is cut into chunks, each content event carries as its
/// text so far exactly the concatenation of the deltas emitted up to and
/// including it; so the reply only ever grows by appending deltas.
pub proof fn lemma_content_events_accumulate(listed: bool, chunks: Seq<Seq<u8>>)
    ensures
        accumulates(Seq::<char>::empty(), fed_events(start(listed), chunks)),
{
    let d = start(listed);
    lemma_fed(d, chunks);
    lemma_run_accumulates(listed, d.session, split_text(d.carry, decode_each(chunks)).0);
}

} // verus!
