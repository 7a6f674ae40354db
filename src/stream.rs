//! From response bytes to events: a line buffer that carries an incomplete
//! line across chunks, the `data: ` frame filter, and the decoder that folds
//! each frame into the session.
use vstd::prelude::*;
use vstd::string::*;
use vstd::utf8::{valid_utf8, decode_utf8};
use crate::json::{Json, parsed_json, parse_json, str_eq};
use crate::registry::ToolCall;
use crate::session::{
    Session,
    SessionView,
    StreamEvent,
    EventView,
    event_views,
    step,
    step_batch,
    step_events,
    fresh_session,
};

verus! {

/// What `String::from_utf8_lossy` makes of bytes that are not valid UTF-8
/// (each invalid sequence replaced by U+FFFD).
pub uninterp spec fn lossy_of_invalid(bytes: Seq<u8>) -> Seq<char>;

/// The characters of `bytes` decoded as UTF-8, lossily where they are not
/// valid UTF-8.
pub open spec fn lossy_text(bytes: Seq<u8>) -> Seq<char> {
    if valid_utf8(bytes) {
        decode_utf8(bytes)
    } else {
        lossy_of_invalid(bytes)
    }
}

/// A character of Unicode's White_Space property, which `char::is_whitespace`
/// and `str::trim` use.
pub open spec fn is_white_space(c: char) -> bool {
    let u = c as u32;
    (0x9 <= u <= 0xd) || u == 0x20 || u == 0x85 || u == 0xa0 || u == 0x1680 || (0x2000 <= u
        <= 0x200a) || u == 0x2028 || u == 0x2029 || u == 0x202f || u == 0x205f || u == 0x3000
}

pub open spec fn trim_start(s: Seq<char>) -> Seq<char>
    decreases s.len(),
{
    if s.len() > 0 && is_white_space(s[0]) {
        trim_start(s.drop_first())
    } else {
        s
    }
}

pub open spec fn trim_end(s: Seq<char>) -> Seq<char>
    decreases s.len(),
{
    if s.len() > 0 && is_white_space(s.last()) {
        trim_end(s.drop_last())
    } else {
        s
    }
}

/// `s` without leading and trailing white space.
pub open spec fn trimmed_text(s: Seq<char>) -> Seq<char> {
    trim_end(trim_start(s))
}

/// Relies on String::from_utf8_lossy, whose result depends on the bytes
/// alone and, for valid UTF-8, is the text those bytes encode.
#[verifier::external_body]
fn decode_lossy(bytes: &[u8]) -> (r: Vec<char>)
    ensures
        valid_utf8(bytes@) ==> r@ == decode_utf8(bytes@),
        !valid_utf8(bytes@) ==> r@ == lossy_of_invalid(bytes@),
{
    String::from_utf8_lossy(bytes).chars().collect()
}

/// Relies on str::trim: leading and trailing White_Space characters removed.
#[verifier::external_body]
fn trim_text(s: &str) -> (r: String)
    ensures
        r@ == trimmed_text(s@),
{
    s.trim().to_string()
}

/// Relies on String::push: appends one character.
#[verifier::external_body]
pub(crate) fn push_char(s: &mut String, c: char)
    ensures
        final(s)@ == old(s)@.push(c),
{
    s.push(c)
}

/// Splitting `text`, read after an incomplete line `carry`: the complete
/// lines (without their `\n`) and the new incomplete tail.
pub open spec fn split_text(carry: Seq<char>, text: Seq<char>) -> (Seq<Seq<char>>, Seq<char>)
    decreases text.len(),
{
    if text.len() == 0 {
        (seq![], carry)
    } else {
        let (lines, tail) = split_text(carry, text.drop_last());
        if text.last() == '\n' {
            (lines.push(tail), seq![])
        } else {
            (lines, tail.push(text.last()))
        }
    }
}

/// Reassembles newline-delimited lines from byte chunks.
pub struct LineBuffer {
    carry: String,
}

impl View for LineBuffer {
    type V = Seq<char>;

    closed spec fn view(&self) -> Seq<char> {
        self.carry@
    }
}

impl LineBuffer {
    pub fn new() -> (r: LineBuffer)
        ensures
            r@ == Seq::<char>::empty(),
    {
        LineBuffer { carry: String::new() }
    }

    /// Appends `text` and returns the lines it completes, without their
    /// `\n`; the incomplete tail stays in the buffer.
    pub fn split_chars(&mut self, text: &Vec<char>) -> (r: Vec<String>)
        ensures
            final(self)@ == split_text(old(self)@, text@).1,
            r@.len() == split_text(old(self)@, text@).0.len(),
            forall|i: int|
                0 <= i < r@.len() ==> #[trigger] r@[i]@ == split_text(old(self)@, text@).0[i],
    {
        let ghost start = self@;
        let ghost mut raw: Seq<Seq<char>> = seq![];
        let mut out: Vec<String> = Vec::new();
        let mut i: usize = 0;
        while i < text.len()
            invariant
                0 <= i <= text@.len(),
                split_text(start, text@.take(i as int)) == (raw, self@),
                out@.len() == raw.len(),
                forall|j: int| 0 <= j < out@.len() ==> #[trigger] out@[j]@ == raw[j],
            decreases text@.len() - i,
        {
            assert(text@.take(i + 1).drop_last() =~= text@.take(i as int));
            let c = text[i];
            if c == '\n' {
                let mut line = String::new();
                std::mem::swap(&mut self.carry, &mut line);
                proof {
                    raw = raw.push(line@);
                }
                out.push(line);
            } else {
                push_char(&mut self.carry, c);
            }
            i += 1;
        }
        assert(text@.take(i as int) =~= text@);
        out
    }

    /// Decodes `chunk` and returns the lines it completes, trimmed; the
    /// incomplete tail waits for the next chunk and is never flushed.
    pub fn feed(&mut self, chunk: &[u8]) -> (r: Vec<String>)
        ensures
            final(self)@ == split_text(old(self)@, lossy_text(chunk@)).1,
            r@.len() == split_text(old(self)@, lossy_text(chunk@)).0.len(),
            forall|i: int|
                0 <= i < r@.len() ==> #[trigger] r@[i]@ == trimmed_text(
                    split_text(old(self)@, lossy_text(chunk@)).0[i],
                ),
    {
        let text = decode_lossy(chunk);
        let raw = self.split_chars(&text);
        let mut out: Vec<String> = Vec::new();
        let mut i: usize = 0;
        while i < raw.len()
            invariant
                0 <= i <= raw@.len(),
                out@.len() == i,
                forall|j: int| 0 <= j < i ==> #[trigger] out@[j]@ == trimmed_text(raw@[j]@),
            decreases raw@.len() - i,
        {
            out.push(trim_text(raw[i].as_str()));
            i += 1;
        }
        out
    }
}

/// A protocol data frame: the line begins with `data: `.
pub open spec fn is_data(line: Seq<char>) -> bool {
    line.len() >= 6 && line.take(6) == "data: "@
}

/// The JSON a line carries: its text after `data: `, if that parses.
pub open spec fn frame_of(line: Seq<char>) -> Option<Json> {
    if is_data(line) {
        parsed_json(line.skip(6))
    } else {
        None
    }
}

/// The text after the `data: ` prefix, or `None` for any other line.
pub fn data_payload(line: &str) -> (r: Option<&str>)
    ensures
        match r {
            Some(p) => is_data(line@) && p@ == line@.skip(6),
            None => !is_data(line@),
        },
{
    let n = line.unicode_len();
    if n < 6 {
        return None;
    }
    if !str_eq(line.substring_char(0, 6), "data: ") {
        return None;
    }
    Some(line.substring_char(6, n))
}

/// Parses a line as a data frame.
pub fn parse_frame(line: &str) -> (r: Option<Json>)
    ensures
        r == frame_of(line@),
{
    match data_payload(line) {
        Some(p) => parse_json(p),
        None => None,
    }
}

/// The state after one raw line (in the streaming flow, or the
/// non-streaming one that also reads array-shaped tool calls).
pub open spec fn on_line(listed: bool, s: SessionView, raw: Seq<char>) -> SessionView {
    match frame_of(trimmed_text(raw)) {
        Some(v) => if listed {
            step_batch(s, v)
        } else {
            step(s, v)
        },
        None => s,
    }
}

pub open spec fn line_events(s: SessionView, raw: Seq<char>) -> Seq<EventView> {
    match frame_of(trimmed_text(raw)) {
        Some(v) => step_events(s, v),
        None => seq![],
    }
}

/// The state after the lines, in order.
pub open spec fn run_lines(listed: bool, s: SessionView, lines: Seq<Seq<char>>) -> SessionView
    decreases lines.len(),
{
    if lines.len() == 0 {
        s
    } else {
        on_line(listed, run_lines(listed, s, lines.drop_last()), lines.last())
    }
}

/// The events of the lines, in order.
pub open spec fn run_events(listed: bool, s: SessionView, lines: Seq<Seq<char>>) -> Seq<EventView>
    decreases lines.len(),
{
    if lines.len() == 0 {
        seq![]
    } else {
        run_events(listed, s, lines.drop_last()) + line_events(
            run_lines(listed, s, lines.drop_last()),
            lines.last(),
        )
    }
}

/// A decoder's content: the incomplete line, the session, and whether it
/// runs the non-streaming flow.
pub struct DecoderView {
    pub carry: Seq<char>,
    pub session: SessionView,
    pub listed: bool,
}

/// The decoder after reading `text`.
pub open spec fn decoded(d: DecoderView, text: Seq<char>) -> DecoderView {
    let (lines, tail) = split_text(d.carry, text);
    DecoderView { carry: tail, session: run_lines(d.listed, d.session, lines), listed: d.listed }
}

/// The events produced while reading `text`.
pub open spec fn decoded_events(d: DecoderView, text: Seq<char>) -> Seq<EventView> {
    run_events(d.listed, d.session, split_text(d.carry, text).0)
}

/// The incremental decoder of one reply stream.
pub struct ChatStream {
    lines: LineBuffer,
    session: Session,
    listed: bool,
}

impl View for ChatStream {
    type V = DecoderView;

    closed spec fn view(&self) -> DecoderView {
        DecoderView { carry: self.lines@, session: self.session@, listed: self.listed }
    }
}

impl ChatStream {
    pub open spec fn wf(&self) -> bool {
        crate::registry::unique_ids(self@.session.tool_calls)
    }

    /// A decoder for the streaming flow.
    pub fn streaming() -> (r: ChatStream)
        ensures
            r@ == (DecoderView { carry: seq![], session: fresh_session(), listed: false }),
            r.wf(),
    {
        ChatStream { lines: LineBuffer::new(), session: Session::new(), listed: false }
    }

    /// A decoder for the non-streaming flow, which also registers the
    /// array-shaped tool calls of each frame.
    pub fn non_streaming() -> (r: ChatStream)
        ensures
            r@ == (DecoderView { carry: seq![], session: fresh_session(), listed: true }),
            r.wf(),
    {
        ChatStream { lines: LineBuffer::new(), session: Session::new(), listed: true }
    }

    /// The session so far.
    pub fn session(&self) -> (r: &Session)
        ensures
            r@ == self@.session,
    {
        &self.session
    }

    /// Folds one (trimmed) line into the session and returns its events.
    pub fn handle_line(&mut self, line: &str) -> (r: Vec<StreamEvent>)
        requires
            old(self).wf(),
        ensures
            final(self).wf(),
            final(self)@ == (DecoderView {
                session: match frame_of(line@) {
                    Some(v) => if old(self)@.listed {
                        step_batch(old(self)@.session, v)
                    } else {
                        step(old(self)@.session, v)
                    },
                    None => old(self)@.session,
                },
                ..old(self)@
            }),
            event_views(r@) == match frame_of(line@) {
                Some(v) => step_events(old(self)@.session, v),
                None => seq![],
            },
    {
        match parse_frame(line) {
            Some(v) => {
                let events = self.session.apply_frame(&v);
                if self.listed {
                    self.session.apply_listed_calls(&v);
                }
                events
            },
            None => {
                let r: Vec<StreamEvent> = Vec::new();
                assert(event_views(r@) =~= seq![]);
                r
            },
        }
    }

    /// Reads one chunk of the response body and returns the events of the
    /// lines it completes, in order.
    pub fn feed(&mut self, chunk: &[u8]) -> (r: Vec<StreamEvent>)
        requires
            old(self).wf(),
        ensures
            final(self).wf(),
            final(self)@ == decoded(old(self)@, lossy_text(chunk@)),
            event_views(r@) == decoded_events(old(self)@, lossy_text(chunk@)),
    {
        let ghost d0 = self@;
        let ghost raw = split_text(d0.carry, lossy_text(chunk@)).0;
        let lines = self.lines.feed(chunk);
        let mut events: Vec<StreamEvent> = Vec::new();
        let mut j: usize = 0;
        assert(raw.take(0) =~= seq![]);
        while j < lines.len()
            invariant
                self.wf(),
                0 <= j <= lines@.len(),
                lines@.len() == raw.len(),
                forall|k: int| 0 <= k < lines@.len() ==> #[trigger] lines@[k]@ == trimmed_text(raw[k]),
                self@.carry == split_text(d0.carry, lossy_text(chunk@)).1,
                self@.listed == d0.listed,
                self@.session == run_lines(d0.listed, d0.session, raw.take(j as int)),
                event_views(events@) == run_events(d0.listed, d0.session, raw.take(j as int)),
            decreases lines@.len() - j,
        {
            assert(raw.take(j + 1).drop_last() =~= raw.take(j as int));
            assert(lines@[j as int]@ == trimmed_text(raw[j as int]));
            let mut evs = self.handle_line(lines[j].as_str());
            let ghost before = events@;
            let ghost added = evs@;
            events.append(&mut evs);
            assert(event_views(events@) =~= event_views(before) + event_views(added));
            j += 1;
        }
        assert(raw.take(j as int) =~= raw);
        events
    }

    /// The terminal event once the stream has ended: the whole reply and the
    /// calls, if any. An incomplete last line is dropped.
    pub fn finish(&self) -> (r: StreamEvent)
        ensures
            r@ == crate::session::done_event(self@.session.full_response, self@.session.tool_calls),
    {
        self.session.done_event()
    }

    /// The reply, the title and the calls (when there are any).
    pub fn into_parts(self) -> (r: (String, Option<String>, Option<Vec<ToolCall>>))
        ensures
            r.0@ == self@.session.full_response,
            crate::registry::opt_text(r.1) == self@.session.title,
            match r.2 {
                Some(v) => crate::registry::views_of(v@) == self@.session.tool_calls
                    && self@.session.tool_calls.len() > 0,
                None => self@.session.tool_calls.len() == 0,
            },
    {
        self.session.into_parts()
    }
}

} // verus!
