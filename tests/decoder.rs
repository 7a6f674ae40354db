use coze_chat::extract::{truncate_output, MAX_OUTPUT_CHARS};
use coze_chat::exchange::{fallback_title, final_title, status_error, status_ok, title_when_missing};
use coze_chat::registry::ToolStatus;
use coze_chat::session::{EventKind, StreamEvent};
use coze_chat::stream::{data_payload, parse_frame, ChatStream, LineBuffer};

fn feed_all(stream: &mut ChatStream, chunks: &[&[u8]]) -> Vec<StreamEvent> {
    let mut events = Vec::new();
    for c in chunks {
        events.extend(stream.feed(c));
    }
    events
}

fn run_streaming(chunks: &[&[u8]]) -> (Vec<StreamEvent>, StreamEvent, ChatStream) {
    let mut stream = ChatStream::streaming();
    let events = feed_all(&mut stream, chunks);
    let done = stream.finish();
    (events, done, stream)
}

#[test]
fn scenario_content_deltas() {
    let input: &[u8] = b"data: {\"answer\":\"Hi\"}\ndata: {\"answer\":\" there\"}\n";
    let (events, done, _) = run_streaming(&[input]);
    assert_eq!(events.len(), 2);
    assert_eq!(events[0].event_type, EventKind::Content);
    assert_eq!(events[0].content.as_deref(), Some("Hi"));
    assert_eq!(events[0].full_content.as_deref(), Some("Hi"));
    assert_eq!(events[1].event_type, EventKind::Content);
    assert_eq!(events[1].content.as_deref(), Some(" there"));
    assert_eq!(events[1].full_content.as_deref(), Some("Hi there"));
    assert_eq!(done.event_type, EventKind::Done);
    assert_eq!(done.full_content.as_deref(), Some("Hi there"));
    assert!(done.tool_calls.is_none());
}

#[test]
fn scenario_tool_lifecycle() {
    let input: &[u8] = b"data: {\"type\":\"tool_request\",\"content\":{\"tool_request\":{\"tool_call_id\":\"t1\",\"tool_name\":\"calc\",\"parameters\":{\"a\":1}}}}\ndata: {\"type\":\"tool_response\",\"content\":{\"tool_response\":{\"tool_call_id\":\"t1\",\"code\":\"0\",\"result\":\"42\"}}}\n";
    let (events, done, _) = run_streaming(&[input]);
    assert_eq!(events.len(), 2);
    assert_eq!(events[0].event_type, EventKind::ToolCall);
    let started = events[0].tool_call.as_ref().unwrap();
    assert_eq!(started.id, "t1");
    assert_eq!(started.tool_name, "calc");
    assert_eq!(started.tool_input, "{\n  \"a\": 1\n}");
    assert_eq!(started.status, ToolStatus::Running);
    assert!(started.tool_output.is_none());
    assert_eq!(events[1].event_type, EventKind::ToolResult);
    let finished = events[1].tool_call.as_ref().unwrap();
    assert_eq!(finished.id, "t1");
    assert_eq!(finished.status, ToolStatus::Success);
    assert_eq!(finished.tool_output.as_deref(), Some("42"));
    assert_eq!(events[1].tool_calls.as_ref().unwrap().len(), 1);
    assert_eq!(done.tool_calls.as_ref().unwrap().len(), 1);
}

#[test]
fn scenario_non_success_status() {
    let err = status_error(500, "500 Internal Server Error").unwrap();
    assert_eq!(err.event_type, EventKind::Error);
    assert_eq!(err.content.as_deref(), Some("API request failed: 500 Internal Server Error"));
    assert!(err.full_content.is_none());
    assert!(!status_ok(500));
    assert!(status_ok(200));
    assert!(status_ok(299));
    assert!(!status_ok(300));
    assert!(status_error(204, "204 No Content").is_none());
}

#[test]
fn truncation_exactness() {
    let mut s = "a".repeat(1_000_000);
    s.push_str("bbbbbbbbbbbbbb");
    assert_eq!(s.chars().count(), 1_000_014);
    let t = truncate_output(&s);
    let mut expected = "a".repeat(1_000_000);
    expected.push_str("...(truncated)");
    assert_eq!(t, expected);
    let exact = "x".repeat(MAX_OUTPUT_CHARS);
    assert_eq!(truncate_output(&exact), exact);
    assert_eq!(truncate_output("é"), "é");
}

#[test]
fn truncation_counts_characters_not_bytes() {
    let s = "é".repeat(MAX_OUTPUT_CHARS);
    assert_eq!(truncate_output(&s), s);
}

#[test]
fn chunk_boundaries_do_not_change_the_reply() {
    let whole: &[u8] = b"data: {\"answer\":\"Hel\"}\r\n: keep-alive\ndata: {\"answer\":\"lo \xc3\xa9\"}\ndata: {\"title\":\"T\"}\n";
    let (ev1, done1, s1) = run_streaming(&[whole]);
    let parts: Vec<&[u8]> = vec![&whole[..3], &whole[3..20], &whole[20..21], &whole[21..55], &whole[55..]];
    let (ev2, done2, s2) = run_streaming(&parts);
    let bytewise: Vec<&[u8]> = (0..whole.len()).map(|i| &whole[i..i + 1]).filter(|c| c[0] < 0x80).collect();
    assert_eq!(done1.full_content.as_deref(), Some("Hello é"));
    assert_eq!(done1.full_content, done2.full_content);
    let joined1: String = ev1.iter().filter_map(|e| e.content.clone()).collect();
    let joined2: String = ev2.iter().filter_map(|e| e.content.clone()).collect();
    assert_eq!(joined1, "Hello é");
    assert_eq!(joined2, "Hello é");
    assert_eq!(s1.into_parts().1.as_deref(), Some("T"));
    assert_eq!(s2.into_parts().1.as_deref(), Some("T"));
    assert!(bytewise.len() < whole.len());
}

#[test]
fn split_multibyte_character_decodes_lossily() {
    let (_, done, _) = run_streaming(&[b"data: {\"answer\":\"\xc3", b"\xa9\"}\n"]);
    assert_eq!(done.full_content.as_deref(), Some("\u{fffd}\u{fffd}"));
}

#[test]
fn duplicate_tool_request_registers_once() {
    let frame: &[u8] = b"data: {\"type\":\"tool_request\",\"content\":{\"tool_request\":{\"tool_call_id\":\"t1\"}}}\n";
    let (events, done, _) = run_streaming(&[frame, frame]);
    let started = events.iter().filter(|e| e.event_type == EventKind::ToolCall).count();
    assert_eq!(started, 1);
    let calls = done.tool_calls.unwrap();
    assert_eq!(calls.len(), 1);
    assert_eq!(calls[0].tool_name, "Unknown");
    assert_eq!(calls[0].tool_input, "");
}

#[test]
fn unknown_tool_response_is_ignored() {
    let frame: &[u8] = b"data: {\"type\":\"tool_response\",\"content\":{\"tool_response\":{\"tool_call_id\":\"nope\",\"result\":\"x\"}}}\n";
    let (events, done, _) = run_streaming(&[frame]);
    assert!(events.is_empty());
    assert!(done.tool_calls.is_none());
}

#[test]
fn tool_result_with_error_code_and_second_result_ignored() {
    let input: &[u8] = b"data: {\"type\":\"tool_request\",\"content\":{\"tool_request\":{\"tool_call_id\":\"a\",\"tool_name\":\"x\"}}}\ndata: {\"type\":\"tool_response\",\"content\":{\"tool_response\":{\"tool_call_id\":\"a\",\"code\":\"7\"}}}\ndata: {\"type\":\"tool_response\",\"content\":{\"tool_response\":{\"tool_call_id\":\"a\",\"code\":\"0\",\"result\":\"late\"}}}\n";
    let (events, done, _) = run_streaming(&[input]);
    assert_eq!(events.len(), 2);
    let finished = events[1].tool_call.as_ref().unwrap();
    assert_eq!(finished.status, ToolStatus::Error);
    assert!(finished.tool_output.is_none());
    let calls = done.tool_calls.unwrap();
    assert_eq!(calls[0].status, ToolStatus::Error);
    assert!(calls[0].tool_output.is_none());
}

#[test]
fn root_title_wins_over_content_title() {
    let frame: &[u8] = b"data: {\"title\":\"Root\",\"content\":{\"title\":\"Inner\"}}\n";
    let (_, _, s) = run_streaming(&[frame]);
    assert_eq!(s.into_parts().1.as_deref(), Some("Root"));
}

#[test]
fn title_sources_and_latest_wins() {
    let input: &[u8] = b"data: {\"content\":{\"title\":\"Inner\"}}\ndata: {\"type\":\"title\",\"content\":\"Typed\"}\n";
    let (events, _, s) = run_streaming(&[input]);
    assert!(events.is_empty());
    assert_eq!(s.into_parts().1.as_deref(), Some("Typed"));
}

#[test]
fn content_sources() {
    let input: &[u8] = b"data: {\"content\":{\"answer\":\"A\"}}\ndata: {\"type\":\"answer\",\"content\":\"B\"}\ndata: {\"role\":\"assistant\",\"content\":\"C\"}\ndata: {\"type\":\"other\",\"content\":\"D\"}\ndata: {\"answer\":\"\"}\n";
    let (events, done, _) = run_streaming(&[input]);
    assert_eq!(events.len(), 3);
    assert_eq!(done.full_content.as_deref(), Some("ABC"));
}

#[test]
fn malformed_frames_and_other_lines_are_dropped() {
    let input: &[u8] = b"data: {not json\nevent: x\ndata:{\"answer\":\"no space\"}\n   data: {\"answer\":\"ok\"}   \ndata: {\"answer\":\"tail\"}";
    let (events, done, _) = run_streaming(&[input]);
    assert_eq!(events.len(), 1);
    assert_eq!(done.full_content.as_deref(), Some("ok"));
}

#[test]
fn non_streaming_reads_listed_tool_calls() {
    let input: &[u8] = b"data: {\"tool_calls\":[{\"id\":\"L1\",\"name\":\"n\",\"args\": {\"k\": [1, 2]}},{\"name\":\"no id\"}],\"content\":{\"tool_calls\":[{\"id\":\"L2\"},{\"id\":\"L1\"}]}}\n";
    let mut batch = ChatStream::non_streaming();
    batch.feed(input);
    let (_, _, calls) = batch.into_parts();
    let calls = calls.unwrap();
    assert_eq!(calls.len(), 2);
    assert_eq!(calls[0].id, "L1");
    assert_eq!(calls[0].tool_input, "{\"k\":[1,2]}");
    assert_eq!(calls[1].id, "L2");
    assert_eq!(calls[1].tool_name, "Unknown");
    let (_, done, _) = run_streaming(&[input]);
    assert!(done.tool_calls.is_none());
}

#[test]
fn line_buffer_keeps_partial_lines() {
    let mut lines = LineBuffer::new();
    assert!(lines.feed(b"  ab").is_empty());
    let out = lines.feed(b"c  \nde\n\nf");
    assert_eq!(out, vec!["abc".to_string(), "de".to_string(), "".to_string()]);
    assert!(lines.feed(b"").is_empty());
}

#[test]
fn data_prefix_is_required() {
    assert_eq!(data_payload("data: x"), Some("x"));
    assert_eq!(data_payload("data:x"), None);
    assert_eq!(data_payload("dat"), None);
    assert!(parse_frame("data: [1, 2]").is_some());
    assert!(parse_frame("data: nope").is_none());
}

#[test]
fn fallback_title_cuts_at_thirty_characters() {
    let long = "é".repeat(31);
    let mut expected = "é".repeat(30);
    expected.push_str("...");
    assert_eq!(fallback_title(&long), expected);
    assert_eq!(fallback_title(&"z".repeat(30)), "z".repeat(30));
    assert_eq!(fallback_title(""), "");
}

#[test]
fn title_resolution() {
    let untitled = Some("Untitled Conversation".to_string());
    assert_eq!(title_when_missing(&untitled, "hello"), Some("hello".to_string()));
    assert_eq!(title_when_missing(&None, "hello"), Some("hello".to_string()));
    assert_eq!(title_when_missing(&Some("Kept".to_string()), "hello"), None);
    assert_eq!(final_title(Some("T".to_string()), &None, "hello"), Some("T".to_string()));
    assert_eq!(final_title(None, &Some("Kept".to_string()), "hello"), None);
}

#[test]
fn split_chars_returns_raw_lines() {
    let mut lines = LineBuffer::new();
    let text: Vec<char> = " a \nb\r\nc".chars().collect();
    let out = lines.split_chars(&text);
    assert_eq!(out, vec![" a ".to_string(), "b\r".to_string()]);
    let out = lines.split_chars(&vec!['d', '\n']);
    assert_eq!(out, vec!["cd".to_string()]);
}

#[test]
fn handle_line_folds_one_frame() {
    let mut stream = ChatStream::streaming();
    let events = stream.handle_line("data: {\"answer\":\"x\",\"title\":\"t\"}");
    assert_eq!(events.len(), 1);
    assert_eq!(events[0].full_content.as_deref(), Some("x"));
    assert!(stream.handle_line("data: oops").is_empty());
    assert_eq!(stream.session().full_response(), "x");
    assert_eq!(stream.session().title().as_deref(), Some("t"));
    assert_eq!(stream.session().tool_calls().len(), 0);
}

#[test]
fn title_frame_with_object_content_falls_back_to_content_title() {
    let frame: &[u8] = b"data: {\"type\":\"title\",\"content\":{\"title\":\"X\"}}\n";
    let (_, _, s) = run_streaming(&[frame]);
    assert_eq!(s.into_parts().1.as_deref(), Some("X"));
    let mut batch = ChatStream::non_streaming();
    batch.feed(frame);
    assert_eq!(batch.into_parts().1.as_deref(), Some("X"));
}

#[test]
fn unicode_white_space_is_trimmed() {
    let input = "\u{a0}\u{3000}data: {\"answer\":\"w\"}\u{2003}\t\n".as_bytes();
    let (events, _, _) = run_streaming(&[input]);
    assert_eq!(events.len(), 1);
    assert_eq!(events[0].content.as_deref(), Some("w"));
}
