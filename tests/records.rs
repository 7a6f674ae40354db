use coze_chat::export::{conversation_markdown, decimal_text, export_conversation_markdown};
use coze_chat::records::{bearer, Agent, Conversation, CozeRequest, CreateAgentInput, Message};

#[test]
fn agent_new_keeps_input_and_gets_an_id() {
    let a = Agent::new(CreateAgentInput {
        name: "n".to_string(),
        api_url: "http://x".to_string(),
        auth_token: "SECRET-REDACTED".to_string(),
        project_id: "p".to_string(),
    });
    assert_eq!(a.id.len(), 36);
    assert_eq!(a.name, "n");
    assert_eq!(a.api_url, "http://x");
    assert_eq!(a.project_id, "p");
    assert!(a.created_at > 1_600_000_000);
    let b = Agent::new(CreateAgentInput {
        name: "n".to_string(),
        api_url: "u".to_string(),
        auth_token: "t".to_string(),
        project_id: "p".to_string(),
    });
    assert_ne!(a.id, b.id);
}

#[test]
fn message_and_conversation_new() {
    let m = Message::new("c".to_string(), "user".to_string(), "hi".to_string(), None);
    assert_eq!(m.id.len(), 36);
    assert_eq!(m.conversation_id, "c");
    assert_eq!(m.role, "user");
    assert_eq!(m.content, "hi");
    let c = Conversation::new("a".to_string(), Some("t".to_string()));
    assert_eq!(c.agent_id, "a");
    assert_eq!(c.title.as_deref(), Some("t"));
}

#[test]
fn request_body_and_header() {
    let r = CozeRequest::for_message("hello", "proj");
    assert_eq!(r.request_type, "query");
    assert_eq!(r.project_id, "proj");
    assert_eq!(r.content.query.prompt.len(), 1);
    assert_eq!(r.content.query.prompt[0].prompt_type, "text");
    assert_eq!(r.content.query.prompt[0].content.text, "hello");
    assert_eq!(bearer("tok"), "Bearer tok");
}

#[test]
fn markdown_export() {
    let conv = Conversation { id: "c1".to_string(), agent_id: "a".to_string(), title: None, created_at: 1700000000 };
    let msgs = vec![
        Message::new("c1".to_string(), "user".to_string(), "Hi".to_string(), None),
        Message::new("c1".to_string(), "assistant".to_string(), "Hello".to_string(), None),
    ];
    let md = conversation_markdown(&conv, &msgs);
    assert_eq!(
        md,
        "# Untitled Conversation\n\nCreated: 1700000000\n\n---\n\n### **You**\n\nHi\n\n---\n\n### **Assistant**\n\nHello\n\n---\n\n"
    );
    let list = vec![conv.clone()];
    assert_eq!(export_conversation_markdown(&list, "c1", &msgs), Ok(md));
    assert_eq!(export_conversation_markdown(&list, "zz", &msgs), Err("Conversation not found".to_string()));
    assert_eq!(decimal_text(0), "0");
    assert_eq!(decimal_text(-42), "-42");
    assert_eq!(decimal_text(i64::MIN), "-9223372036854775808");
    assert_eq!(decimal_text(i64::MAX), "9223372036854775807");
}

#[test]
fn constructors_with_given_id_and_time() {
    let a = Agent::from_input(
        CreateAgentInput {
            name: "n".to_string(),
            api_url: "u".to_string(),
            auth_token: "t".to_string(),
            project_id: "p".to_string(),
        },
        "id-1".to_string(),
        42,
    );
    assert_eq!(a.id, "id-1");
    assert_eq!(a.created_at, 42);
    assert_eq!(a.auth_token, "t");
    let m = Message::with_id("m".to_string(), "c".to_string(), "user".to_string(), "x".to_string(), None, 7);
    assert_eq!(m.id, "m");
    assert_eq!(m.created_at, 7);
    assert_eq!(m.content, "x");
    let c = Conversation::with_id("k".to_string(), "a".to_string(), None, -5);
    assert_eq!(c.id, "k");
    assert_eq!(c.created_at, -5);
    assert!(c.title.is_none());
}

#[test]
fn export_uses_the_first_matching_conversation() {
    let first = Conversation::with_id("c".to_string(), "a".to_string(), Some("First".to_string()), 1);
    let second = Conversation::with_id("c".to_string(), "a".to_string(), Some("Second".to_string()), 2);
    let md = export_conversation_markdown(&vec![first, second], "c", &vec![]).unwrap();
    assert_eq!(md, "# First\n\nCreated: 1\n\n---\n\n");
}
