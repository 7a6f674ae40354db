//! The records a chat client keeps: agents (backend endpoints), conversations
//! and their messages, and the body of the outbound chat request.
use vstd::prelude::*;
use vstd::string::*;
use crate::registry::ToolCall;

verus! {

/// Relies on uuid's `Uuid::new_v4` and its hyphenated `Display` form, which
/// is 36 characters long.
#[verifier::external_body]
fn new_id() -> (r: String)
    ensures
        r@.len() == 36,
{
    uuid::Uuid::new_v4().to_string()
}

/// Relies on chrono's `Utc::now().timestamp()`: seconds since the Unix epoch.
#[verifier::external_body]
fn now_seconds() -> (r: i64) {
    chrono::Utc::now().timestamp()
}

/// A chat backend endpoint and its credentials.
#[derive(Clone, Debug)]
pub struct Agent {
    pub id: String,
    pub name: String,
    pub api_url: String,
    pub auth_token: String,
    pub project_id: String,
    pub created_at: i64,
}

/// What a user supplies to create an agent.
#[derive(Clone, Debug)]
pub struct CreateAgentInput {
    pub name: String,
    pub api_url: String,
    pub auth_token: String,
    pub project_id: String,
}

impl Agent {
    /// The agent `input` describes, with this id and creation time.
    pub fn from_input(input: CreateAgentInput, id: String, created_at: i64) -> (r: Agent)
        ensures
            r == (Agent {
                id: id,
                name: input.name,
                api_url: input.api_url,
                auth_token: input.auth_token,
                project_id: input.project_id,
                created_at: created_at,
            }),
    {
        Agent {
            id,
            name: input.name,
            api_url: input.api_url,
            auth_token: input.auth_token,
            project_id: input.project_id,
            created_at,
        }
    }

    /// A new agent with a fresh id, created now.
    pub fn new(input: CreateAgentInput) -> (r: Agent)
        ensures
            r.id@.len() == 36,
            r.name == input.name,
            r.api_url == input.api_url,
            r.auth_token == input.auth_token,
            r.project_id == input.project_id,
    {
        let id = new_id();
        let now = now_seconds();
        Agent::from_input(input, id, now)
    }
}

/// One message of a conversation.
#[derive(Clone, Debug)]
pub struct Message {
    pub id: String,
    pub conversation_id: String,
    pub role: String,
    pub content: String,
    pub tool_calls: Option<Vec<ToolCall>>,
    pub created_at: i64,
}

impl Message {
    /// A new message with a fresh id, created now.
    pub fn new(
        conversation_id: String,
        role: String,
        content: String,
        tool_calls: Option<Vec<ToolCall>>,
    ) -> (r: Message)
        ensures
            r.id@.len() == 36,
            r.conversation_id == conversation_id,
            r.role == role,
            r.content == content,
            r.tool_calls == tool_calls,
    {
        let id = new_id();
        let now = now_seconds();
        Message::with_id(id, conversation_id, role, content, tool_calls, now)
    }

    /// The message with this id and creation time.
    pub fn with_id(
        id: String,
        conversation_id: String,
        role: String,
        content: String,
        tool_calls: Option<Vec<ToolCall>>,
        created_at: i64,
    ) -> (r: Message)
        ensures
            r == (Message { id, conversation_id, role, content, tool_calls, created_at }),
    {
        Message { id, conversation_id, role, content, tool_calls, created_at }
    }
}

/// A conversation with one agent.
#[derive(Clone, Debug)]
pub struct Conversation {
    pub id: String,
    pub agent_id: String,
    pub title: Option<String>,
    pub created_at: i64,
}

impl Conversation {
    /// A new conversation with a fresh id, created now.
    pub fn new(agent_id: String, title: Option<String>) -> (r: Conversation)
        ensures
            r.id@.len() == 36,
            r.agent_id == agent_id,
            r.title == title,
    {
        let id = new_id();
        let now = now_seconds();
        Conversation::with_id(id, agent_id, title, now)
    }

    /// The conversation with this id and creation time.
    pub fn with_id(id: String, agent_id: String, title: Option<String>, created_at: i64) -> (r:
        Conversation)
        ensures
            r == (Conversation { id, agent_id, title, created_at }),
    {
        Conversation { id, agent_id, title, created_at }
    }
}

/// The body of the outbound chat request.
#[derive(Debug)]
pub struct CozeRequest {
    pub content: CozeContent,
    pub request_type: String,
    pub project_id: String,
}

#[derive(Debug)]
pub struct CozeContent {
    pub query: CozeQuery,
}

#[derive(Debug)]
pub struct CozeQuery {
    pub prompt: Vec<CozePrompt>,
}

#[derive(Debug)]
pub struct CozePrompt {
    pub prompt_type: String,
    pub content: CozePromptContent,
}

#[derive(Debug)]
pub struct CozePromptContent {
    pub text: String,
}

impl CozeRequest {
    /// A `query` request for `project_id` whose prompt is the one text part
    /// `message`.
    pub fn for_message(message: &str, project_id: &str) -> (r: CozeRequest)
        ensures
            r.request_type@ == "query"@,
            r.project_id@ == project_id@,
            r.content.query.prompt@.len() == 1,
            r.content.query.prompt@[0].prompt_type@ == "text"@,
            r.content.query.prompt@[0].content.text@ == message@,
    {
        let mut prompt: Vec<CozePrompt> = Vec::new();
        prompt.push(
            CozePrompt {
                prompt_type: String::from_str("text"),
                content: CozePromptContent { text: String::from_str(message) },
            },
        );
        CozeRequest {
            content: CozeContent { query: CozeQuery { prompt } },
            request_type: String::from_str("query"),
            project_id: String::from_str(project_id),
        }
    }
}

/// The `Authorization` header value for a bearer token.
pub fn bearer(auth_token: &str) -> (r: String)
    ensures
        r@ == "Bearer "@ + auth_token@,
{
    let mut r = String::from_str("Bearer ");
    r.append(auth_token);
    r
}

} // verus!
