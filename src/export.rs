//! A conversation rendered as a Markdown document.
use vstd::prelude::*;
use vstd::string::*;
use crate::records::{Conversation, Message};
use crate::registry::opt_text;
use crate::extract::text_or;
use crate::exchange::UNTITLED;
use crate::stream::push_char;
use crate::json::str_eq;

verus! {

pub open spec fn digit_char(d: nat) -> char {
    "0123456789"@[d as int]
}

/// The decimal digits of `n`, most significant first.
pub open spec fn digits_of(n: nat) -> Seq<char>
    decreases n,
{
    if n < 10 {
        seq![digit_char(n)]
    } else {
        digits_of(n / 10).push(digit_char(n % 10))
    }
}

/// `n` in decimal, with a leading `-` when negative.
pub open spec fn decimal_of(n: int) -> Seq<char> {
    if n < 0 {
        seq!['-'] + digits_of((-n) as nat)
    } else {
        digits_of(n as nat)
    }
}

fn push_digits(s: &mut String, n: u64)
    ensures
        final(s)@ == old(s)@ + digits_of(n as nat),
    decreases n,
{
    if n >= 10 {
        push_digits(s, n / 10);
    }
    proof {
        reveal_strlit("0123456789");
    }
    let c = "0123456789".get_char((n % 10) as usize);
    push_char(s, c);
    assert(s@ =~= old(s)@ + digits_of(n as nat));
}

/// `n` in decimal.
pub fn decimal_text(n: i64) -> (r: String)
    ensures
        r@ == decimal_of(n as int),
{
    if n < 0 {
        let mut r = String::from_str("-");
        proof {
            reveal_strlit("-");
        }
        let m: u64 = (0i128 - n as i128) as u64;
        push_digits(&mut r, m);
        assert(r@ =~= decimal_of(n as int));
        r
    } else {
        let mut r = String::new();
        push_digits(&mut r, n as u64);
        assert(r@ =~= decimal_of(n as int));
        r
    }
}

/// The heading of a message by its author.
pub open spec fn role_heading(role: Seq<char>) -> Seq<char> {
    if role == "user"@ {
        "**You**"@
    } else {
        "**Assistant**"@
    }
}

pub open spec fn message_block(m: Message) -> Seq<char> {
    "### "@ + role_heading(m.role@) + "\n\n"@ + m.content@ + "\n\n"@ + "---\n\n"@
}

pub open spec fn message_blocks(ms: Seq<Message>) -> Seq<char>
    decreases ms.len(),
{
    if ms.len() == 0 {
        seq![]
    } else {
        message_blocks(ms.drop_last()) + message_block(ms.last())
    }
}

/// The document: the title (or the placeholder), the creation time, then
/// each message under its author's heading, separated by rules.
pub open spec fn markdown_of(c: Conversation, ms: Seq<Message>) -> Seq<char> {
    "# "@ + text_or(opt_text(c.title), UNTITLED@) + "\n\n"@ + "Created: "@ + decimal_of(
        c.created_at as int,
    ) + "\n\n"@ + "---\n\n"@ + message_blocks(ms)
}

/// Renders a conversation and its messages as Markdown.
pub fn conversation_markdown(conversation: &Conversation, messages: &Vec<Message>) -> (r: String)
    ensures
        r@ == markdown_of(*conversation, messages@),
{
    let mut out = String::from_str("# ");
    match &conversation.title {
        Some(t) => out.append(t.as_str()),
        None => out.append(UNTITLED),
    }
    out.append("\n\n");
    out.append("Created: ");
    let created = decimal_text(conversation.created_at);
    out.append(created.as_str());
    out.append("\n\n");
    out.append("---\n\n");
    let ghost head = out@;
    assert(head == "# "@ + text_or(opt_text(conversation.title), UNTITLED@) + "\n\n"@ + "Created: "@
        + decimal_of(conversation.created_at as int) + "\n\n"@ + "---\n\n"@);
    let mut i: usize = 0;
    while i < messages.len()
        invariant
            0 <= i <= messages@.len(),
            out@ == head + message_blocks(messages@.take(i as int)),
        decreases messages@.len() - i,
    {
        assert(messages@.take(i + 1).drop_last() =~= messages@.take(i as int));
        let m = &messages[i];
        out.append("### ");
        if str_eq(m.role.as_str(), "user") {
            out.append("**You**");
        } else {
            out.append("**Assistant**");
        }
        out.append("\n\n");
        out.append(m.content.as_str());
        out.append("\n\n");
        out.append("---\n\n");
        assert(out@ =~= head + message_blocks(messages@.take(i + 1)));
        i += 1;
    }
    assert(messages@.take(i as int) =~= messages@);
    assert(out@ =~= markdown_of(*conversation, messages@));
    out
}

/// The Markdown of the conversation with this id among `conversations`, or
/// an error when there is none.
pub fn export_conversation_markdown(
    conversations: &Vec<Conversation>,
    conversation_id: &str,
    messages: &Vec<Message>,
) -> (r: Result<String, String>)
    ensures
        match r {
            Ok(md) => exists|i: int|
                0 <= i < conversations@.len() && conversations@[i].id@ == conversation_id@
                    && (forall|j: int| 0 <= j < i ==> conversations@[j].id@ != conversation_id@)
                    && md@ == markdown_of(conversations@[i], messages@),
            Err(e) => e@ == "Conversation not found"@ && forall|i: int|
                0 <= i < conversations@.len() ==> conversations@[i].id@ != conversation_id@,
        },
{
    let mut i: usize = 0;
    while i < conversations.len()
        invariant
            0 <= i <= conversations@.len(),
            forall|j: int| 0 <= j < i ==> conversations@[j].id@ != conversation_id@,
        decreases conversations@.len() - i,
    {
        if str_eq(conversations[i].id.as_str(), conversation_id) {
            return Ok(conversation_markdown(&conversations[i], messages));
        }
        i += 1;
    }
    Err(String::from_str("Conversation not found"))
}

} // verus!
