use crate::types::{ChatMessage, Role};
use vstd::prelude::*;
use vstd::string::*;

verus! {

/// What the agent is told of itself, in front of every conversation.
pub const AGENT_SYSTEM_PROMPT: &'static str = r#"You are Blackbird, an AI writing partner designed to help users think, write, and organize their ideas.

When responding:
- Be concise and helpful
- Format with markdown when appropriate
- At the end of each response, suggest relevant document tags on a new line in the format: [[doc_tags: tag1, tag2, tag3]]

You have access to tools that allow you to:
- Perform calculations
- Search through the user's saved documents
- List saved documents with filtering
- Get current application settings"#;

/// Whether `message` is a message of the user with the text `content`, no
/// time and no tags.
pub open spec fn is_user_message(message: ChatMessage, content: Seq<char>) -> bool {
    &&& message.role == Role::User
    &&& message.content@ == content
    &&& message.created_at is None
    &&& message.tags@.len() == 0
}

/// Whether `out` is the conversation that the hosted service is sent for
/// the message `message` behind the history `history`: what the agent is
/// told of itself, as a message of the user; then the history, as it is;
/// then the message, as a message of the user.
pub open spec fn is_hosted_conversation(
    out: Seq<ChatMessage>,
    history: Seq<ChatMessage>,
    message: Seq<char>,
) -> bool {
    &&& out.len() == history.len() + 2
    &&& is_user_message(out[0], AGENT_SYSTEM_PROMPT@)
    &&& out.subrange(1, out.len() - 1) == history
    &&& is_user_message(out.last(), message)
}

/// The conversation that the hosted service is sent for one more message
/// of the user behind a history.
pub fn hosted_conversation(history: Vec<ChatMessage>, message: &str) -> (out: Vec<ChatMessage>)
    ensures
        is_hosted_conversation(out@, history@, message@),
{
    let mut out = history;
    out.insert(0, ChatMessage::new(Role::User, String::from_str(AGENT_SYSTEM_PROMPT)));
    out.push(ChatMessage::new(Role::User, String::from_str(message)));
    assert(out@.subrange(1, out@.len() - 1) =~= history@);
    out
}

/// The conversation that the hosted service is sent for a single message
/// of the user: as [`hosted_conversation`], with no history.
pub fn hosted_prompt(message: &str) -> (out: Vec<ChatMessage>)
    ensures
        is_hosted_conversation(out@, Seq::empty(), message@),
{
    hosted_conversation(Vec::new(), message)
}

/// A conversation parted into its history and the content of its last
/// message; `None` for a conversation without messages.
pub fn split_last(messages: Vec<ChatMessage>) -> (parts: Option<(Vec<ChatMessage>, String)>)
    ensures
        parts is None <==> messages@.len() == 0,
        parts matches Some(pair) ==> pair.0@ == messages@.drop_last() && pair.1
            == messages@.last().content,
{
    let mut history = messages;
    match history.pop() {
        Some(last) => {
            assert(history@ =~= messages@.drop_last());
            Some((history, last.content))
        },
        None => None,
    }
}

} // verus!
