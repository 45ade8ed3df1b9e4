use vstd::prelude::*;

verus! {

/// Who wrote a message of a conversation.
#[derive(Clone, Copy, Debug, PartialEq, Eq, Structural)]
pub enum Role {
    User,
    Assistant,
}

/// The colour scheme of the interface.
#[derive(Clone, Copy, Debug, PartialEq, Eq, Structural)]
pub enum ThemeMode {
    Dark,
    Light,
    Octane,
}

/// One message of a conversation. `created_at` (seconds since the Unix epoch)
/// and `tags` are local bookkeeping: no backend is sent them.
#[derive(Clone, Debug, PartialEq, Eq)]
pub struct ChatMessage {
    pub role: Role,
    pub content: String,
    pub created_at: Option<i64>,
    pub tags: Vec<String>,
}

impl Role {
    /// The name of the role on the wire.
    pub open spec fn wire_name(self) -> Seq<char> {
        match self {
            Role::User => "user"@,
            Role::Assistant => "assistant"@,
        }
    }

    /// The name under which a backend is told of the role.
    pub fn as_str(&self) -> (name: &'static str)
        ensures
            name@ == self.wire_name(),
    {
        match self {
            Role::User => "user",
            Role::Assistant => "assistant",
        }
    }
}

impl ChatMessage {
    /// A message with no timestamp and no tags.
    pub fn new(role: Role, content: String) -> (message: ChatMessage)
        ensures
            message.role == role,
            message.content == content,
            message.created_at is None,
            message.tags@.len() == 0,
    {
        ChatMessage { role, content, created_at: None, tags: Vec::new() }
    }
}

} // verus!
