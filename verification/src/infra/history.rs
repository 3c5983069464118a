//! Turns of a conversation as the session store keeps them.

use vstd::prelude::*;

verus! {

/// Who a stored turn is attributed to.
#[derive(Debug, Clone, Copy, PartialEq, Eq, Structural)]
pub enum Role {
    /// Something the user said.
    User,
    /// Something the assistant answered.
    Assistant,
    /// Background that the system recorded for the model.
    System,
}

/// One stored turn. The turns of a session are kept oldest first.
#[derive(Debug, PartialEq, Eq)]
pub struct ChatMessage {
    pub role: Role,
    pub content: String,
}

/// What a [`ChatMessage`] holds, as text.
pub struct ChatMessageView {
    pub role: Role,
    pub content: Seq<char>,
}

impl View for ChatMessage {
    type V = ChatMessageView;

    open spec fn view(&self) -> ChatMessageView {
        ChatMessageView { role: self.role, content: self.content@ }
    }
}

impl DeepView for ChatMessage {
    type V = ChatMessageView;

    open spec fn deep_view(&self) -> ChatMessageView {
        self@
    }
}

impl Clone for ChatMessage {
    fn clone(&self) -> (copy: Self)
        ensures
            copy == *self,
    {
        ChatMessage { role: self.role, content: self.content.clone() }
    }
}

} // verus!
