//! LLM client abstraction.

use crate::failure::Failure;
use vstd::prelude::*;

verus! {

/// A single chat message in a `role`/`content` exchange.
#[derive(Debug)]
pub struct ChatMessage {
    pub role: String,
    pub content: String,
}

impl Clone for ChatMessage {
    fn clone(&self) -> (r: ChatMessage)
        ensures
            r == *self,
    {
        ChatMessage { role: self.role.clone(), content: self.content.clone() }
    }
}

/// Chat and translation surface used by the user interface.
pub trait LlmClient {
    /// Run a chat completion over the given messages and return the
    /// assistant's reply.
    fn chat(&self, messages: &[ChatMessage]) -> Result<String, Failure>;

    /// Translate the given text into Simplified Chinese.
    fn translate_to_chinese(&self, text: &str) -> Result<String, Failure>;
}

} // verus!
