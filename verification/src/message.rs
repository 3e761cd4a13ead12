//! The canonical chat-message record and its mathematical view.

use vstd::prelude::*;

verus! {

/// One chat message as it is kept in history. A record is never changed once made;
/// it moves from the open buffer into the checkpoint that closes over it.
#[derive(Debug, PartialEq, Eq)]
pub struct ChatMessage {
    /// Display name of the sender; empty when the transport gave none.
    pub sender: String,
    /// The message body, verbatim.
    pub text: String,
    /// Seconds since the Unix epoch, as reported by the transport.
    pub timestamp: u64,
}

/// What a [`ChatMessage`] stands for: two character sequences and a time.
pub struct MessageView {
    pub sender: Seq<char>,
    pub text: Seq<char>,
    pub timestamp: u64,
}

impl View for ChatMessage {
    type V = MessageView;

    open spec fn view(&self) -> MessageView {
        MessageView { sender: self.sender@, text: self.text@, timestamp: self.timestamp }
    }
}

impl Clone for ChatMessage {
    fn clone(&self) -> (copy: Self)
        ensures
            copy == *self,
    {
        ChatMessage {
            sender: self.sender.clone(),
            text: self.text.clone(),
            timestamp: self.timestamp,
        }
    }
}

/// The views of a sequence of messages, in the same order.
pub open spec fn views_of(messages: Seq<ChatMessage>) -> Seq<MessageView> {
    messages.map_values(|m: ChatMessage| m@)
}

impl ChatMessage {
    /// Builds a record from its three parts.
    pub fn new(sender: String, text: String, timestamp: u64) -> (message: Self)
        ensures
            message.sender == sender,
            message.text == text,
            message.timestamp == timestamp,
    {
        ChatMessage { sender, text, timestamp }
    }
}

/// Copies a message sequence; the copy equals its source element for element.
pub fn copy_messages(messages: &Vec<ChatMessage>) -> (copy: Vec<ChatMessage>)
    ensures
        copy@ == messages@,
{
    let mut copy: Vec<ChatMessage> = Vec::new();
    let mut i: usize = 0;
    while i < messages.len()
        invariant
            i <= messages.len(),
            copy@ == messages@.take(i as int),
        decreases messages.len() - i,
    {
        copy.push(messages[i].clone());
        assert(messages@.take(i + 1) =~= messages@.take(i as int).push(messages@[i as int]));
        i += 1;
    }
    assert(messages@.take(messages.len() as int) =~= messages@);
    copy
}

} // verus!
