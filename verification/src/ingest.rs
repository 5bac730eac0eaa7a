//! What to do with an update that the messaging platform delivers: nothing,
//! start a challenge, or hand a report to a running one.

use crate::actor::CommandView;
use crate::context::ContextCommand;
use crate::registry::Contexts;
use crate::text::{parse_count, parsed_count};
use vstd::prelude::*;

verus! {

/// What this tracker reads of a message.
#[derive(Debug)]
pub struct IncomingMessage {
    /// The chat that the message was posted in.
    pub chat_id: i64,
    /// The text of the message, if it has one.
    pub text: Option<String>,
    /// The user name of the sender, if the sender is known and has one.
    pub username: Option<String>,
}

/// What this tracker reads of an update.
#[derive(Debug)]
pub struct Update {
    /// The platform's number of the update.
    pub update_id: u32,
    /// The message, if the update brings a new one.
    pub message: Option<IncomingMessage>,
    /// The message, if the update brings a changed one.
    pub edited_message: Option<IncomingMessage>,
}

/// What is to be done with an update.
#[derive(Debug)]
pub enum Dispatch {
    /// Nothing: the update is dropped.
    Ignore,
    /// Start a challenge for the chat, and put the command that starts its
    /// first day on the new queue.
    Start { chat_id: i64 },
    /// Put the command on the queue of the chat's challenge.
    Forward { chat_id: i64, command: ContextCommand },
}

/// What is to be done with an update, as a mathematical value.
pub enum DispatchView {
    Ignore,
    Start { chat_id: i64 },
    Forward { chat_id: i64, command: CommandView },
}

impl View for Dispatch {
    type V = DispatchView;

    open spec fn view(&self) -> DispatchView {
        match *self {
            Dispatch::Ignore => DispatchView::Ignore,
            Dispatch::Start { chat_id } => DispatchView::Start { chat_id },
            Dispatch::Forward { chat_id, command } => DispatchView::Forward {
                chat_id,
                command: command@,
            },
        }
    }
}

/// The text that starts a challenge.
pub open spec fn start_text() -> Seq<char> {
    "/start"@
}

/// The chat that `update` belongs to: that of its new message, else that of
/// its changed message, else none.
pub open spec fn chat_of(update: Update) -> Option<i64> {
    match update.message {
        Some(message) => Some(message.chat_id),
        None => match update.edited_message {
            Some(message) => Some(message.chat_id),
            None => None,
        },
    }
}

/// What is to be done with the new message `message` of a chat whose
/// challenge is running: a message whose text states a count that the machine
/// can hold, from a sender with a user name, is that sender's report; any
/// other message is dropped.
pub open spec fn report_of(chat_id: i64, message: IncomingMessage) -> DispatchView {
    match (message.text, message.username) {
        (Some(text), Some(username)) => match parsed_count(text@) {
            Some(count) => if count <= usize::MAX {
                DispatchView::Forward {
                    chat_id,
                    command: CommandView::AddPushups { username: username@, count },
                }
            } else {
                DispatchView::Ignore
            },
            None => DispatchView::Ignore,
        },
        _ => DispatchView::Ignore,
    }
}

/// What is to be done with `update` while the chats `registered` have a
/// running challenge. An update without a chat is dropped. In a chat without
/// a challenge, a new message with exactly the start text starts one, and
/// everything else is dropped. In a chat with a challenge, a new message is
/// read as a report, and everything else is dropped.
pub open spec fn routed(registered: Set<i64>, update: Update) -> DispatchView {
    match chat_of(update) {
        None => DispatchView::Ignore,
        Some(chat_id) => match update.message {
            None => DispatchView::Ignore,
            Some(message) => if registered.contains(chat_id) {
                report_of(chat_id, message)
            } else if message.text.is_some() && message.text.unwrap()@ == start_text() {
                DispatchView::Start { chat_id }
            } else {
                DispatchView::Ignore
            },
        },
    }
}

/// The chat that `update` belongs to.
pub fn get_chat_id_from_update(update: &Update) -> (chat_id: Option<i64>)
    ensures
        chat_id == chat_of(*update),
{
    match &update.message {
        Some(message) => Some(message.chat_id),
        None => match &update.edited_message {
            Some(message) => Some(message.chat_id),
            None => None,
        },
    }
}

/// The offset to ask the platform for after the update `update_id` was seen:
/// the number after it, so that no update is delivered twice.
pub fn next_offset(update_id: u32) -> (offset: i64)
    ensures
        offset == update_id + 1,
{
    update_id as i64 + 1
}

fn is_start(text: &String) -> (start: bool)
    ensures
        start == (text@ == start_text()),
{
    let token = "/start".to_string();
    *text == token
}

impl Contexts {
    /// Decides what is to be done with `update`.
    pub fn route(&self, update: Update) -> (dispatch: Dispatch)
        ensures
            dispatch@ == routed(self@.dom(), update),
    {
        let chat_id = match get_chat_id_from_update(&update) {
            Some(chat_id) => chat_id,
            None => {
                return Dispatch::Ignore;
            },
        };
        let message = match update.message {
            Some(message) => message,
            None => {
                return Dispatch::Ignore;
            },
        };
        if !self.is_registered(chat_id) {
            return match &message.text {
                Some(text) => if is_start(text) {
                    Dispatch::Start { chat_id }
                } else {
                    Dispatch::Ignore
                },
                None => Dispatch::Ignore,
            };
        }
        let text = match message.text {
            Some(text) => text,
            None => {
                return Dispatch::Ignore;
            },
        };
        let count = match parse_count(text.as_str()) {
            Some(count) => count,
            None => {
                return Dispatch::Ignore;
            },
        };
        match message.username {
            Some(username) => Dispatch::Forward {
                chat_id,
                command: ContextCommand::AddPushups { username, count },
            },
            None => Dispatch::Ignore,
        }
    }
}

} // verus!
