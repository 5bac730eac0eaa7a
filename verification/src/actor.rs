//! How a challenge answers a command: the new state, and what is to be asked
//! of the messaging platform, in order. The caller owns the queue and talks
//! to the platform; nothing here waits or sends.

use crate::context::{ContextCommand, ContextData, ContextView};
use crate::messages::{all_done_text, user_done_text};
use vstd::prelude::*;

verus! {

/// What a challenge asks of the messaging platform.
#[derive(Debug)]
pub enum Request {
    /// Post `text` in the chat.
    SendMessage { chat_id: i64, text: String, disable_notification: bool },
    /// Replace the text of a message of the chat.
    EditMessageText { chat_id: i64, message_id: i32, text: String },
    /// Pin a message of the chat.
    PinChatMessage { chat_id: i64, message_id: i32, disable_notification: bool },
    /// Take the pin off a message of the chat.
    UnpinChatMessage { chat_id: i64, message_id: i32 },
}

/// A request as a mathematical value.
pub enum RequestView {
    SendMessage { chat_id: i64, text: Seq<char>, disable_notification: bool },
    EditMessageText { chat_id: i64, message_id: i32, text: Seq<char> },
    PinChatMessage { chat_id: i64, message_id: i32, disable_notification: bool },
    UnpinChatMessage { chat_id: i64, message_id: i32 },
}

impl View for Request {
    type V = RequestView;

    open spec fn view(&self) -> RequestView {
        match *self {
            Request::SendMessage { chat_id, text, disable_notification } => RequestView::SendMessage {
                chat_id,
                text: text@,
                disable_notification,
            },
            Request::EditMessageText { chat_id, message_id, text } => RequestView::EditMessageText {
                chat_id,
                message_id,
                text: text@,
            },
            Request::PinChatMessage {
                chat_id,
                message_id,
                disable_notification,
            } => RequestView::PinChatMessage { chat_id, message_id, disable_notification },
            Request::UnpinChatMessage { chat_id, message_id } => RequestView::UnpinChatMessage {
                chat_id,
                message_id,
            },
        }
    }
}

/// Why a request could not be made.
#[derive(Debug)]
pub enum ContextError {
    /// No status message was posted yet, so there is none to edit.
    NoDailyMessage,
}

impl ContextView {
    /// The request to post `text` in the chat, without a notification.
    pub open spec fn send_request(self, text: Seq<char>) -> RequestView {
        RequestView::SendMessage { chat_id: self.chat_id, text, disable_notification: true }
    }

    /// The request to pin the message `message_id`, without a notification.
    pub open spec fn pin_request(self, message_id: i32) -> RequestView {
        RequestView::PinChatMessage { chat_id: self.chat_id, message_id, disable_notification: true }
    }

    /// The request to take the pin off the message `message_id`.
    pub open spec fn unpin_request(self, message_id: i32) -> RequestView {
        RequestView::UnpinChatMessage { chat_id: self.chat_id, message_id }
    }

    /// The request to bring the status message `message_id` up to date.
    pub open spec fn edit_request(self, message_id: i32) -> RequestView {
        RequestView::EditMessageText {
            chat_id: self.chat_id,
            message_id,
            text: self.daily_message(),
        }
    }
}

impl ContextData {
    /// The request to post `text` in the chat, without a notification.
    pub fn send_message(&self, text: String) -> (request: Request)
        ensures
            request@ == self@.send_request(text@),
    {
        Request::SendMessage { chat_id: self.chat_id, text, disable_notification: true }
    }

    /// The request to pin the status message, without a notification; none
    /// while no status message was posted.
    pub fn pin_daily_message(&self) -> (request: Option<Request>)
        ensures
            match self.daily_message_id {
                Some(message_id) => request.is_some() && request.unwrap()@ == self@.pin_request(
                    message_id,
                ),
                None => request.is_none(),
            },
    {
        match self.daily_message_id {
            Some(message_id) => Some(
                Request::PinChatMessage {
                    chat_id: self.chat_id,
                    message_id,
                    disable_notification: true,
                },
            ),
            None => None,
        }
    }

    /// The request to take the pin off the status message; none while no
    /// status message was posted.
    pub fn unpin_daily_message(&self) -> (request: Option<Request>)
        ensures
            match self.daily_message_id {
                Some(message_id) => request.is_some() && request.unwrap()@
                    == self@.unpin_request(message_id),
                None => request.is_none(),
            },
    {
        match self.daily_message_id {
            Some(message_id) => Some(
                Request::UnpinChatMessage { chat_id: self.chat_id, message_id },
            ),
            None => None,
        }
    }

    /// The request to bring the status message up to date with today's
    /// counts; an error while no status message was posted.
    pub fn update_daily_message(&self) -> (request: Result<Request, ContextError>)
        requires
            self.wf(),
        ensures
            match self.daily_message_id {
                Some(message_id) => request.is_ok() && request.unwrap()@ == self@.edit_request(
                    message_id,
                ),
                None => request == Err::<Request, ContextError>(ContextError::NoDailyMessage),
            },
    {
        match self.daily_message_id {
            Some(message_id) => {
                let text = self.generate_daily_message();
                Ok(Request::EditMessageText { chat_id: self.chat_id, message_id, text })
            },
            None => Err(ContextError::NoDailyMessage),
        }
    }
}

/// A command as a mathematical value.
pub enum CommandView {
    SendDailyMessage,
    AddPushups { username: Seq<char>, count: nat },
}

impl View for ContextCommand {
    type V = CommandView;

    open spec fn view(&self) -> CommandView {
        match *self {
            ContextCommand::SendDailyMessage => CommandView::SendDailyMessage,
            ContextCommand::AddPushups { username, count } => CommandView::AddPushups {
                username: username@,
                count: count as nat,
            },
        }
    }
}

/// One thing that the caller is to do in answer to a command.
#[derive(Debug)]
pub enum Step {
    /// Make the request. If the platform refuses it, go on with the next step.
    Call(Request),
    /// Post the status message of the day. If the platform accepts it, hand
    /// the id of the new message to `daily_message_sent` and make the request
    /// that comes back.
    PostStatus(Request),
    /// Close the queue and stop: the command was the last one.
    Stop,
}

/// A step as a mathematical value.
pub enum StepView {
    Call(RequestView),
    PostStatus(RequestView),
    Stop,
}

impl View for Step {
    type V = StepView;

    open spec fn view(&self) -> StepView {
        match *self {
            Step::Call(request) => StepView::Call(request@),
            Step::PostStatus(request) => StepView::PostStatus(request@),
            Step::Stop => StepView::Stop,
        }
    }
}

/// The steps of `steps` as mathematical values.
pub open spec fn steps_of(steps: Seq<Step>) -> Seq<StepView> {
    Seq::new(steps.len(), |i: int| steps[i]@)
}

impl ContextView {
    /// Whether the numbers that `command` leads to can be held by the machine:
    /// for a report the new total of all, for a new day the new quota.
    pub open spec fn accepts(self, command: CommandView) -> bool {
        match command {
            CommandView::AddPushups { username, count } => self.total() + count <= usize::MAX,
            CommandView::SendDailyMessage => self.workout_over() || !self.cycle_ends()
                || self.repeats + self.cycle_increase <= usize::MAX,
        }
    }

    /// The state after `command`. A report is added to today's ledger. A new
    /// day starts unless the challenge is over, in which case nothing changes.
    pub open spec fn after(self, command: CommandView) -> ContextView {
        match command {
            CommandView::AddPushups { username, count } => self.with_progress(username, count),
            CommandView::SendDailyMessage => if self.workout_over() {
                self
            } else {
                self.next_day()
            },
        }
    }

    /// The step that takes the pin off the status message, if there is one.
    pub open spec fn unpin_steps(self) -> Seq<StepView> {
        match self.daily_message_id {
            Some(message_id) => seq![StepView::Call(self.unpin_request(message_id))],
            None => Seq::empty(),
        }
    }

    /// The steps in answer to a report, `self` being the state after it: the
    /// status message is brought up to date if there is one, the one who
    /// reported is cheered on meeting the quota, and so are all once everyone
    /// has met it.
    pub open spec fn report_steps(self, username: Seq<char>) -> Seq<StepView> {
        let edit = match self.daily_message_id {
            Some(message_id) => seq![StepView::Call(self.edit_request(message_id))],
            None => Seq::empty(),
        };
        let user_done = if self.user_done(username) {
            seq![StepView::Call(self.send_request(user_done_text()))]
        } else {
            Seq::empty()
        };
        let all_done = if self.all_users_done() {
            seq![StepView::Call(self.send_request(all_done_text()))]
        } else {
            Seq::empty()
        };
        edit + user_done + all_done
    }

    /// The steps that end the challenge: the pin is taken off, the summary
    /// is posted, the pin is taken off once more, and the queue is closed.
    pub open spec fn final_steps(self) -> Seq<StepView> {
        self.unpin_steps() + seq![StepView::Call(self.send_request(self.final_message()))]
            + self.unpin_steps() + seq![StepView::Stop]
    }

    /// The steps that start a day, `self` being the state before it: the pin
    /// is taken off, a new cycle is announced if the day starts one, and the
    /// status of the new day is posted.
    pub open spec fn new_day_steps(self) -> Seq<StepView> {
        let next = self.next_day();
        let announce = if self.cycle_ends() {
            seq![StepView::Call(next.send_request(next.end_of_cycle_message()))]
        } else {
            Seq::empty()
        };
        self.unpin_steps() + announce + seq![
            StepView::PostStatus(next.send_request(next.daily_message())),
        ]
    }

    /// The steps in answer to `command`, in the order in which they are to be
    /// carried out.
    pub open spec fn steps(self, command: CommandView) -> Seq<StepView> {
        match command {
            CommandView::AddPushups { username, count } => self.after(command).report_steps(
                username,
            ),
            CommandView::SendDailyMessage => if self.workout_over() {
                self.final_steps()
            } else {
                self.new_day_steps()
            },
        }
    }

    /// The state once the status message `message_id` was posted.
    pub open spec fn with_daily_message(self, message_id: i32) -> ContextView {
        ContextView { daily_message_id: Some(message_id), ..self }
    }
}

impl ContextData {
    /// Whether `command` can be handled within the machine's numbers.
    pub fn accepts(&self, command: &ContextCommand) -> (accepted: bool)
        requires
            self.wf(),
        ensures
            accepted == self@.accepts(command@),
    {
        match command {
            ContextCommand::AddPushups { username, count } => {
                *count <= usize::MAX - self.total_progress()
            },
            ContextCommand::SendDailyMessage => {
                self.current_day >= self.duration || (self.current_day + 1) % self.cycle_length
                    != 0 || self.cycle_increase <= usize::MAX - self.repeats
            },
        }
    }

    /// Handles one command: brings the state to what it is after the
    /// command, and returns the steps that the caller is to carry out, in
    /// order.
    pub fn handle_command(&mut self, command: ContextCommand) -> (steps: Vec<Step>)
        requires
            old(self).wf(),
            old(self)@.accepts(command@),
        ensures
            final(self).wf(),
            final(self)@ == old(self)@.after(command@),
            final(self).progress@.len() == final(self).current_day + 1,
            final(self).repeats >= old(self).repeats,
            steps_of(steps@) == old(self)@.steps(command@),
    {
        let mut steps: Vec<Step> = Vec::new();
        match command {
            ContextCommand::SendDailyMessage => {
                if let Some(unpin) = self.unpin_daily_message() {
                    steps.push(Step::Call(unpin));
                }
                if self.is_workout_over() {
                    let summary = self.generate_final_message();
                    steps.push(Step::Call(self.send_message(summary)));
                    if let Some(unpin) = self.unpin_daily_message() {
                        steps.push(Step::Call(unpin));
                    }
                    steps.push(Step::Stop);
                    assert(steps_of(steps@) =~= old(self)@.final_steps());
                } else {
                    let cycle_ended = self.init_next_day();
                    if cycle_ended {
                        let announcement = self.generate_end_of_cycle_message();
                        steps.push(Step::Call(self.send_message(announcement)));
                    }
                    let status = self.generate_daily_message();
                    steps.push(Step::PostStatus(self.send_message(status)));
                    assert(steps_of(steps@) =~= old(self)@.new_day_steps());
                }
            },
            ContextCommand::AddPushups { username, count } => {
                self.add_user_progress(username.clone(), count);
                if let Ok(edit) = self.update_daily_message() {
                    steps.push(Step::Call(edit));
                }
                if self.is_user_done(username) {
                    steps.push(Step::Call(self.send_message("🥳".to_string())));
                }
                if self.is_all_users_done() {
                    steps.push(Step::Call(self.send_message("На сегодня всё 🎉".to_string())));
                }
                assert(steps_of(steps@) =~= self@.report_steps(username@));
            },
        }
        steps
    }

    /// Records that the status message `message_id` was posted, and returns
    /// the request to pin it.
    pub fn daily_message_sent(&mut self, message_id: i32) -> (request: Request)
        requires
            old(self).wf(),
        ensures
            final(self).wf(),
            final(self)@ == old(self)@.with_daily_message(message_id),
            request@ == old(self)@.pin_request(message_id),
    {
        self.daily_message_id = Some(message_id);
        Request::PinChatMessage { chat_id: self.chat_id, message_id, disable_notification: true }
    }
}

} // verus!
