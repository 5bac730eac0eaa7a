use pushup_challenge::actor::{ContextError, Request, Step};
use pushup_challenge::context::{ContextCommand, ContextData};

const USER_DONE: &str = "🥳";
const ALL_DONE: &str = "На сегодня всё 🎉";

fn report(user: &str, count: usize) -> ContextCommand {
    ContextCommand::AddPushups { username: user.to_string(), count }
}

/// The texts that the steps post as new messages, in order.
fn sent_texts(steps: &[Step]) -> Vec<String> {
    let mut texts = vec![];
    for step in steps {
        match step {
            Step::Call(Request::SendMessage { text, .. })
            | Step::PostStatus(Request::SendMessage { text, .. }) => texts.push(text.clone()),
            _ => {}
        }
    }
    texts
}

/// A short name for each step, in order.
fn kinds(steps: &[Step]) -> Vec<&'static str> {
    let mut kinds = vec![];
    for step in steps {
        kinds.push(match step {
            Step::Call(Request::SendMessage { .. }) => "send",
            Step::Call(Request::EditMessageText { .. }) => "edit",
            Step::Call(Request::PinChatMessage { .. }) => "pin",
            Step::Call(Request::UnpinChatMessage { .. }) => "unpin",
            Step::PostStatus(Request::SendMessage { .. }) => "status",
            Step::PostStatus(_) => "status of another kind",
            Step::Stop => "stop",
        });
    }
    kinds
}

fn count_of(texts: &[String], wanted: &str) -> usize {
    texts.iter().filter(|text| text.as_str() == wanted).count()
}

#[test]
fn send_message_asks_without_notification() {
    let context = ContextData::new(42);
    match context.send_message("привет".to_string()) {
        Request::SendMessage { chat_id, text, disable_notification } => {
            assert_eq!(chat_id, 42);
            assert_eq!(text, "привет");
            assert!(disable_notification);
        }
        _ => panic!("another request was built"),
    }
}

#[test]
fn pin_and_unpin_need_a_daily_message() {
    let mut context = ContextData::new(42);
    assert!(context.pin_daily_message().is_none());
    assert!(context.unpin_daily_message().is_none());
    context.daily_message_id = Some(7);
    match context.pin_daily_message() {
        Some(Request::PinChatMessage { chat_id, message_id, disable_notification }) => {
            assert_eq!(chat_id, 42);
            assert_eq!(message_id, 7);
            assert!(disable_notification);
        }
        _ => panic!("no request to pin"),
    }
    match context.unpin_daily_message() {
        Some(Request::UnpinChatMessage { chat_id, message_id }) => {
            assert_eq!(chat_id, 42);
            assert_eq!(message_id, 7);
        }
        _ => panic!("no request to unpin"),
    }
}

#[test]
fn update_needs_a_daily_message() {
    let mut context = ContextData::new(42);
    context.add_user_progress("alice".to_string(), 3);
    assert!(matches!(context.update_daily_message(), Err(ContextError::NoDailyMessage)));
    context.daily_message_id = Some(-9);
    match context.update_daily_message() {
        Ok(Request::EditMessageText { chat_id, message_id, text }) => {
            assert_eq!(chat_id, 42);
            assert_eq!(message_id, -9);
            assert_eq!(text, "alice: 3\nДень 1 из 3. 100 повторений\n");
            assert_eq!(text, context.generate_daily_message());
        }
        _ => panic!("no request to edit"),
    }
}

#[test]
fn daily_message_sent_is_remembered_and_pinned() {
    let mut context = ContextData::new(42);
    match context.daily_message_sent(1234) {
        Request::PinChatMessage { chat_id, message_id, disable_notification } => {
            assert_eq!(chat_id, 42);
            assert_eq!(message_id, 1234);
            assert!(disable_notification);
        }
        _ => panic!("no request to pin"),
    }
    assert_eq!(context.daily_message_id, Some(1234));
    assert_eq!(context.current_day, 0);
    assert_eq!(context.repeats, 100);
}

#[test]
fn user_done_fires_once_after_the_second_report() {
    let mut context = ContextData::new(1);
    assert_eq!((context.duration, context.cycle_length, context.cycle_increase), (3, 1, 10));
    assert_eq!(context.repeats, 100);
    assert_eq!(context.current_day, 0);

    let first = context.handle_command(report("alice", 60));
    assert_eq!(count_of(&sent_texts(&first), USER_DONE), 0);
    assert_eq!(context.progress[0].get(&"alice".to_string()), 60);

    let second = context.handle_command(report("alice", 50));
    assert_eq!(context.progress[0].get(&"alice".to_string()), 110);
    assert_eq!(count_of(&sent_texts(&second), USER_DONE), 1);
    assert!(context.is_user_done("alice".to_string()));
}

#[test]
fn all_done_fires_once_when_the_last_user_is_done() {
    let mut context = ContextData::new(1);
    let mut fired = 0;
    let steps = context.handle_command(report("bob", 10));
    fired += count_of(&sent_texts(&steps), ALL_DONE);
    let steps = context.handle_command(report("alice", 100));
    assert_eq!(sent_texts(&steps), vec![USER_DONE.to_string()]);
    fired += count_of(&sent_texts(&steps), ALL_DONE);
    assert_eq!(fired, 0);
    let steps = context.handle_command(report("bob", 89));
    assert!(sent_texts(&steps).is_empty());
    let steps = context.handle_command(report("bob", 1));
    assert_eq!(sent_texts(&steps), vec![USER_DONE.to_string(), ALL_DONE.to_string()]);
    fired += count_of(&sent_texts(&steps), ALL_DONE);
    assert_eq!(fired, 1);
}

#[test]
fn report_edits_the_status_message_first() {
    let mut context = ContextData::new(5);
    context.daily_message_id = Some(31);
    let steps = context.handle_command(report("alice", 100));
    assert_eq!(kinds(&steps), vec!["edit", "send", "send"]);
    match &steps[0] {
        Step::Call(Request::EditMessageText { chat_id, message_id, text }) => {
            assert_eq!(*chat_id, 5);
            assert_eq!(*message_id, 31);
            assert_eq!(text, "alice: 100\nДень 1 из 3. 100 повторений\n");
        }
        _ => panic!("no request to edit"),
    }
    assert_eq!(sent_texts(&steps), vec![USER_DONE.to_string(), ALL_DONE.to_string()]);
}

#[test]
fn report_without_status_message_edits_nothing() {
    let mut context = ContextData::new(5);
    let steps = context.handle_command(report("alice", 1));
    assert!(steps.is_empty());
    assert_eq!(context.progress[0].get(&"alice".to_string()), 1);
}

#[test]
fn first_day_raises_the_quota_and_says_so() {
    let mut context = ContextData::new(9);
    let steps = context.handle_command(ContextCommand::SendDailyMessage);
    assert_eq!(context.current_day, 1);
    assert_eq!(context.repeats, 110);
    assert_eq!(context.progress.len(), 2);
    assert_eq!(kinds(&steps), vec!["send", "status"]);
    let texts = sent_texts(&steps);
    assert_eq!(texts[0], "Очередной цикл завершён! Увеличиваем повторения с 100 до 110.");
    assert!(texts[0].contains("100") && texts[0].contains("110"));
    assert_eq!(texts[1], "День 2 из 3. 110 повторений\n");
    assert_eq!(context.daily_message_id, None);
}

#[test]
fn new_day_within_a_cycle_announces_nothing() {
    let mut context = ContextData::new(9);
    context.cycle_length = 2;
    let steps = context.handle_command(ContextCommand::SendDailyMessage);
    assert_eq!(kinds(&steps), vec!["status"]);
    assert_eq!(context.repeats, 100);
    let steps = context.handle_command(ContextCommand::SendDailyMessage);
    assert_eq!(kinds(&steps), vec!["send", "status"]);
    assert_eq!(context.repeats, 110);
}

#[test]
fn new_day_takes_the_old_pin_off_first() {
    let mut context = ContextData::new(9);
    context.handle_command(ContextCommand::SendDailyMessage);
    context.daily_message_sent(70);
    let steps = context.handle_command(ContextCommand::SendDailyMessage);
    assert_eq!(kinds(&steps), vec!["unpin", "send", "status"]);
    match &steps[0] {
        Step::Call(Request::UnpinChatMessage { chat_id, message_id }) => {
            assert_eq!(*chat_id, 9);
            assert_eq!(*message_id, 70);
        }
        _ => panic!("no request to unpin"),
    }
    match &steps[2] {
        Step::PostStatus(Request::SendMessage { chat_id, text, disable_notification }) => {
            assert_eq!(*chat_id, 9);
            assert_eq!(text, "День 3 из 3. 120 повторений\n");
            assert!(*disable_notification);
        }
        _ => panic!("no status message"),
    }
    assert_eq!(context.daily_message_id, Some(70));
}

#[test]
fn ledgers_match_the_day_after_every_command() {
    let mut context = ContextData::new(9);
    context.duration = 4;
    let commands = [
        ContextCommand::SendDailyMessage,
        report("alice", 3),
        ContextCommand::SendDailyMessage,
        ContextCommand::SendDailyMessage,
        report("bob", 4),
        ContextCommand::SendDailyMessage,
        ContextCommand::SendDailyMessage,
        ContextCommand::SendDailyMessage,
    ];
    let mut quota = context.repeats;
    for command in commands {
        assert!(context.accepts(&command));
        context.handle_command(command);
        assert_eq!(context.progress.len(), context.current_day + 1);
        assert!(context.repeats >= quota);
        quota = context.repeats;
    }
    assert_eq!(context.current_day, 4);
    assert_eq!(context.repeats, 140);
}

#[test]
fn last_command_posts_the_summary_and_stops() {
    let mut context = ContextData::new(9);
    assert_eq!(context.duration, 3);
    context.handle_command(ContextCommand::SendDailyMessage);
    context.handle_command(report("alice", 110));
    context.handle_command(ContextCommand::SendDailyMessage);
    context.handle_command(report("bob", 7));
    context.handle_command(report("alice", 5));
    context.handle_command(ContextCommand::SendDailyMessage);
    context.handle_command(report("bob", 130));
    assert_eq!(context.current_day, 3);
    assert!(context.is_workout_over());

    let steps = context.handle_command(ContextCommand::SendDailyMessage);
    assert_eq!(kinds(&steps), vec!["send", "stop"]);
    assert_eq!(
        sent_texts(&steps),
        vec!["Тренировка окончена! Мы прозанимались 3 дней и отжались 252 раз на всех.\n\
              alice: 115\nbob: 137\n"
            .to_string()]
    );
    assert!(matches!(steps.last(), Some(Step::Stop)));
    assert_eq!(context.current_day, 3);
    assert_eq!(context.progress.len(), 4);
}

#[test]
fn last_command_takes_the_pin_off_before_and_after_the_summary() {
    let mut context = ContextData::new(9);
    context.duration = 1;
    context.handle_command(ContextCommand::SendDailyMessage);
    context.daily_message_sent(55);
    let steps = context.handle_command(ContextCommand::SendDailyMessage);
    assert_eq!(kinds(&steps), vec!["unpin", "send", "unpin", "stop"]);
    for at in [0, 2] {
        match &steps[at] {
            Step::Call(Request::UnpinChatMessage { chat_id, message_id }) => {
                assert_eq!((*chat_id, *message_id), (9, 55));
            }
            _ => panic!("no request to unpin"),
        }
    }
}

#[test]
fn last_command_a_second_time_changes_nothing() {
    let mut context = ContextData::new(9);
    context.duration = 2;
    context.handle_command(ContextCommand::SendDailyMessage);
    context.handle_command(report("alice", 1));
    context.handle_command(ContextCommand::SendDailyMessage);
    assert!(context.is_workout_over());
    let first = context.handle_command(ContextCommand::SendDailyMessage);
    let ledgers = context.progress.len();
    let day = context.current_day;
    let quota = context.repeats;
    let second = context.handle_command(ContextCommand::SendDailyMessage);
    assert_eq!(context.progress.len(), ledgers);
    assert_eq!(context.current_day, day);
    assert_eq!(context.repeats, quota);
    assert_eq!(kinds(&second), vec!["send", "stop"]);
    assert!(!kinds(&second).contains(&"status"));
    assert_eq!(sent_texts(&first), sent_texts(&second));
}

#[test]
fn accepts_tells_what_fits() {
    let mut context = ContextData::new(9);
    assert!(context.accepts(&report("alice", usize::MAX)));
    context.handle_command(report("alice", usize::MAX - 1));
    assert!(context.accepts(&report("bob", 1)));
    assert!(!context.accepts(&report("bob", 2)));
    assert!(context.accepts(&ContextCommand::SendDailyMessage));
    context.repeats = usize::MAX - 9;
    assert!(!context.accepts(&ContextCommand::SendDailyMessage));
    context.cycle_length = 2;
    assert!(context.accepts(&ContextCommand::SendDailyMessage));
    context.cycle_length = 1;
    context.duration = 0;
    assert!(context.accepts(&ContextCommand::SendDailyMessage));
    context.duration = 3;
    context.repeats = usize::MAX - 10;
    assert!(context.accepts(&ContextCommand::SendDailyMessage));
}
