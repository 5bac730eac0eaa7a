use pushup_challenge::context::ContextCommand;
use pushup_challenge::registry::{init_context, Contexts, QUEUE_CAPACITY};
use tokio::sync::mpsc::channel;

#[test]
fn new_registry_is_empty() {
    let contexts = Contexts::new();
    assert!(contexts.txs.is_empty());
    assert!(!contexts.is_registered(1));
    assert!(contexts.chat_ids().is_empty());
    assert!(contexts.snapshot().is_empty());
}

#[test]
fn register_enters_a_chat() {
    let mut contexts = Contexts::new();
    let (tx, _rx) = channel::<ContextCommand>(4);
    contexts.register(10, tx);
    assert!(contexts.is_registered(10));
    assert!(!contexts.is_registered(11));
    assert_eq!(contexts.chat_ids(), vec![10]);
}

#[test]
fn register_twice_keeps_the_last_queue() {
    let mut contexts = Contexts::new();
    let (first, _first_rx) = channel::<ContextCommand>(4);
    let (second, _second_rx) = channel::<ContextCommand>(4);
    contexts.register(10, first.clone());
    contexts.register(10, second.clone());
    assert_eq!(contexts.txs.len(), 1);
    assert!(contexts.txs[&10].same_channel(&second));
    assert!(!contexts.txs[&10].same_channel(&first));
}

#[test]
fn remove_takes_a_chat_out() {
    let mut contexts = Contexts::new();
    let (tx, _rx) = channel::<ContextCommand>(4);
    let (other, _other_rx) = channel::<ContextCommand>(4);
    contexts.register(10, tx);
    contexts.register(-3, other);
    contexts.remove(10);
    assert!(!contexts.is_registered(10));
    assert!(contexts.is_registered(-3));
    contexts.remove(10);
    contexts.remove(999);
    assert_eq!(contexts.chat_ids(), vec![-3]);
}

#[test]
fn snapshot_is_a_copy() {
    let mut contexts = Contexts::new();
    let (tx, _rx) = channel::<ContextCommand>(4);
    contexts.register(10, tx.clone());
    let snapshot = contexts.snapshot();
    contexts.remove(10);
    assert_eq!(snapshot.len(), 1);
    assert!(snapshot[&10].same_channel(&tx));
    assert!(contexts.txs.is_empty());
}

#[test]
fn chat_ids_lists_each_chat_once() {
    let mut contexts = Contexts::new();
    let mut receivers = vec![];
    for chat_id in [5i64, -7, 0, i64::MAX, i64::MIN, 5] {
        let (tx, rx) = channel::<ContextCommand>(1);
        contexts.register(chat_id, tx);
        receivers.push(rx);
    }
    let mut ids = contexts.chat_ids();
    ids.sort();
    assert_eq!(ids, vec![i64::MIN, -7, 0, 5, i64::MAX]);
}

#[test]
fn settle_drops_a_closed_queue_only() {
    let mut contexts = Contexts::new();
    let (tx, _rx) = channel::<ContextCommand>(4);
    contexts.register(10, tx);
    assert!(contexts.settle(10, false));
    assert!(contexts.is_registered(10));
    assert!(!contexts.settle(10, true));
    assert!(!contexts.is_registered(10));
    assert!(!contexts.settle(10, true));
}

#[test]
fn sweep_keeps_open_queues() {
    let mut contexts = Contexts::new();
    let (first, _first_rx) = channel::<ContextCommand>(4);
    let (second, _second_rx) = channel::<ContextCommand>(4);
    contexts.register(1, first.clone());
    contexts.register(2, second.clone());
    let mut live = contexts.sweep();
    live.sort_by_key(|entry| entry.0);
    assert_eq!(live.len(), 2);
    assert_eq!(live[0].0, 1);
    assert!(live[0].1.same_channel(&first));
    assert_eq!(live[1].0, 2);
    assert!(live[1].1.same_channel(&second));
    assert_eq!(contexts.txs.len(), 2);
}

#[test]
fn sweep_drops_closed_queues() {
    let mut contexts = Contexts::new();
    let (open, _open_rx) = channel::<ContextCommand>(4);
    let (dropped, dropped_rx) = channel::<ContextCommand>(4);
    let (closed, mut closed_rx) = channel::<ContextCommand>(4);
    contexts.register(1, open.clone());
    contexts.register(2, dropped);
    contexts.register(3, closed);
    drop(dropped_rx);
    closed_rx.close();
    let live = contexts.sweep();
    assert_eq!(live.len(), 1);
    assert_eq!(live[0].0, 1);
    assert!(live[0].1.same_channel(&open));
    assert_eq!(contexts.chat_ids(), vec![1]);
    assert!(contexts.sweep().len() == 1);
}

#[test]
fn sweep_of_an_empty_registry() {
    let mut contexts = Contexts::new();
    assert!(contexts.sweep().is_empty());
    assert!(contexts.txs.is_empty());
}

#[test]
fn live_queue_takes_the_command_of_the_day() {
    let mut contexts = Contexts::new();
    let (tx, mut rx) = channel::<ContextCommand>(4);
    contexts.register(1, tx);
    for (_, queue) in contexts.sweep() {
        queue.try_send(ContextCommand::SendDailyMessage).unwrap();
    }
    assert!(matches!(rx.try_recv(), Ok(ContextCommand::SendDailyMessage)));
    assert!(rx.try_recv().is_err());
}

#[test]
fn init_context_registers_a_fresh_challenge() {
    let mut contexts = Contexts::new();
    let (other, _other_rx) = channel::<ContextCommand>(4);
    contexts.register(8, other.clone());
    let (context, mut rx) = init_context(&mut contexts, 77);
    assert!(contexts.is_registered(77));
    assert!(contexts.is_registered(8));
    assert!(contexts.txs[&8].same_channel(&other));
    assert_eq!(context.chat_id, 77);
    assert_eq!(context.current_day, 0);
    assert_eq!(context.repeats, 100);
    assert_eq!(context.progress.len(), 1);
    assert_eq!(contexts.txs[&77].max_capacity(), QUEUE_CAPACITY);
    assert_eq!(QUEUE_CAPACITY, 2048);
    contexts.txs[&77].try_send(ContextCommand::SendDailyMessage).unwrap();
    assert!(matches!(rx.try_recv(), Ok(ContextCommand::SendDailyMessage)));
}

#[test]
fn init_context_twice_replaces_the_queue() {
    let mut contexts = Contexts::new();
    let (_first, first_rx) = init_context(&mut contexts, 77);
    let (_second, _second_rx) = init_context(&mut contexts, 77);
    assert_eq!(contexts.txs.len(), 1);
    assert!(first_rx.is_closed());
}
