use gall::daemon::{Daemon, Effect};
use gall::message::AppMessage;
use gall::pickers::apps::AppPickerState;
use gall::pickers::PickerKind;
use gall::queue::MessageQueue;
use gall::transport::{handle_frame, Served};

#[test]
fn pop_on_empty_queue_is_none() {
    let mut q = MessageQueue::new();
    assert!(q.is_empty());
    assert_eq!(q.len(), 0);
    assert_eq!(q.pop(), None);
    assert_eq!(q.pop(), None);
    assert!(q.is_empty());
}

#[test]
fn queue_is_first_in_first_out() {
    let mut q = MessageQueue::new();
    q.push(AppMessage::AppReload);
    q.push(AppMessage::TogglePicker(PickerKind::Apps));
    q.push(AppMessage::AppClose);
    assert_eq!(q.len(), 3);
    assert!(!q.is_empty());
    assert_eq!(q.pop(), Some(AppMessage::AppReload));
    q.push(AppMessage::AppReload);
    assert_eq!(q.pop(), Some(AppMessage::TogglePicker(PickerKind::Apps)));
    assert_eq!(q.pop(), Some(AppMessage::AppClose));
    assert_eq!(q.pop(), Some(AppMessage::AppReload));
    assert_eq!(q.pop(), None);
}

#[test]
fn two_connections_are_observed_in_push_order() {
    // two clients, each sending one frame; both pushes complete before a pop
    let first = AppMessage::TogglePicker(PickerKind::Apps).encode();
    let second = AppMessage::AppReload.encode();
    let mut q = MessageQueue::new();
    assert_eq!(handle_frame(&first, &mut q), Served::Continue);
    assert_eq!(handle_frame(&second, &mut q), Served::Continue);
    assert_eq!(q.len(), 2);

    let mut daemon = match Daemon::new(vec![AppPickerState::new()], false) {
        Ok(d) => d,
        Err(_) => panic!("registry refused"),
    };
    assert_eq!(daemon.tick(&mut q).effect, Effect::ShowWindow);
    assert!(daemon.is_visible());
    assert_eq!(q.len(), 1);
    assert_eq!(daemon.tick(&mut q).effect, Effect::FetchConfig);
    assert!(daemon.is_visible());
    assert_eq!(q.len(), 0);
    assert_eq!(daemon.tick(&mut q).effect, Effect::Idle);
    assert!(daemon.is_visible());
}

#[test]
fn tick_takes_one_message_at_a_time() {
    let mut q = MessageQueue::new();
    q.push(AppMessage::TogglePicker(PickerKind::Apps));
    q.push(AppMessage::TogglePicker(PickerKind::Apps));
    q.push(AppMessage::AppClose);
    let mut daemon = match Daemon::new(vec![AppPickerState::new()], true) {
        Ok(d) => d,
        Err(_) => panic!("registry refused"),
    };
    let a = daemon.tick(&mut q);
    assert_eq!(a.effect, Effect::ShowWindow);
    assert!(a.restyle);
    assert_eq!(q.len(), 2);
    let b = daemon.tick(&mut q);
    assert_eq!(b.effect, Effect::HideWindow);
    assert_eq!(q.len(), 1);
    let c = daemon.tick(&mut q);
    assert_eq!(c.effect, Effect::Quit);
    assert!(!c.restyle);
    assert!(q.is_empty());
}
