use maidsafe_utilities::event_sender::{EventSender, EventSenderError, MaidSafeEventCategory};
use std::sync::mpsc;

#[derive(Clone, Debug, PartialEq)]
enum EventCategory {
    Network,
    UserInterface,
}

#[derive(Debug, PartialEq)]
enum UiEvent {
    CreateDirectory(String),
    Terminate,
}

#[test]
fn events_arrive_with_their_category() {
    let (ui_tx, ui_rx) = mpsc::channel();
    let (category_tx, category_rx) = mpsc::channel();
    let (nw_tx, nw_rx) = mpsc::channel();
    let ui = EventSender::<EventCategory, UiEvent>::new(ui_tx, EventCategory::UserInterface, category_tx.clone());
    let nw = EventSender::<EventCategory, u32>::new(nw_tx, EventCategory::Network, category_tx);

    assert!(nw.send(9876).is_ok());
    assert!(ui.send(UiEvent::CreateDirectory("NewDirectory".to_string())).is_ok());
    assert!(ui.clone().send(UiEvent::Terminate).is_ok());

    assert_eq!(category_rx.try_recv().unwrap(), EventCategory::Network);
    assert_eq!(nw_rx.try_recv().unwrap(), 9876);
    assert_eq!(category_rx.try_recv().unwrap(), EventCategory::UserInterface);
    assert_eq!(ui_rx.try_recv().unwrap(), UiEvent::CreateDirectory("NewDirectory".to_string()));
    assert_eq!(category_rx.try_recv().unwrap(), EventCategory::UserInterface);
    assert_eq!(ui_rx.try_recv().unwrap(), UiEvent::Terminate);
}

#[test]
fn closed_event_channel_hands_event_back() {
    let (ui_tx, ui_rx) = mpsc::channel::<UiEvent>();
    let (category_tx, _category_rx) = mpsc::channel();
    let ui = EventSender::new(ui_tx, EventCategory::UserInterface, category_tx);
    drop(ui_rx);
    match ui.send(UiEvent::CreateDirectory("NewDirectory".to_string())) {
        Err(EventSenderError::EventSubset(e)) => {
            assert_eq!(e.0, UiEvent::CreateDirectory("NewDirectory".to_string()))
        }
        other => panic!("{:?}", other),
    }
}

#[test]
fn closed_category_channel() {
    let (tx, _rx) = mpsc::channel::<u8>();
    let (category_tx, category_rx) = mpsc::channel();
    let sender = EventSender::new(tx, MaidSafeEventCategory::Routing, category_tx);
    drop(category_rx);
    match sender.send(3) {
        Err(EventSenderError::Category(e)) => assert_eq!(e.0, MaidSafeEventCategory::Routing),
        other => panic!("{:?}", other),
    }
}
