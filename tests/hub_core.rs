use hub::client_session::{ClientEvent, ClientFrameOutcome, ClientState, SubscribedTopics};
use hub::listener::{extract_message, FrameError, DCS_LISTENER_BUFFER_SIZE, DCS_LISTENER_PORT};
use hub::messaging::{format_topic_message, split_topic_message};
use hub::registry::ClientRegistry;

#[test]
fn datagram_message_ends_at_first_newline() {
    let datagram = b"{\"a\":1}\n{\"b\":2}\ntrailing";
    assert_eq!(extract_message(datagram), Ok(b"{\"a\":1}".to_vec()));
}

#[test]
fn datagram_with_newline_first_gives_empty_message() {
    assert_eq!(extract_message(b"\nrest"), Ok(Vec::new()));
}

#[test]
fn empty_datagram_is_rejected() {
    assert_eq!(extract_message(b""), Err(FrameError::Empty));
}

#[test]
fn datagram_without_newline_is_rejected() {
    assert_eq!(extract_message(b"{\"a\":1}"), Err(FrameError::MissingDelimiter));
}

#[test]
fn full_buffer_datagram_is_framed() {
    let mut datagram = vec![b'x'; DCS_LISTENER_BUFFER_SIZE];
    datagram[DCS_LISTENER_BUFFER_SIZE - 1] = b'\n';
    let message = extract_message(&datagram).unwrap();
    assert_eq!(message.len(), 1023);
    assert_eq!(DCS_LISTENER_PORT, 34254);
}

#[test]
fn topic_message_is_joined_by_nul() {
    assert_eq!(format_topic_message("UNITS", "X"), "UNITS\0X");
}

#[test]
fn topic_message_splits_at_first_nul() {
    assert_eq!(
        split_topic_message("A\0B\0C"),
        Some(("A".to_string(), "B\0C".to_string()))
    );
    assert_eq!(split_topic_message("\0"), Some((String::new(), String::new())));
    assert_eq!(split_topic_message("no delimiter"), None);
}

#[test]
fn joining_then_splitting_gives_back_the_parts() {
    let joined = format_topic_message("TOPIC1", "body with ü");
    assert_eq!(
        split_topic_message(&joined),
        Some(("TOPIC1".to_string(), "body with ü".to_string()))
    );
}

#[test]
fn subscribe_then_broadcast_is_delivered() {
    let mut topics = SubscribedTopics::new();
    let outcome = topics.handle_message_from_client("SUBSCRIBE\0UNITS");
    assert_eq!(outcome, ClientFrameOutcome::Subscribed("UNITS".to_string()));
    let message = format_topic_message("UNITS", "X");
    assert_eq!(topics.handle_message_from_host(&message), Some("X".to_string()));
}

#[test]
fn unsubscribed_topic_is_not_delivered() {
    let mut topics = SubscribedTopics::new();
    topics.handle_message_from_client("SUBSCRIBE\0TOPIC1");
    let message = format_topic_message("TOPIC2", "Broadcast message from hub");
    assert_eq!(topics.handle_message_from_host(&message), None);
}

#[test]
fn unsubscribe_stops_delivery() {
    let mut topics = SubscribedTopics::new();
    topics.handle_message_from_client("SUBSCRIBE\0T");
    topics.handle_message_from_client("SUBSCRIBE\0T");
    topics.handle_message_from_client("SUBSCRIBE\0U");
    let outcome = topics.handle_message_from_client("UNSUBSCRIBE\0T");
    assert_eq!(outcome, ClientFrameOutcome::Unsubscribed("T".to_string()));
    assert!(!topics.is_subscribed(&"T".to_string()));
    assert!(topics.is_subscribed(&"U".to_string()));
    assert_eq!(topics.handle_message_from_host("T\0x"), None);
    assert_eq!(topics.handle_message_from_host("U\0y"), Some("y".to_string()));
}

#[test]
fn custom_client_message_is_forwarded_once() {
    let mut topics = SubscribedTopics::new();
    let outcome = topics.handle_message_from_client("SOME_TOPIC\0Hello, host!");
    assert_eq!(
        outcome,
        ClientFrameOutcome::Forward {
            topic: "SOME_TOPIC".to_string(),
            body: "Hello, host!".to_string()
        }
    );
    assert!(!topics.is_subscribed(&"Hello, host!".to_string()));
}

#[test]
fn client_frame_without_delimiter_is_discarded() {
    let mut topics = SubscribedTopics::new();
    assert_eq!(
        topics.handle_message_from_client("SUBSCRIBE UNITS"),
        ClientFrameOutcome::MissingDelimiter
    );
    assert!(!topics.is_subscribed(&"UNITS".to_string()));
    assert_eq!(topics.handle_message_from_host("UNITS"), None);
}

#[test]
fn broadcast_is_written_only_to_subscribed_clients() {
    let mut clients = Vec::new();
    for topic in ["A", "B", "A", "C"] {
        let mut t = SubscribedTopics::new();
        t.handle_message_from_client(&format_topic_message("SUBSCRIBE", topic));
        clients.push(t);
    }
    let message = format_topic_message("A", "payload");
    let writes: Vec<Option<String>> =
        clients.iter().map(|c| c.handle_message_from_host(&message)).collect();
    assert_eq!(
        writes,
        vec![Some("payload".to_string()), None, Some("payload".to_string()), None]
    );
}

#[test]
fn client_ids_start_at_zero_and_increase() {
    let mut registry = ClientRegistry::new();
    let mut ids = Vec::new();
    for _ in 0..5 {
        let (tx, _rx) = tokio::sync::mpsc::channel::<String>(4);
        ids.push(registry.register(tx).unwrap());
    }
    assert_eq!(ids, vec![0, 1, 2, 3, 4]);
    assert!(registry.disconnect(4));
    let (tx, _rx) = tokio::sync::mpsc::channel::<String>(4);
    assert_eq!(registry.register(tx), Some(5));
}

#[test]
fn disconnect_removes_client_once() {
    let mut registry = ClientRegistry::new();
    let (tx, _rx) = tokio::sync::mpsc::channel::<String>(4);
    let id = registry.register(tx).unwrap();
    assert_eq!(registry.len(), 1);
    assert!(registry.contains(id));
    assert!(registry.disconnect(id));
    assert_eq!(registry.len(), 0);
    assert!(!registry.contains(id));
    assert!(!registry.disconnect(id));
    assert_eq!(registry.len(), 0);
}

#[test]
fn fan_out_enqueues_on_every_client_and_reports_full_queues() {
    let mut registry = ClientRegistry::new();
    let (tx_a, mut rx_a) = tokio::sync::mpsc::channel::<String>(1);
    let (tx_b, mut rx_b) = tokio::sync::mpsc::channel::<String>(2);
    let a = registry.register(tx_a).unwrap();
    let b = registry.register(tx_b).unwrap();

    assert_eq!(registry.fan_out(&"first".to_string()), vec![(a, true), (b, true)]);
    assert_eq!(registry.fan_out(&"second".to_string()), vec![(a, false), (b, true)]);

    assert_eq!(rx_a.try_recv().unwrap(), "first");
    assert!(rx_a.try_recv().is_err());
    assert_eq!(rx_b.try_recv().unwrap(), "first");
    assert_eq!(rx_b.try_recv().unwrap(), "second");
}

#[test]
fn fan_out_with_no_clients_offers_nothing() {
    let registry = ClientRegistry::new();
    assert!(registry.fan_out(&"m".to_string()).is_empty());
}

#[test]
fn fan_out_to_a_closed_queue_is_refused() {
    let mut registry = ClientRegistry::new();
    let (tx, rx) = tokio::sync::mpsc::channel::<String>(4);
    let id = registry.register(tx).unwrap();
    drop(rx);
    assert_eq!(registry.fan_out(&"m".to_string()), vec![(id, false)]);
}

#[test]
fn fan_out_skips_disconnected_clients() {
    let mut registry = ClientRegistry::new();
    let (tx_a, mut rx_a) = tokio::sync::mpsc::channel::<String>(4);
    let (tx_b, mut rx_b) = tokio::sync::mpsc::channel::<String>(4);
    let a = registry.register(tx_a).unwrap();
    registry.register(tx_b).unwrap();
    let b = 1;
    registry.disconnect(a);
    assert_eq!(registry.fan_out(&"m".to_string()), vec![(b, true)]);
    assert!(rx_a.try_recv().is_err());
    assert_eq!(rx_b.try_recv().unwrap(), "m");
}

#[test]
fn disconnect_fires_once_on_leaving_active() {
    let mut state = ClientState::Connecting;
    assert!(!state.on_event(ClientEvent::Established));
    assert_eq!(state, ClientState::Active);
    assert!(state.on_event(ClientEvent::EndOfStream));
    assert_eq!(state, ClientState::Closed);
    assert!(!state.on_event(ClientEvent::WriteError));
    assert!(!state.on_event(ClientEvent::Shutdown));
    assert_eq!(state, ClientState::Closed);
}

#[test]
fn failed_handshake_closes_without_disconnect() {
    let mut state = ClientState::Connecting;
    assert!(!state.on_event(ClientEvent::ReadError));
    assert_eq!(state, ClientState::Closed);
    assert!(!state.on_event(ClientEvent::Established));
    assert_eq!(state, ClientState::Closed);
}

#[test]
fn every_terminal_event_closes_an_active_client() {
    for event in [
        ClientEvent::EndOfStream,
        ClientEvent::ReadError,
        ClientEvent::WriteError,
        ClientEvent::Shutdown,
    ] {
        let mut state = ClientState::Active;
        assert!(state.on_event(event));
        assert_eq!(state, ClientState::Closed);
    }
    let mut state = ClientState::Active;
    assert!(!state.on_event(ClientEvent::Established));
    assert_eq!(state, ClientState::Active);
}
