use wsio::atomic_enum::AtomicEnum;
use wsio::client::SessionState;
use wsio::error::WsIoError;
use wsio::registry::WsIoEventRegistry;

#[test]
fn handler_ids_are_fresh_and_monotone() {
    let mut reg = WsIoEventRegistry::new();
    assert_eq!(reg.on("a", 1), 0);
    assert_eq!(reg.on("a", 1), 1);
    assert_eq!(reg.on("b", 2), 2);
    assert_eq!(reg.next_handler_id, 3);
}

#[test]
fn every_handler_of_one_event_shares_its_payload_type_token() {
    let mut reg = WsIoEventRegistry::new();
    reg.on("hello", 42);
    reg.on("hello", 42);
    assert_eq!(reg.event_data_token("hello"), Some(42));
    assert_eq!(reg.event_data_token("other"), None);
}

#[test]
fn dispatch_snapshots_the_handlers_of_the_event() {
    let mut reg = WsIoEventRegistry::new();
    let a = reg.on("hello", 1);
    let b = reg.on("hello", 1);
    reg.on("other", 2);
    let plan = reg.dispatch_event_packet("hello").expect("entry exists");
    assert_eq!(plan, vec![a, b]);
    assert!(reg.dispatch_event_packet("unknown").is_none());
}

#[test]
fn off_removes_the_whole_entry() {
    let mut reg = WsIoEventRegistry::new();
    reg.on("hello", 1);
    reg.on("hello", 1);
    reg.off("hello");
    assert!(reg.dispatch_event_packet("hello").is_none());
    // Removing an unknown event changes nothing.
    reg.off("unknown");
    assert_eq!(reg.entries.len(), 0);
}

#[test]
fn off_by_handler_id_removes_one_handler_and_prunes_empty_entries() {
    let mut reg = WsIoEventRegistry::new();
    let a = reg.on("hello", 1);
    let b = reg.on("hello", 1);
    reg.off_by_handler_id("hello", a);
    assert_eq!(reg.dispatch_event_packet("hello").unwrap(), vec![b]);
    reg.off_by_handler_id("hello", b);
    assert!(reg.dispatch_event_packet("hello").is_none());
    // An id that is not registered changes nothing.
    reg.off_by_handler_id("hello", 99);
}

#[test]
fn state_word_compare_and_swap() {
    let mut word = AtomicEnum::new(SessionState::Created);
    assert_eq!(word.get(), SessionState::Created);
    assert!(word.is(SessionState::Created));
    assert!(word.ensure(SessionState::Created).is_ok());
    assert_eq!(word.ensure(SessionState::Ready).unwrap_err(), WsIoError::Status);

    assert!(word.try_transition(SessionState::Created, SessionState::AwaitingInit).is_ok());
    assert_eq!(word.get(), SessionState::AwaitingInit);
    // A CAS from the wrong state fails and changes nothing.
    assert_eq!(
        word.try_transition(SessionState::Created, SessionState::Initiating).unwrap_err(),
        WsIoError::Status
    );
    assert_eq!(word.get(), SessionState::AwaitingInit);

    word.store(SessionState::Closing);
    assert!(word.is(SessionState::Closing));
}

#[test]
fn failed_payload_decode_runs_no_handlers() {
    // A payload of the wrong shape fails to decode; the snapshot of
    // handlers is discarded and nothing else changes.
    let mut reg = WsIoEventRegistry::new();
    let a = reg.on("hello", 1);
    let ids = reg.dispatch_event_packet("hello").unwrap();
    assert_eq!(
        WsIoEventRegistry::handlers_after_payload_decode(false, ids.clone()),
        Vec::<u32>::new()
    );
    assert_eq!(WsIoEventRegistry::handlers_after_payload_decode(true, ids), vec![a]);
    // The registry itself is untouched by dispatch.
    assert_eq!(reg.dispatch_event_packet("hello").unwrap(), vec![a]);
}
