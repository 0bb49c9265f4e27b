use std::time::Duration;

use wsio::client::{
    classify_incoming_client_packet, init_watchdog_should_close, ready_watchdog_should_close,
    ClientPacketAction, ClientStatus, SessionState, WsIoClientBuilder, WsIoClientSession,
};
use wsio::codec::WsIoPacketCodec;
use wsio::error::WsIoError;
use wsio::packet::WsIoPacket;

#[test]
fn only_websocket_schemes_are_accepted() {
    assert!(WsIoClientBuilder::new("ws", "/json").is_ok());
    assert!(WsIoClientBuilder::new("wss", "/json").is_ok());
    match WsIoClientBuilder::new("http", "/json") {
        Err(e) => assert_eq!(e, WsIoError::Config),
        Ok(_) => panic!("a non-websocket scheme must be rejected"),
    }
}

#[test]
fn client_builder_normalizes_the_namespace_and_seeds_defaults() {
    let builder = WsIoClientBuilder::new("ws", "/json").unwrap();
    assert_eq!(builder.namespace, "/json");
    assert_eq!(builder.request_path, "/ws.io");
    assert_eq!(builder.config.packet_codec, WsIoPacketCodec::SerdeJson);
    assert_eq!(builder.config.init_handler_timeout, Duration::from_secs(3));
    assert_eq!(builder.config.init_packet_timeout, Duration::from_secs(5));
    assert_eq!(builder.config.ready_packet_timeout, Duration::from_secs(5));
    assert_eq!(builder.config.on_session_close_handler_timeout, Duration::from_secs(2));
    assert_eq!(builder.config.ping_interval, Duration::from_secs(25));
    assert_eq!(builder.config.reconnect_delay, Duration::from_secs(1));

    let builder = WsIoClientBuilder::new("ws", "/a//b/").unwrap();
    assert_eq!(builder.namespace, "/a/b");
    let builder = WsIoClientBuilder::new("ws", "").unwrap();
    assert_eq!(builder.namespace, "/");
    let builder = WsIoClientBuilder::new("ws", "///").unwrap();
    assert_eq!(builder.namespace, "/");
}

#[test]
fn client_builder_setters_override_the_defaults() {
    let client = WsIoClientBuilder::new("ws", "/json")
        .unwrap()
        .init_handler_timeout(Duration::from_secs(1))
        .init_packet_timeout(Duration::from_secs(2))
        .on_session_close_handler_timeout(Duration::from_secs(3))
        .packet_codec(WsIoPacketCodec::Postcard)
        .ping_interval(Duration::from_secs(4))
        .ready_packet_timeout(Duration::from_secs(6))
        .reconnect_delay(Duration::from_secs(7))
        .request_path("ws.io")
        .build();
    assert_eq!(client.config.init_handler_timeout, Duration::from_secs(1));
    assert_eq!(client.config.init_packet_timeout, Duration::from_secs(2));
    assert_eq!(client.config.on_session_close_handler_timeout, Duration::from_secs(3));
    assert_eq!(client.config.packet_codec, WsIoPacketCodec::Postcard);
    assert_eq!(client.config.ping_interval, Duration::from_secs(4));
    assert_eq!(client.config.ready_packet_timeout, Duration::from_secs(6));
    assert_eq!(client.config.reconnect_delay, Duration::from_secs(7));
    assert_eq!(client.request_path, "/ws.io");
    assert_eq!(client.status.get(), ClientStatus::Stopped);
}

#[test]
fn emit_outside_running_is_a_status_error() {
    let mut client = WsIoClientBuilder::new("ws", "/json").unwrap().build();
    // Stopped: rejected synchronously.
    assert_eq!(client.emit("x", None).unwrap_err(), WsIoError::Status);
    assert!(client.connect());
    let bytes = client.emit("x", None).unwrap();
    assert_eq!(bytes, b"[1,\"x\",null]".to_vec());
    // Stopping: rejected again.
    assert!(client.disconnect_begin());
    assert_eq!(client.emit("x", None).unwrap_err(), WsIoError::Status);
    client.disconnect_finish();
    assert_eq!(client.status.get(), ClientStatus::Stopped);
    assert_eq!(client.emit("x", None).unwrap_err(), WsIoError::Status);
}

#[test]
fn session_walks_the_handshake_in_order() {
    let mut session = WsIoClientSession::new();
    assert_eq!(session.state.get(), SessionState::Created);
    session.init();
    assert_eq!(session.state.get(), SessionState::AwaitingInit);
    session.init_received().unwrap();
    assert_eq!(session.state.get(), SessionState::Initiating);
    session.init_handled().unwrap();
    assert_eq!(session.state.get(), SessionState::AwaitingReady);
    session.ready_received().unwrap();
    assert_eq!(session.state.get(), SessionState::Ready);
    assert!(session.is_ready());
    assert!(session.close());
    assert_eq!(session.state.get(), SessionState::Closing);
    assert!(!session.close());
    session.cleanup();
    assert_eq!(session.state.get(), SessionState::Closed);
}

#[test]
fn out_of_order_handshake_packets_are_protocol_errors() {
    let mut session = WsIoClientSession::new();
    session.init();
    // Ready before Init is a protocol error and changes nothing.
    assert_eq!(session.ready_received().unwrap_err(), WsIoError::Protocol);
    assert_eq!(session.state.get(), SessionState::AwaitingInit);
    session.init_received().unwrap();
    // A second Init is a protocol error too.
    assert_eq!(session.init_received().unwrap_err(), WsIoError::Protocol);
    assert_eq!(session.state.get(), SessionState::Initiating);
}

#[test]
fn missing_init_closes_the_session_and_the_runtime_retries() {
    // The server never sends Init: when the watchdog fires the session is
    // still awaiting it, so the session closes; the runtime stays running
    // and schedules the next attempt.
    let mut client = WsIoClientBuilder::new("ws", "/json").unwrap().build();
    assert!(client.connect());
    client.begin_session();
    let mut session = WsIoClientSession::new();
    session.init();
    assert!(init_watchdog_should_close(session.state.get()));
    assert!(session.close());
    assert_eq!(session.state.get(), SessionState::Closing);
    session.cleanup();
    client.clear_session();
    assert!(client.session.is_none());
    assert!(client.should_reconnect());
    // Once the handshake has moved on, a firing watchdog does nothing.
    let mut late = WsIoClientSession::new();
    late.init();
    late.init_received().unwrap();
    assert!(!init_watchdog_should_close(late.state.get()));
    late.init_handled().unwrap();
    assert!(ready_watchdog_should_close(late.state.get()));
    late.ready_received().unwrap();
    assert!(!ready_watchdog_should_close(late.state.get()));
}

#[test]
fn incoming_packets_are_classified_by_state() {
    let event = WsIoPacket::new_event("hello", None);
    let keyless_event = WsIoPacket::new(wsio::packet::WsIoPacketType::Event, None, None);
    let init = WsIoPacket::new_init(None);
    let ready = WsIoPacket::new_ready();
    let disconnect = WsIoPacket::new_disconnect();

    assert_eq!(
        classify_incoming_client_packet(SessionState::Ready, &event),
        ClientPacketAction::DispatchEvent
    );
    assert_eq!(
        classify_incoming_client_packet(SessionState::Ready, &keyless_event),
        ClientPacketAction::Reject
    );
    assert_eq!(
        classify_incoming_client_packet(SessionState::AwaitingInit, &event),
        ClientPacketAction::IgnoreEvent
    );
    assert_eq!(
        classify_incoming_client_packet(SessionState::AwaitingInit, &init),
        ClientPacketAction::HandleInit
    );
    assert_eq!(
        classify_incoming_client_packet(SessionState::Ready, &init),
        ClientPacketAction::Reject
    );
    assert_eq!(
        classify_incoming_client_packet(SessionState::AwaitingReady, &ready),
        ClientPacketAction::HandleReady
    );
    assert_eq!(
        classify_incoming_client_packet(SessionState::AwaitingInit, &ready),
        ClientPacketAction::Reject
    );
    assert_eq!(
        classify_incoming_client_packet(SessionState::Ready, &disconnect),
        ClientPacketAction::RuntimeDisconnect
    );
}

#[test]
fn registry_rides_on_the_client() {
    let mut client = WsIoClientBuilder::new("ws", "/json").unwrap().build();
    let a = client.event_registry.on("hello", 7);
    let b = client.event_registry.on("hello", 7);
    assert_eq!(client.event_registry.dispatch_event_packet("hello").unwrap(), vec![a, b]);
    client.event_registry.off_by_handler_id("hello", a);
    assert_eq!(client.event_registry.dispatch_event_packet("hello").unwrap(), vec![b]);
    client.event_registry.off("hello");
    assert!(client.event_registry.dispatch_event_packet("hello").is_none());
}

#[test]
fn forwarder_waits_until_a_session_is_ready() {
    let mut client = WsIoClientBuilder::new("ws", "/json").unwrap().build();
    assert!(!client.is_session_ready());
    client.begin_session();
    assert!(!client.is_session_ready());
    match &mut client.session {
        Some(session) => {
            session.init();
            session.init_received().unwrap();
            session.init_handled().unwrap();
            session.ready_received().unwrap();
        },
        None => unreachable!(),
    }
    assert!(client.is_session_ready());
}

#[test]
fn emitted_event_round_trips_to_registered_handlers() {
    // One side emits "hello" with a JSON payload; the bytes cross the
    // wire; the other side decodes, classifies and dispatches to every
    // handler registered for the name, with the payload intact.
    let mut sender = WsIoClientBuilder::new("ws", "/json").unwrap().build();
    assert!(sender.connect());
    let wire = sender.emit("hello", Some(b"{\"n\":1}".to_vec())).unwrap();

    let packet = WsIoPacketCodec::SerdeJson.decode(&wire).unwrap();
    assert_eq!(
        classify_incoming_client_packet(SessionState::Ready, &packet),
        ClientPacketAction::DispatchEvent
    );
    assert_eq!(packet.key.as_deref(), Some("hello"));
    assert_eq!(packet.data, Some(b"{\"n\":1}".to_vec()));

    let mut receiver = wsio::registry::WsIoEventRegistry::new();
    let first = receiver.on("hello", 9);
    let second = receiver.on("hello", 9);
    let plan = receiver.dispatch_event_packet(packet.key.as_deref().unwrap()).unwrap();
    assert_eq!(plan, vec![first, second]);
}
