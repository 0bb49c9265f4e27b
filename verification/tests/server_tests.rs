use std::time::Duration;

use wsio::broadcast::WsIoServerNamespaceBroadcastOperator;
use wsio::codec::WsIoPacketCodec;
use wsio::connection::ConnectionState;
use wsio::error::WsIoError;
use wsio::server::{WsIoServer, WsIoServerStatus};

fn server_with_namespace(path: &str) -> WsIoServer {
    let mut server = WsIoServer::builder().build();
    server.new_namespace(path, WsIoPacketCodec::SerdeJson).unwrap();
    server
}

/// Walks one connection through the whole handshake to `Ready`.
fn connect_ready(server: &mut WsIoServer, path: &str) -> u64 {
    let id = server.create_connection(path).unwrap();
    server.connection_ensure(path, id, ConnectionState::Created).unwrap();
    server
        .connection_transition(path, id, ConnectionState::Created, ConnectionState::AwaitingInit)
        .unwrap();
    server
        .connection_transition(path, id, ConnectionState::AwaitingInit, ConnectionState::Initiating)
        .unwrap();
    server
        .connection_transition(path, id, ConnectionState::Initiating, ConnectionState::Activating)
        .unwrap();
    server.connection_ensure(path, id, ConnectionState::Activating).unwrap();
    server.connection_mark_ready(path, id).unwrap();
    id
}

#[test]
fn server_builder_starts_from_the_defaults() {
    let builder = WsIoServer::builder();
    assert_eq!(builder.config.broadcast_concurrency_limit, 512);
    assert_eq!(builder.config.init_request_handler_timeout, Duration::from_secs(3));
    assert_eq!(builder.config.init_response_handler_timeout, Duration::from_secs(3));
    assert_eq!(builder.config.init_response_timeout, Duration::from_secs(5));
    assert_eq!(builder.config.middleware_execution_timeout, Duration::from_secs(2));
    assert_eq!(builder.config.on_close_handler_timeout, Duration::from_secs(2));
    assert_eq!(builder.config.on_connect_handler_timeout, Duration::from_secs(3));
    assert_eq!(builder.config.packet_codec, WsIoPacketCodec::SerdeJson);
    assert_eq!(builder.config.request_path, "/ws.io");
}

#[test]
fn server_builder_setters_override_the_defaults() {
    let server = WsIoServer::builder()
        .broadcast_concurrency_limit(8)
        .init_request_handler_timeout(Duration::from_secs(1))
        .init_response_handler_timeout(Duration::from_secs(1))
        .init_response_timeout(Duration::from_secs(9))
        .middleware_execution_timeout(Duration::from_secs(1))
        .on_close_handler_timeout(Duration::from_secs(1))
        .on_connect_handler_timeout(Duration::from_secs(1))
        .packet_codec(WsIoPacketCodec::Msgpack)
        .request_path("/socket")
        .build();
    assert_eq!(server.config.broadcast_concurrency_limit, 8);
    assert_eq!(server.config.init_response_timeout, Duration::from_secs(9));
    assert_eq!(server.config.packet_codec, WsIoPacketCodec::Msgpack);
    assert_eq!(server.config.request_path, "/socket");
    assert_eq!(server.status.get(), WsIoServerStatus::Running);
}

#[test]
fn duplicate_namespace_is_a_config_error() {
    let mut server = server_with_namespace("/json");
    assert_eq!(
        server.new_namespace("/json", WsIoPacketCodec::Cbor).unwrap_err(),
        WsIoError::Config
    );
    assert_eq!(server.namespace_count(), 1);
    server.new_namespace("/cbor", WsIoPacketCodec::Cbor).unwrap();
    assert_eq!(server.namespace_count(), 2);
    assert!(server.of("/json").is_some());
    assert!(server.of("/missing").is_none());
}

#[test]
fn a_connection_is_visible_exactly_from_ready_to_cleanup() {
    let mut server = server_with_namespace("/json");
    let id = server.create_connection("/json").unwrap();
    // Not yet handshaken: invisible to broadcasts.
    assert_eq!(server.connection_count(), 0);
    server
        .connection_transition("/json", id, ConnectionState::Created, ConnectionState::AwaitingInit)
        .unwrap();
    server
        .connection_transition(
            "/json",
            id,
            ConnectionState::AwaitingInit,
            ConnectionState::Initiating,
        )
        .unwrap();
    server
        .connection_transition(
            "/json",
            id,
            ConnectionState::Initiating,
            ConnectionState::Activating,
        )
        .unwrap();
    assert_eq!(server.connection_count(), 0);
    server.connection_mark_ready("/json", id).unwrap();
    assert_eq!(server.connection_count(), 1);
    // Closing keeps it visible; cleanup removes it.
    assert!(server.connection_close("/json", id).unwrap());
    assert_eq!(server.connection_count(), 1);
    server.connection_cleanup("/json", id).unwrap();
    assert_eq!(server.connection_count(), 0);
    assert_eq!(
        server.connection_cleanup("/json", id).unwrap_err(),
        WsIoError::Status
    );
}

#[test]
fn handshake_steps_cannot_be_skipped() {
    let mut server = server_with_namespace("/json");
    let id = server.create_connection("/json").unwrap();
    // Ready requires Activating: marking ready straight from Created fails.
    assert_eq!(server.connection_mark_ready("/json", id).unwrap_err(), WsIoError::Status);
    assert_eq!(server.connection_count(), 0);
    // A transition from the wrong source state fails and changes nothing.
    assert_eq!(
        server
            .connection_transition(
                "/json",
                id,
                ConnectionState::AwaitingInit,
                ConnectionState::Initiating,
            )
            .unwrap_err(),
        WsIoError::Status
    );
    server.connection_ensure("/json", id, ConnectionState::Created).unwrap();
}

#[test]
fn aborted_handshake_never_reaches_ready() {
    // The init-response handler timing out closes the connection during
    // the handshake; afterwards neither activation nor ready can happen.
    let mut server = server_with_namespace("/json");
    let id = server.create_connection("/json").unwrap();
    server
        .connection_transition("/json", id, ConnectionState::Created, ConnectionState::AwaitingInit)
        .unwrap();
    server
        .connection_transition(
            "/json",
            id,
            ConnectionState::AwaitingInit,
            ConnectionState::Initiating,
        )
        .unwrap();
    // Handler timed out: the caller closes instead of continuing.
    assert!(server.connection_close("/json", id).unwrap());
    assert_eq!(
        server
            .connection_transition(
                "/json",
                id,
                ConnectionState::Initiating,
                ConnectionState::Activating,
            )
            .unwrap_err(),
        WsIoError::Status
    );
    assert_eq!(server.connection_mark_ready("/json", id).unwrap_err(), WsIoError::Status);
    assert_eq!(server.connection_count(), 0);
    server.connection_cleanup("/json", id).unwrap();
}

#[test]
fn rooms_track_joined_connections_both_ways() {
    let mut server = server_with_namespace("/json");
    let a = connect_ready(&mut server, "/json");
    let b = connect_ready(&mut server, "/json");
    server.connection_join("/json", a, "r").unwrap();
    server.connection_join("/json", b, "r").unwrap();
    server.connection_join("/json", a, "s").unwrap();

    let ns = server.of("/json").unwrap();
    let everyone = WsIoServerNamespaceBroadcastOperator::new();
    let room_r = everyone.to(&vec!["r".to_string()]);
    assert_eq!(room_r.resolve_targets(ns), vec![a, b]);
    let room_s = WsIoServerNamespaceBroadcastOperator::new().to(&vec!["s".to_string()]);
    assert_eq!(room_s.resolve_targets(ns), vec![a]);

    server.connection_leave("/json", a, "r").unwrap();
    let ns = server.of("/json").unwrap();
    let room_r = WsIoServerNamespaceBroadcastOperator::new().to(&vec!["r".to_string()]);
    assert_eq!(room_r.resolve_targets(ns), vec![b]);
    // Leaving a room not joined changes nothing.
    server.connection_leave("/json", a, "r").unwrap();
}

#[test]
fn broadcast_to_room_except_connection_reaches_the_rest() {
    // Three connections; two join room "r"; excluding one of them leaves
    // exactly the other as the target.
    let mut server = server_with_namespace("/json");
    let a = connect_ready(&mut server, "/json");
    let b = connect_ready(&mut server, "/json");
    let c = connect_ready(&mut server, "/json");
    server.connection_join("/json", a, "r").unwrap();
    server.connection_join("/json", b, "r").unwrap();

    let ns = server.of("/json").unwrap();
    let op = WsIoServerNamespaceBroadcastOperator::new()
        .to(&vec!["r".to_string()])
        .except_connection_ids(&vec![b]);
    let (message, targets) = op.emit(ns, "p", Some(vec![1])).unwrap();
    assert_eq!(targets, vec![a]);
    assert_eq!(message, b"[1,\"p\",[1]]".to_vec());
    assert!(!targets.contains(&c));
}

#[test]
fn plain_broadcast_reaches_every_ready_connection() {
    let mut server = server_with_namespace("/json");
    let a = connect_ready(&mut server, "/json");
    let b = connect_ready(&mut server, "/json");
    let pending = server.create_connection("/json").unwrap();

    let ns = server.of("/json").unwrap();
    let op = WsIoServerNamespaceBroadcastOperator::new();
    let targets = op.resolve_targets(ns);
    assert_eq!(targets, vec![a, b]);
    assert!(!targets.contains(&pending));

    let (_, disconnect_targets) = op.disconnect(ns).unwrap();
    assert_eq!(disconnect_targets, vec![a, b]);
    assert_eq!(op.close(ns), vec![a, b]);
}

#[test]
fn excluded_rooms_are_subtracted() {
    let mut server = server_with_namespace("/json");
    let a = connect_ready(&mut server, "/json");
    let b = connect_ready(&mut server, "/json");
    server.connection_join("/json", b, "quiet").unwrap();

    let ns = server.of("/json").unwrap();
    let op = WsIoServerNamespaceBroadcastOperator::new().except(&vec!["quiet".to_string()]);
    assert_eq!(op.resolve_targets(ns), vec![a]);
}

#[test]
fn server_emit_plans_one_frame_per_namespace() {
    let mut server = server_with_namespace("/json");
    server.new_namespace("/cbor", WsIoPacketCodec::Cbor).unwrap();
    let a = connect_ready(&mut server, "/json");
    let b = connect_ready(&mut server, "/cbor");

    let plans = server.emit("tick", None).unwrap();
    assert_eq!(plans.len(), 2);
    assert_eq!(plans[0].targets, vec![a]);
    assert_eq!(plans[1].targets, vec![b]);
    assert_eq!(plans[0].message, b"[1,\"tick\",null]".to_vec());
    assert_ne!(plans[1].message, plans[0].message);
}

#[test]
fn shutdown_empties_every_namespace() {
    // Two namespaces with many connections each: after shutdown every
    // connection is gone and the global count is zero.
    let mut server = server_with_namespace("/one");
    server.new_namespace("/two", WsIoPacketCodec::SerdeJson).unwrap();
    for _ in 0..100 {
        connect_ready(&mut server, "/one");
        connect_ready(&mut server, "/two");
    }
    assert_eq!(server.connection_count(), 200);
    server.shutdown();
    assert_eq!(server.connection_count(), 0);
    assert_eq!(server.status.get(), WsIoServerStatus::Stopped);
    assert_eq!(server.namespace_count(), 2);
    // A stopped server refuses to emit.
    assert_eq!(server.emit("x", None).unwrap_err(), WsIoError::Status);
}

#[test]
fn remove_namespace_drops_its_connections() {
    let mut server = server_with_namespace("/a");
    server.new_namespace("/b", WsIoPacketCodec::SerdeJson).unwrap();
    connect_ready(&mut server, "/a");
    let kept = connect_ready(&mut server, "/b");
    assert_eq!(server.connection_count(), 2);
    server.remove_namespace("/a");
    assert_eq!(server.namespace_count(), 1);
    assert_eq!(server.connection_count(), 1);
    assert!(server.of("/a").is_none());
    let ns = server.of("/b").unwrap();
    let op = WsIoServerNamespaceBroadcastOperator::new();
    assert_eq!(op.resolve_targets(ns), vec![kept]);
    // Removing a namespace that does not exist changes nothing.
    server.remove_namespace("/a");
    assert_eq!(server.namespace_count(), 1);
}

#[test]
fn stopped_namespace_rejects_new_connections() {
    let mut server = server_with_namespace("/json");
    server.shutdown();
    assert_eq!(server.create_connection("/json").unwrap_err(), WsIoError::Status);
}

#[test]
fn operations_on_missing_connections_are_status_errors() {
    let mut server = server_with_namespace("/json");
    assert_eq!(server.connection_join("/json", 7, "r").unwrap_err(), WsIoError::Status);
    assert_eq!(server.connection_leave("/json", 7, "r").unwrap_err(), WsIoError::Status);
    assert_eq!(server.connection_close("/json", 7).unwrap_err(), WsIoError::Status);
    assert_eq!(
        server
            .connection_transition(
                "/missing",
                0,
                ConnectionState::Created,
                ConnectionState::AwaitingInit,
            )
            .unwrap_err(),
        WsIoError::Status
    );
    assert!(server.connection_ensure("/json", 7, ConnectionState::Created).is_err());
}
