use core::time::Duration;

use vstd::prelude::*;

use crate::atomic_enum::{AtomicEnum, AtomicEnumValue};
use crate::codec::{wire_bytes, WsIoPacketCodec};
use crate::error::WsIoError;
use crate::packet::{opt_bytes_view, packet_type_code, WsIoPacket, WsIoPacketType};
use crate::paths::normalize_request_path;
use crate::registry::WsIoEventRegistry;
use crate::stdspecs::duration_from_secs;

verus! {

/// The states of a client-side session. Initial state is `Created`;
/// `Closed` is terminal.
#[derive(Clone, Copy, Debug, PartialEq, Eq, Structural)]
pub enum SessionState {
    Created,
    AwaitingInit,
    Initiating,
    AwaitingReady,
    Ready,
    Closing,
    Closed,
}

impl AtomicEnumValue for SessionState {
    fn eq_value(self, other: Self) -> (r: bool)
        ensures
            r == (self == other),
    {
        self == other
    }
}

/// The transition relation of the client session state machine: the
/// handshake chain `Created -> AwaitingInit -> Initiating ->
/// AwaitingReady -> Ready`, teardown from any live state to `Closing`,
/// and `Closing -> Closed`. No transition skips a state.
pub open spec fn session_step_allowed(from: SessionState, to: SessionState) -> bool {
    ||| (from == SessionState::Created && to == SessionState::AwaitingInit)
    ||| (from == SessionState::AwaitingInit && to == SessionState::Initiating)
    ||| (from == SessionState::Initiating && to == SessionState::AwaitingReady)
    ||| (from == SessionState::AwaitingReady && to == SessionState::Ready)
    ||| (from != SessionState::Closing && from != SessionState::Closed && to
        == SessionState::Closing)
    ||| (from == SessionState::Closing && to == SessionState::Closed)
}

/// No step of the client session machine skips over a handshake state,
/// and nothing leaves the terminal state.
pub proof fn lemma_session_dag_has_no_skips()
    ensures
        !session_step_allowed(SessionState::Created, SessionState::Initiating),
        !session_step_allowed(SessionState::Created, SessionState::AwaitingReady),
        !session_step_allowed(SessionState::Created, SessionState::Ready),
        !session_step_allowed(SessionState::AwaitingInit, SessionState::AwaitingReady),
        !session_step_allowed(SessionState::AwaitingInit, SessionState::Ready),
        !session_step_allowed(SessionState::Initiating, SessionState::Ready),
        forall|to: SessionState| !session_step_allowed(SessionState::Closed, to),
        forall|to: SessionState|
            session_step_allowed(SessionState::Closing, to) ==> to == SessionState::Closed,
{
}

/// The lifecycle states of the client runtime.
#[derive(Clone, Copy, Debug, PartialEq, Eq, Structural)]
pub enum ClientStatus {
    Running,
    Stopping,
    Stopped,
}

impl AtomicEnumValue for ClientStatus {
    fn eq_value(self, other: Self) -> (r: bool)
        ensures
            r == (self == other),
    {
        self == other
    }
}

/// What the client does with an incoming packet, as a function of the
/// session state and the packet alone.
#[derive(Clone, Debug, PartialEq, Eq, Structural)]
pub enum ClientPacketAction {
    /// A server `Disconnect`: stop the runtime.
    RuntimeDisconnect,
    /// An `Event` in the steady state: decode and run its handlers.
    DispatchEvent,
    /// An `Event` before the steady state: drop it silently.
    IgnoreEvent,
    /// The server `Init` arrived while awaited: run the init exchange.
    HandleInit,
    /// The server `Ready` arrived while awaited: enter the steady state.
    HandleReady,
    /// A packet the current state disallows: fail the connection.
    Reject,
}

/// Classifies an incoming packet for a client session: `Init` is only
/// acceptable in `AwaitingInit` and `Ready` only in `AwaitingReady`; an
/// `Event` needs the steady state and a key; `Disconnect` stops the
/// runtime.
pub fn classify_incoming_client_packet(state: SessionState, packet: &WsIoPacket) -> (r:
    ClientPacketAction)
    ensures
        r == ClientPacketAction::RuntimeDisconnect <==> packet.packet_type
            == WsIoPacketType::Disconnect,
        r == ClientPacketAction::DispatchEvent <==> (packet.packet_type == WsIoPacketType::Event
            && state == SessionState::Ready && packet.key is Some),
        r == ClientPacketAction::IgnoreEvent <==> (packet.packet_type == WsIoPacketType::Event
            && state != SessionState::Ready),
        r == ClientPacketAction::HandleInit <==> (packet.packet_type == WsIoPacketType::Init
            && state == SessionState::AwaitingInit),
        r == ClientPacketAction::HandleReady <==> (packet.packet_type == WsIoPacketType::Ready
            && state == SessionState::AwaitingReady),
{
    match packet.packet_type {
        WsIoPacketType::Disconnect => ClientPacketAction::RuntimeDisconnect,
        WsIoPacketType::Event => {
            if !state.eq_value(SessionState::Ready) {
                ClientPacketAction::IgnoreEvent
            } else if packet.key.is_some() {
                ClientPacketAction::DispatchEvent
            } else {
                ClientPacketAction::Reject
            }
        },
        WsIoPacketType::Init => {
            if state.eq_value(SessionState::AwaitingInit) {
                ClientPacketAction::HandleInit
            } else {
                ClientPacketAction::Reject
            }
        },
        WsIoPacketType::Ready => {
            if state.eq_value(SessionState::AwaitingReady) {
                ClientPacketAction::HandleReady
            } else {
                ClientPacketAction::Reject
            }
        },
    }
}

/// Whether the init watchdog, on firing, should close the session: only
/// when the server `Init` is still being awaited.
pub fn init_watchdog_should_close(state: SessionState) -> (r: bool)
    ensures
        r == (state == SessionState::AwaitingInit),
{
    state.eq_value(SessionState::AwaitingInit)
}

/// Whether the ready watchdog, on firing, should close the session: only
/// when the server `Ready` is still being awaited.
pub fn ready_watchdog_should_close(state: SessionState) -> (r: bool)
    ensures
        r == (state == SessionState::AwaitingReady),
{
    state.eq_value(SessionState::AwaitingReady)
}

/// One live connection's state machine on the client side. The socket,
/// its channels and the watchdog tasks are plumbing and live with the
/// caller.
pub struct WsIoClientSession {
    pub state: AtomicEnum<SessionState>,
}

impl WsIoClientSession {
    /// A fresh session in state `Created`.
    pub fn new() -> (r: Self)
        ensures
            r.state.current() == SessionState::Created,
    {
        Self { state: AtomicEnum::new(SessionState::Created) }
    }

    /// Starts the handshake: the session begins awaiting the server
    /// `Init`, and the caller arms the init watchdog.
    pub fn init(&mut self)
        requires
            old(self).state.current() == SessionState::Created,
        ensures
            final(self).state.current() == SessionState::AwaitingInit,
            session_step_allowed(old(self).state.current(), final(self).state.current()),
    {
        self.state.store(SessionState::AwaitingInit);
    }

    /// The server `Init` arrived: move to `Initiating` so the init
    /// handler can run. A protocol error, changing nothing, in any other
    /// state.
    pub fn init_received(&mut self) -> (r: Result<(), WsIoError>)
        ensures
            old(self).state.current() == SessionState::AwaitingInit ==> r is Ok && final(self).state.current() == SessionState::Initiating && session_step_allowed(
                old(self).state.current(),
                final(self).state.current(),
            ),
            old(self).state.current() != SessionState::AwaitingInit ==> (r matches Err(e) && e
                == WsIoError::Protocol) && *final(self) == *old(self),
    {
        match self.state.try_transition(SessionState::AwaitingInit, SessionState::Initiating) {
            Ok(()) => Ok(()),
            Err(_) => Err(WsIoError::Protocol),
        }
    }

    /// The init handler finished and the reply was handed off: await the
    /// server `Ready`; the caller arms the ready watchdog. A status
    /// error, changing nothing, in any other state.
    pub fn init_handled(&mut self) -> (r: Result<(), WsIoError>)
        ensures
            old(self).state.current() == SessionState::Initiating ==> r is Ok && final(self).state.current() == SessionState::AwaitingReady && session_step_allowed(
                old(self).state.current(),
                final(self).state.current(),
            ),
            old(self).state.current() != SessionState::Initiating ==> (r matches Err(e) && e
                == WsIoError::Status) && *final(self) == *old(self),
    {
        self.state.try_transition(SessionState::Initiating, SessionState::AwaitingReady)
    }

    /// The server `Ready` arrived: enter the steady state. A protocol
    /// error, changing nothing, in any other state.
    pub fn ready_received(&mut self) -> (r: Result<(), WsIoError>)
        ensures
            old(self).state.current() == SessionState::AwaitingReady ==> r is Ok && final(self).state.current() == SessionState::Ready && session_step_allowed(
                old(self).state.current(),
                final(self).state.current(),
            ),
            old(self).state.current() != SessionState::AwaitingReady ==> (r matches Err(e) && e
                == WsIoError::Protocol) && *final(self) == *old(self),
    {
        match self.state.try_transition(SessionState::AwaitingReady, SessionState::Ready) {
            Ok(()) => Ok(()),
            Err(_) => Err(WsIoError::Protocol),
        }
    }

    /// Marks the session `Closing` so a close frame can be sent; a
    /// session already past `Closing` is left alone. Returns whether the
    /// close frame should be sent.
    pub fn close(&mut self) -> (sent: bool)
        ensures
            sent == (old(self).state.current() != SessionState::Closing && old(self).state.current() != SessionState::Closed),
            sent ==> final(self).state.current() == SessionState::Closing
                && session_step_allowed(
                old(self).state.current(),
                final(self).state.current(),
            ),
            !sent ==> *final(self) == *old(self),
    {
        let st = self.state.get();
        match st {
            SessionState::Closing | SessionState::Closed => false,
            _ => {
                self.state.store(SessionState::Closing);
                true
            },
        }
    }

    /// Finishes teardown after the close handler ran: the session ends
    /// `Closed`.
    pub fn cleanup(&mut self)
        ensures
            final(self).state.current() == SessionState::Closed,
    {
        let st = self.state.get();
        match st {
            SessionState::Closing | SessionState::Closed => {},
            _ => {
                self.state.store(SessionState::Closing);
            },
        }
        self.state.store(SessionState::Closed);
    }

    /// Whether the session is in its steady state.
    pub fn is_ready(&self) -> (r: bool)
        ensures
            r == (self.state.current() == SessionState::Ready),
    {
        self.state.is(SessionState::Ready)
    }
}

/// The client configuration: handler and handshake timeouts, the
/// heartbeat period, the reconnect delay, and the packet codec.
pub struct WsIoClientConfig {
    pub init_handler_timeout: Duration,
    pub init_packet_timeout: Duration,
    pub on_session_close_handler_timeout: Duration,
    pub packet_codec: WsIoPacketCodec,
    pub ping_interval: Duration,
    pub ready_packet_timeout: Duration,
    pub reconnect_delay: Duration,
}

/// Builds a client, starting from sensible defaults, for the
/// namespace named by a URL path.
pub struct WsIoClientBuilder {
    pub config: WsIoClientConfig,
    pub namespace: String,
    pub request_path: String,
}

impl WsIoClientBuilder {
    /// A builder for the namespace the URL path names: the path is
    /// normalized, the codec defaults to JSON, the mount point to
    /// "/ws.io", and the timeouts, heartbeat period and reconnect delay
    /// to their standard values. The URL scheme must be `ws` or `wss`;
    /// anything else is a configuration error.
    pub fn new(scheme: &str, url_path: &str) -> (r: Result<Self, WsIoError>)
        ensures
            r is Ok <==> (scheme@ == "ws"@ || scheme@ == "wss"@),
            r matches Err(e) ==> e == WsIoError::Config,
            r matches Ok(b) ==> ({
                &&& b.namespace@ == crate::paths::normalized_path(url_path@)
                &&& b.request_path@ == "/ws.io"@
                &&& b.config.packet_codec == WsIoPacketCodec::SerdeJson
                &&& b.config.init_handler_timeout == duration_from_secs(3)
                &&& b.config.init_packet_timeout == duration_from_secs(5)
                &&& b.config.on_session_close_handler_timeout == duration_from_secs(2)
                &&& b.config.ping_interval == duration_from_secs(25)
                &&& b.config.ready_packet_timeout == duration_from_secs(5)
                &&& b.config.reconnect_delay == duration_from_secs(1)
            }),
    {
        if !crate::paths::valid_ws_scheme(scheme) {
            return Err(WsIoError::Config);
        }
        Ok(
            Self {
                config: WsIoClientConfig {
                    init_handler_timeout: Duration::from_secs(3),
                    init_packet_timeout: Duration::from_secs(5),
                    on_session_close_handler_timeout: Duration::from_secs(2),
                    packet_codec: WsIoPacketCodec::SerdeJson,
                    ping_interval: Duration::from_secs(25),
                    ready_packet_timeout: Duration::from_secs(5),
                    reconnect_delay: Duration::from_secs(1),
                },
                namespace: normalize_request_path(url_path),
                request_path: "/ws.io".to_owned(),
            },
        )
    }

    /// Bounds the user init handler.
    pub fn init_handler_timeout(self, duration: Duration) -> (r: Self)
        ensures
            r.config == (WsIoClientConfig { init_handler_timeout: duration, ..self.config }),
            r.namespace == self.namespace,
            r.request_path == self.request_path,
    {
        let mut b = self;
        b.config.init_handler_timeout = duration;
        b
    }

    /// Bounds the wait for the server `Init`.
    pub fn init_packet_timeout(self, duration: Duration) -> (r: Self)
        ensures
            r.config == (WsIoClientConfig { init_packet_timeout: duration, ..self.config }),
            r.namespace == self.namespace,
            r.request_path == self.request_path,
    {
        let mut b = self;
        b.config.init_packet_timeout = duration;
        b
    }

    /// Bounds the session close handler.
    pub fn on_session_close_handler_timeout(self, duration: Duration) -> (r: Self)
        ensures
            r.config == (WsIoClientConfig {
                on_session_close_handler_timeout: duration,
                ..self.config
            }),
            r.namespace == self.namespace,
            r.request_path == self.request_path,
    {
        let mut b = self;
        b.config.on_session_close_handler_timeout = duration;
        b
    }

    /// Selects the packet codec; it must match the server namespace's.
    pub fn packet_codec(self, packet_codec: WsIoPacketCodec) -> (r: Self)
        ensures
            r.config == (WsIoClientConfig { packet_codec, ..self.config }),
            r.namespace == self.namespace,
            r.request_path == self.request_path,
    {
        let mut b = self;
        b.config.packet_codec = packet_codec;
        b
    }

    /// Sets the heartbeat period.
    pub fn ping_interval(self, duration: Duration) -> (r: Self)
        ensures
            r.config == (WsIoClientConfig { ping_interval: duration, ..self.config }),
            r.namespace == self.namespace,
            r.request_path == self.request_path,
    {
        let mut b = self;
        b.config.ping_interval = duration;
        b
    }

    /// Bounds the wait for the server `Ready`.
    pub fn ready_packet_timeout(self, duration: Duration) -> (r: Self)
        ensures
            r.config == (WsIoClientConfig { ready_packet_timeout: duration, ..self.config }),
            r.namespace == self.namespace,
            r.request_path == self.request_path,
    {
        let mut b = self;
        b.config.ready_packet_timeout = duration;
        b
    }

    /// Sets the wait between reconnect attempts.
    pub fn reconnect_delay(self, delay: Duration) -> (r: Self)
        ensures
            r.config == (WsIoClientConfig { reconnect_delay: delay, ..self.config }),
            r.namespace == self.namespace,
            r.request_path == self.request_path,
    {
        let mut b = self;
        b.config.reconnect_delay = delay;
        b
    }

    /// Sets the mount point the websocket handshake requests.
    pub fn request_path(self, request_path: &str) -> (r: Self)
        ensures
            r.request_path@ == crate::paths::normalized_path(request_path@),
            r.config == self.config,
            r.namespace == self.namespace,
    {
        let mut b = self;
        b.request_path = normalize_request_path(request_path);
        b
    }

    /// The client runtime model: stopped, with no session and an empty
    /// event registry.
    pub fn build(self) -> (r: WsIoClient)
        ensures
            r.wf(),
            r.config == self.config,
            r.namespace == self.namespace,
            r.request_path == self.request_path,
            r.status.current() == ClientStatus::Stopped,
            r.session is None,
            r.event_registry.entries@.len() == 0,
    {
        WsIoClient {
            config: self.config,
            namespace: self.namespace,
            request_path: self.request_path,
            status: AtomicEnum::new(ClientStatus::Stopped),
            session: None,
            event_registry: WsIoEventRegistry::new(),
        }
    }
}

/// The client runtime model: the lifecycle status, at most one live
/// session, and the event registry. The reconnect loop, the outbound
/// queue and the websocket itself are plumbing and live with the caller.
pub struct WsIoClient {
    pub config: WsIoClientConfig,
    pub namespace: String,
    pub request_path: String,
    pub status: AtomicEnum<ClientStatus>,
    pub session: Option<WsIoClientSession>,
    pub event_registry: WsIoEventRegistry,
}

impl WsIoClient {
    /// Well-formed client state.
    pub open spec fn wf(self) -> bool {
        self.event_registry.wf()
    }

    /// Everything but the session is unchanged.
    pub open spec fn same_but_session(pre: Self, post: Self) -> bool {
        &&& post.config == pre.config
        &&& post.namespace == pre.namespace
        &&& post.request_path == pre.request_path
        &&& post.status == pre.status
        &&& post.event_registry == pre.event_registry
    }

    /// Starts the runtime: from `Stopped` it moves to `Running` and the
    /// caller spawns the reconnect loop (the return says whether to).
    /// Connecting while already running does nothing.
    pub fn connect(&mut self) -> (started: bool)
        requires
            old(self).wf(),
            old(self).status.current() != ClientStatus::Stopping,
        ensures
            final(self).wf(),
            started == (old(self).status.current() == ClientStatus::Stopped),
            started ==> final(self).status.current() == ClientStatus::Running
                && Self::same_but_status(*old(self), *final(self)),
            !started ==> *final(self) == *old(self),
    {
        if self.status.is(ClientStatus::Running) {
            return false;
        }
        self.status.store(ClientStatus::Running);
        true
    }

    /// Everything but the status is unchanged.
    pub open spec fn same_but_status(pre: Self, post: Self) -> bool {
        &&& post.config == pre.config
        &&& post.namespace == pre.namespace
        &&& post.request_path == pre.request_path
        &&& post.session == pre.session
        &&& post.event_registry == pre.event_registry
    }

    /// Begins stopping the runtime; the caller aborts the forwarder,
    /// closes the session and drains the queue (the return says whether
    /// to). Disconnecting while already stopped does nothing.
    pub fn disconnect_begin(&mut self) -> (stopping: bool)
        requires
            old(self).wf(),
            old(self).status.current() != ClientStatus::Stopping,
        ensures
            final(self).wf(),
            stopping == (old(self).status.current() == ClientStatus::Running),
            stopping ==> final(self).status.current() == ClientStatus::Stopping
                && Self::same_but_status(*old(self), *final(self)),
            !stopping ==> *final(self) == *old(self),
    {
        if self.status.is(ClientStatus::Stopped) {
            return false;
        }
        self.status.store(ClientStatus::Stopping);
        true
    }

    /// Finishes stopping the runtime once the reconnect loop has ended.
    pub fn disconnect_finish(&mut self)
        requires
            old(self).wf(),
            old(self).status.current() == ClientStatus::Stopping,
        ensures
            final(self).wf(),
            final(self).status.current() == ClientStatus::Stopped,
            Self::same_but_status(*old(self), *final(self)),
    {
        self.status.store(ClientStatus::Stopped);
    }

    /// Whether the reconnect loop should try another connection.
    pub fn should_reconnect(&self) -> (r: bool)
        ensures
            r == (self.status.current() == ClientStatus::Running),
    {
        self.status.is(ClientStatus::Running)
    }

    /// Encodes an event packet for the outbound queue. Emitting is only
    /// valid while the runtime is running; in any other lifecycle state
    /// the caller gets a status error back synchronously, and while
    /// running the call succeeds.
    pub fn emit(&self, event: &str, data: Option<Vec<u8>>) -> (r: Result<Vec<u8>, WsIoError>)
        ensures
            self.status.current() != ClientStatus::Running <==> (r matches Err(e) && e
                == WsIoError::Status),
            self.status.current() == ClientStatus::Running ==> r is Ok,
            r matches Ok(v) ==> v@ == wire_bytes(
                self.config.packet_codec,
                packet_type_code(WsIoPacketType::Event),
                Some(event@),
                opt_bytes_view(data),
            ),
    {
        if let Err(e) = self.status.ensure(ClientStatus::Running) {
            return Err(e);
        }
        let packet = WsIoPacket::new_event(event, data);
        match self.config.packet_codec.encode(&packet) {
            Ok(v) => Ok(v),
            Err(e) => {
                proof {
                    assert(false);
                }
                Err(e)
            },
        }
    }

    /// Whether a session exists and is in its steady state; the
    /// forwarder hands queued frames over only then.
    pub fn is_session_ready(&self) -> (r: bool)
        ensures
            r == (self.session matches Some(s) && s.state.current() == SessionState::Ready),
    {
        match &self.session {
            Some(s) => s.is_ready(),
            None => false,
        }
    }

    /// Installs a fresh session for the next connection attempt.
    pub fn begin_session(&mut self)
        requires
            old(self).wf(),
        ensures
            final(self).wf(),
            Self::same_but_session(*old(self), *final(self)),
            final(self).session matches Some(s) && s.state.current() == SessionState::Created,
    {
        self.session = Some(WsIoClientSession::new());
    }

    /// Drops the session between connection attempts.
    pub fn clear_session(&mut self)
        requires
            old(self).wf(),
        ensures
            final(self).wf(),
            Self::same_but_session(*old(self), *final(self)),
            final(self).session is None,
    {
        self.session = None;
    }
}

} // verus!
