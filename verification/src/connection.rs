use vstd::prelude::*;

use crate::atomic_enum::{AtomicEnum, AtomicEnumValue};
use crate::packet::{WsIoPacket, WsIoPacketType};

verus! {

/// The states of a server-side connection. Initial state is `Created`;
/// `Closed` is terminal.
#[derive(Clone, Copy, Debug, PartialEq, Eq, Structural)]
pub enum ConnectionState {
    Created,
    AwaitingInit,
    Initiating,
    Activating,
    Ready,
    Closing,
    Closed,
}

impl AtomicEnumValue for ConnectionState {
    fn eq_value(self, other: Self) -> (r: bool)
        ensures
            r == (self == other),
    {
        self == other
    }
}

/// The transition relation of the server connection state machine: the
/// handshake chain `Created -> AwaitingInit -> Initiating -> Activating ->
/// Ready`, teardown from any live state to `Closing`, and `Closing ->
/// Closed`. No transition skips a state.
pub open spec fn connection_step_allowed(from: ConnectionState, to: ConnectionState) -> bool {
    ||| (from == ConnectionState::Created && to == ConnectionState::AwaitingInit)
    ||| (from == ConnectionState::AwaitingInit && to == ConnectionState::Initiating)
    ||| (from == ConnectionState::Initiating && to == ConnectionState::Activating)
    ||| (from == ConnectionState::Activating && to == ConnectionState::Ready)
    ||| (from != ConnectionState::Closing && from != ConnectionState::Closed && to
        == ConnectionState::Closing)
    ||| (from == ConnectionState::Closing && to == ConnectionState::Closed)
}

/// No step of the server connection machine skips over a handshake
/// state, and nothing leaves the terminal state.
pub proof fn lemma_connection_dag_has_no_skips()
    ensures
        !connection_step_allowed(ConnectionState::Created, ConnectionState::Initiating),
        !connection_step_allowed(ConnectionState::Created, ConnectionState::Activating),
        !connection_step_allowed(ConnectionState::Created, ConnectionState::Ready),
        !connection_step_allowed(ConnectionState::AwaitingInit, ConnectionState::Activating),
        !connection_step_allowed(ConnectionState::AwaitingInit, ConnectionState::Ready),
        !connection_step_allowed(ConnectionState::Initiating, ConnectionState::Ready),
        forall|to: ConnectionState| !connection_step_allowed(ConnectionState::Closed, to),
        forall|to: ConnectionState|
            connection_step_allowed(ConnectionState::Closing, to) ==> to
                == ConnectionState::Closed,
{
}

/// What the server does with an incoming packet on one connection, as a
/// function of the connection state and the packet alone.
#[derive(Clone, Debug, PartialEq, Eq, Structural)]
pub enum ServerPacketAction {
    /// An `Event` in the steady state: decode and run its handlers.
    DispatchEvent,
    /// An `Event` before the steady state, or a client `Disconnect`:
    /// drop it silently.
    Ignore,
    /// The client `Init` arrived while awaited: run the init exchange.
    HandleInit,
    /// A packet the current state disallows: fail the connection.
    Reject,
}

/// Classifies an incoming packet for a server connection: `Init` is only
/// acceptable in `AwaitingInit`; an `Event` needs the steady state and a
/// key; `Ready` from a client is never acceptable; `Disconnect` is
/// dropped.
pub fn classify_incoming_server_packet(state: ConnectionState, packet: &WsIoPacket) -> (r:
    ServerPacketAction)
    ensures
        r == ServerPacketAction::DispatchEvent <==> (packet.packet_type == WsIoPacketType::Event
            && state == ConnectionState::Ready && packet.key is Some),
        r == ServerPacketAction::HandleInit <==> (packet.packet_type == WsIoPacketType::Init
            && state == ConnectionState::AwaitingInit),
        r == ServerPacketAction::Ignore <==> ((packet.packet_type == WsIoPacketType::Event
            && state != ConnectionState::Ready) || packet.packet_type
            == WsIoPacketType::Disconnect),
        r == ServerPacketAction::Reject <==> ((packet.packet_type == WsIoPacketType::Event
            && state == ConnectionState::Ready && packet.key is None) || (packet.packet_type
            == WsIoPacketType::Init && state != ConnectionState::AwaitingInit)
            || packet.packet_type == WsIoPacketType::Ready),
{
    match packet.packet_type {
        WsIoPacketType::Disconnect => ServerPacketAction::Ignore,
        WsIoPacketType::Event => {
            if !state.eq_value(ConnectionState::Ready) {
                ServerPacketAction::Ignore
            } else if packet.key.is_some() {
                ServerPacketAction::DispatchEvent
            } else {
                ServerPacketAction::Reject
            }
        },
        WsIoPacketType::Init => {
            if state.eq_value(ConnectionState::AwaitingInit) {
                ServerPacketAction::HandleInit
            } else {
                ServerPacketAction::Reject
            }
        },
        WsIoPacketType::Ready => ServerPacketAction::Reject,
    }
}

/// The record a namespace keeps for one server-side connection: its unique
/// id, its state word, and the names of the rooms it has joined. The
/// outbound channel, headers and handler closures of a live connection are
/// plumbing and live with the caller.
pub struct WsIoServerConnection {
    pub id: u64,
    pub state: AtomicEnum<ConnectionState>,
    pub joined_rooms: Vec<String>,
}

impl WsIoServerConnection {
    /// Whether `room` is among the joined room names.
    pub open spec fn spec_joined(self, room: Seq<char>) -> bool {
        exists|k: int| 0 <= k < self.joined_rooms@.len() && self.joined_rooms@[k]@ == room
    }

    /// A fresh record in state `Created` with no joined rooms.
    pub fn new(id: u64) -> (r: Self)
        ensures
            r.id == id,
            r.state.current() == ConnectionState::Created,
            r.joined_rooms@.len() == 0,
    {
        Self { id, state: AtomicEnum::new(ConnectionState::Created), joined_rooms: Vec::new() }
    }

    /// The connection id.
    pub fn id(&self) -> (r: u64)
        ensures
            r == self.id,
    {
        self.id
    }

    /// Whether the connection is in its steady state.
    pub fn is_ready(&self) -> (r: bool)
        ensures
            r == (self.state.current() == ConnectionState::Ready),
    {
        self.state.is(ConnectionState::Ready)
    }
}

} // verus!
