use vstd::prelude::*;

verus! {

/// The four packet kinds of the protocol. Their wire codes are fixed:
/// `Disconnect` is 0, `Event` is 1, `Init` is 2, `Ready` is 3.
#[derive(Clone, Copy, Debug, PartialEq, Eq, Structural)]
pub enum WsIoPacketType {
    Disconnect,
    Event,
    Init,
    Ready,
}

/// The wire code of a packet type.
pub open spec fn packet_type_code(t: WsIoPacketType) -> u8 {
    match t {
        WsIoPacketType::Disconnect => 0,
        WsIoPacketType::Event => 1,
        WsIoPacketType::Init => 2,
        WsIoPacketType::Ready => 3,
    }
}

/// The packet type a wire code stands for, if any.
pub open spec fn packet_type_from_code(c: u8) -> Option<WsIoPacketType> {
    if c == 0 {
        Some(WsIoPacketType::Disconnect)
    } else if c == 1 {
        Some(WsIoPacketType::Event)
    } else if c == 2 {
        Some(WsIoPacketType::Init)
    } else if c == 3 {
        Some(WsIoPacketType::Ready)
    } else {
        None
    }
}

/// The code assignment is a bijection between packet types and `0..=3`.
pub proof fn lemma_packet_type_code_bijective()
    ensures
        forall|t: WsIoPacketType| packet_type_from_code(#[trigger] packet_type_code(t)) == Some(t),
        forall|c: u8|
            (#[trigger] packet_type_from_code(c)) is Some ==> packet_type_code(
                packet_type_from_code(c).unwrap(),
            ) == c,
{
}

impl WsIoPacketType {
    /// The wire code of this packet type.
    pub fn code(self) -> (c: u8)
        ensures
            c == packet_type_code(self),
    {
        match self {
            WsIoPacketType::Disconnect => 0,
            WsIoPacketType::Event => 1,
            WsIoPacketType::Init => 2,
            WsIoPacketType::Ready => 3,
        }
    }

    /// The packet type for a wire code; `None` for codes above 3.
    pub fn from_code(c: u8) -> (r: Option<Self>)
        ensures
            r == packet_type_from_code(c),
    {
        if c == 0 {
            Some(WsIoPacketType::Disconnect)
        } else if c == 1 {
            Some(WsIoPacketType::Event)
        } else if c == 2 {
            Some(WsIoPacketType::Init)
        } else if c == 3 {
            Some(WsIoPacketType::Ready)
        } else {
            None
        }
    }
}

/// The character sequence behind an optional key.
pub open spec fn opt_str_view(key: Option<String>) -> Option<Seq<char>> {
    match key {
        Some(k) => Some(k@),
        None => None,
    }
}

/// The byte sequence behind an optional payload.
pub open spec fn opt_bytes_view(data: Option<Vec<u8>>) -> Option<Seq<u8>> {
    match data {
        Some(d) => Some(d@),
        None => None,
    }
}

/// The application-level unit carried inside a websocket frame: a packet
/// type, an optional event key, and an optional opaque payload.
#[derive(Clone, Debug)]
pub struct WsIoPacket {
    pub data: Option<Vec<u8>>,
    pub key: Option<String>,
    pub packet_type: WsIoPacketType,
}

impl WsIoPacket {
    /// The key as a character sequence, if present.
    pub open spec fn spec_key(self) -> Option<Seq<char>> {
        opt_str_view(self.key)
    }

    /// The payload as a byte sequence, if present.
    pub open spec fn spec_data(self) -> Option<Seq<u8>> {
        opt_bytes_view(self.data)
    }

    /// Two packets are equivalent when their types, keys and payloads agree.
    pub open spec fn eqv(self, other: WsIoPacket) -> bool {
        &&& self.packet_type == other.packet_type
        &&& self.spec_key() == other.spec_key()
        &&& self.spec_data() == other.spec_data()
    }

    /// A well-formed packet: an `Event` carries a key and nothing else does;
    /// `Ready` and `Disconnect` carry no payload either.
    pub open spec fn wf(self) -> bool {
        match self.packet_type {
            WsIoPacketType::Event => self.key is Some,
            WsIoPacketType::Init => self.key is None,
            WsIoPacketType::Ready => self.key is None && self.data is None,
            WsIoPacketType::Disconnect => self.key is None && self.data is None,
        }
    }

    /// Builds a packet from its parts.
    pub fn new(packet_type: WsIoPacketType, key: Option<&str>, data: Option<Vec<u8>>) -> (r: Self)
        ensures
            r.packet_type == packet_type,
            r.spec_key() == match key {
                Some(k) => Some(k@),
                None => None::<Seq<char>>,
            },
            r.data == data,
    {
        let key_owned: Option<String> = match key {
            Some(k) => Some(k.to_owned()),
            None => None,
        };
        Self { data, key: key_owned, packet_type }
    }

    /// A `Disconnect` packet: no key, no payload.
    pub fn new_disconnect() -> (r: Self)
        ensures
            r.packet_type == WsIoPacketType::Disconnect,
            r.key is None,
            r.data is None,
            r.wf(),
    {
        Self::new(WsIoPacketType::Disconnect, None, None)
    }

    /// An `Event` packet carrying the event name and an optional payload.
    pub fn new_event(event: &str, data: Option<Vec<u8>>) -> (r: Self)
        ensures
            r.packet_type == WsIoPacketType::Event,
            r.spec_key() == Some(event@),
            r.data == data,
            r.wf(),
    {
        Self::new(WsIoPacketType::Event, Some(event), data)
    }

    /// An `Init` packet carrying an optional payload.
    pub fn new_init(data: Option<Vec<u8>>) -> (r: Self)
        ensures
            r.packet_type == WsIoPacketType::Init,
            r.key is None,
            r.data == data,
            r.wf(),
    {
        Self::new(WsIoPacketType::Init, None, data)
    }

    /// A `Ready` packet: no key, no payload.
    pub fn new_ready() -> (r: Self)
        ensures
            r.packet_type == WsIoPacketType::Ready,
            r.key is None,
            r.data is None,
            r.wf(),
    {
        Self::new(WsIoPacketType::Ready, None, None)
    }
}

/// Whether a websocket frame is the client heartbeat: a single-byte
/// binary frame, which carries no packet and is dropped silently.
pub fn is_heartbeat_frame(is_binary: bool, len: usize) -> (r: bool)
    ensures
        r == (is_binary && len == 1),
{
    is_binary && len == 1
}

} // verus!
