use vstd::prelude::*;

use crate::error::WsIoError;
use crate::packet::{opt_bytes_view, opt_str_view, packet_type_code, packet_type_from_code,
    WsIoPacket, WsIoPacketType};

verus! {

// On the wire a packet is the positional triple `(type_code, key, data)`,
// handed to one of five serializers. Each serializer is deterministic: the
// bytes it produces are a function of the triple alone. The spec names below
// stand for those byte sequences; the wrappers relate the outside calls to
// the names, and every codec contract is stated through them.

pub uninterp spec fn json_wire_bytes(ty: u8, key: Option<Seq<char>>, data: Option<Seq<u8>>) -> Seq<
    u8,
>;

pub uninterp spec fn cbor_wire_bytes(ty: u8, key: Option<Seq<char>>, data: Option<Seq<u8>>) -> Seq<
    u8,
>;

pub uninterp spec fn msgpack_wire_bytes(
    ty: u8,
    key: Option<Seq<char>>,
    data: Option<Seq<u8>>,
) -> Seq<u8>;

pub uninterp spec fn postcard_wire_bytes(
    ty: u8,
    key: Option<Seq<char>>,
    data: Option<Seq<u8>>,
) -> Seq<u8>;

pub uninterp spec fn bincode_wire_bytes(
    ty: u8,
    key: Option<Seq<char>>,
    data: Option<Seq<u8>>,
) -> Seq<u8>;

/// What decoding guarantees for codec `c`: on the exact bytes of an
/// encoding, the decoded triple is the encoded one.
pub open spec fn decode_wire_post(
    c: WsIoPacketCodec,
    bytes: Seq<u8>,
    r: Result<(u8, Option<String>, Option<Vec<u8>>), WsIoError>,
) -> bool {
    forall|ty: u8, key: Option<Seq<char>>, data: Option<Seq<u8>>|
        bytes == #[trigger] wire_bytes(c, ty, key, data) ==> (r matches Ok(t) && t.0 == ty
            && opt_str_view(t.1) == key && opt_bytes_view(t.2) == data)
}

/// Relies on serde_json::to_vec: serializing the positional triple is a
/// deterministic function of the triple, and total on it — failure could
/// only come from the value's own Serialize, which cannot fail here.
#[verifier::external_body]
fn json_encode_wire(ty: u8, key: &Option<String>, data: &Option<Vec<u8>>) -> (r: Result<
    Vec<u8>,
    WsIoError,
>)
    ensures
        r is Ok,
        r matches Ok(v) ==> v@ == json_wire_bytes(ty, opt_str_view(*key), opt_bytes_view(*data)),
{
    match serde_json::to_vec(&(ty, key, data)) {
        Ok(v) => Ok(v),
        Err(_) => Err(WsIoError::Codec),
    }
}

/// Relies on serde_json::from_slice inverting serde_json::to_vec on the
/// positional triple: on the exact bytes of an encoding it returns the
/// encoded triple.
#[verifier::external_body]
fn json_decode_wire(bytes: &[u8]) -> (r: Result<(u8, Option<String>, Option<Vec<u8>>), WsIoError>)
    ensures
        decode_wire_post(WsIoPacketCodec::SerdeJson, bytes@, r),
        r matches Err(e) ==> e == WsIoError::Codec,
{
    match serde_json::from_slice::<(u8, Option<String>, Option<Vec<u8>>)>(bytes) {
        Ok(t) => Ok(t),
        Err(_) => Err(WsIoError::Codec),
    }
}

/// Relies on ciborium::ser::into_writer: serializing the positional triple
/// into a byte buffer is a deterministic function of the triple, and
/// total on it — the Vec writer never fails and neither does this value.
#[verifier::external_body]
fn cbor_encode_wire(ty: u8, key: &Option<String>, data: &Option<Vec<u8>>) -> (r: Result<
    Vec<u8>,
    WsIoError,
>)
    ensures
        r is Ok,
        r matches Ok(v) ==> v@ == cbor_wire_bytes(ty, opt_str_view(*key), opt_bytes_view(*data)),
{
    let mut buffer: Vec<u8> = Vec::new();
    match ciborium::ser::into_writer(&(ty, key, data), &mut buffer) {
        Ok(()) => Ok(buffer),
        Err(_) => Err(WsIoError::Codec),
    }
}

/// Relies on ciborium::de::from_reader inverting ciborium::ser::into_writer
/// on the positional triple.
#[verifier::external_body]
fn cbor_decode_wire(bytes: &[u8]) -> (r: Result<(u8, Option<String>, Option<Vec<u8>>), WsIoError>)
    ensures
        decode_wire_post(WsIoPacketCodec::Cbor, bytes@, r),
        r matches Err(e) ==> e == WsIoError::Codec,
{
    match ciborium::de::from_reader::<(u8, Option<String>, Option<Vec<u8>>), _>(bytes) {
        Ok(t) => Ok(t),
        Err(_) => Err(WsIoError::Codec),
    }
}

/// Relies on rmp_serde::to_vec_named: serializing the positional triple is
/// a deterministic function of the triple, and total on it.
#[verifier::external_body]
fn msgpack_encode_wire(ty: u8, key: &Option<String>, data: &Option<Vec<u8>>) -> (r: Result<
    Vec<u8>,
    WsIoError,
>)
    ensures
        r is Ok,
        r matches Ok(v) ==> v@ == msgpack_wire_bytes(ty, opt_str_view(*key), opt_bytes_view(*data)),
{
    match rmp_serde::to_vec_named(&(ty, key, data)) {
        Ok(v) => Ok(v),
        Err(_) => Err(WsIoError::Codec),
    }
}

/// Relies on rmp_serde::from_slice inverting rmp_serde::to_vec_named on the
/// positional triple.
#[verifier::external_body]
fn msgpack_decode_wire(bytes: &[u8]) -> (r: Result<
    (u8, Option<String>, Option<Vec<u8>>),
    WsIoError,
>)
    ensures
        decode_wire_post(WsIoPacketCodec::Msgpack, bytes@, r),
        r matches Err(e) ==> e == WsIoError::Codec,
{
    match rmp_serde::from_slice::<(u8, Option<String>, Option<Vec<u8>>)>(bytes) {
        Ok(t) => Ok(t),
        Err(_) => Err(WsIoError::Codec),
    }
}

/// Relies on postcard::to_allocvec: serializing the positional triple is a
/// deterministic function of the triple, and total on it.
#[verifier::external_body]
fn postcard_encode_wire(ty: u8, key: &Option<String>, data: &Option<Vec<u8>>) -> (r: Result<
    Vec<u8>,
    WsIoError,
>)
    ensures
        r is Ok,
        r matches Ok(v) ==> v@ == postcard_wire_bytes(
            ty,
            opt_str_view(*key),
            opt_bytes_view(*data),
        ),
{
    match postcard::to_allocvec(&(ty, key, data)) {
        Ok(v) => Ok(v),
        Err(_) => Err(WsIoError::Codec),
    }
}

/// Relies on postcard::from_bytes inverting postcard::to_allocvec on the
/// positional triple.
#[verifier::external_body]
fn postcard_decode_wire(bytes: &[u8]) -> (r: Result<
    (u8, Option<String>, Option<Vec<u8>>),
    WsIoError,
>)
    ensures
        decode_wire_post(WsIoPacketCodec::Postcard, bytes@, r),
        r matches Err(e) ==> e == WsIoError::Codec,
{
    match postcard::from_bytes::<(u8, Option<String>, Option<Vec<u8>>)>(bytes) {
        Ok(t) => Ok(t),
        Err(_) => Err(WsIoError::Codec),
    }
}

/// Relies on bincode::serde::encode_to_vec with the standard configuration:
/// serializing the positional triple is a deterministic function of the
/// triple, and total on it.
#[verifier::external_body]
fn bincode_encode_wire(ty: u8, key: &Option<String>, data: &Option<Vec<u8>>) -> (r: Result<
    Vec<u8>,
    WsIoError,
>)
    ensures
        r is Ok,
        r matches Ok(v) ==> v@ == bincode_wire_bytes(ty, opt_str_view(*key), opt_bytes_view(*data)),
{
    match bincode::serde::encode_to_vec((ty, key, data), bincode::config::standard()) {
        Ok(v) => Ok(v),
        Err(_) => Err(WsIoError::Codec),
    }
}

/// Relies on bincode::serde::decode_from_slice with the standard
/// configuration inverting bincode::serde::encode_to_vec on the positional
/// triple.
#[verifier::external_body]
fn bincode_decode_wire(bytes: &[u8]) -> (r: Result<
    (u8, Option<String>, Option<Vec<u8>>),
    WsIoError,
>)
    ensures
        decode_wire_post(WsIoPacketCodec::Bincode, bytes@, r),
        r matches Err(e) ==> e == WsIoError::Codec,
{
    match bincode::serde::decode_from_slice::<(u8, Option<String>, Option<Vec<u8>>), _>(
        bytes,
        bincode::config::standard(),
    ) {
        Ok((t, _)) => Ok(t),
        Err(_) => Err(WsIoError::Codec),
    }
}

/// The serializer a namespace or client uses for its packets, and whether
/// its frames travel as websocket text or binary.
#[derive(Clone, Copy, Debug, PartialEq, Eq, Structural)]
pub enum WsIoPacketCodec {
    Bincode,
    Cbor,
    Msgpack,
    Postcard,
    SerdeJson,
}

/// The bytes a codec produces for a packet triple.
pub open spec fn wire_bytes(
    c: WsIoPacketCodec,
    ty: u8,
    key: Option<Seq<char>>,
    data: Option<Seq<u8>>,
) -> Seq<u8> {
    match c {
        WsIoPacketCodec::Bincode => bincode_wire_bytes(ty, key, data),
        WsIoPacketCodec::Cbor => cbor_wire_bytes(ty, key, data),
        WsIoPacketCodec::Msgpack => msgpack_wire_bytes(ty, key, data),
        WsIoPacketCodec::Postcard => postcard_wire_bytes(ty, key, data),
        WsIoPacketCodec::SerdeJson => json_wire_bytes(ty, key, data),
    }
}

/// The bytes a codec produces for a whole packet.
pub open spec fn spec_encode_packet(c: WsIoPacketCodec, p: WsIoPacket) -> Seq<u8> {
    wire_bytes(c, packet_type_code(p.packet_type), p.spec_key(), p.spec_data())
}

impl WsIoPacketCodec {
    /// Whether this codec's output travels in a websocket text frame.
    pub open spec fn spec_is_text(self) -> bool {
        self == WsIoPacketCodec::SerdeJson
    }

    /// Whether this codec's output travels in a websocket text frame; only
    /// the JSON codec produces valid UTF-8 for every payload.
    pub fn is_text(&self) -> (r: bool)
        ensures
            r == self.spec_is_text(),
    {
        match self {
            WsIoPacketCodec::SerdeJson => true,
            _ => false,
        }
    }

    /// Encodes a packet to its wire bytes. Every codec serializes every
    /// packet: encoding succeeds.
    pub fn encode(&self, packet: &WsIoPacket) -> (r: Result<Vec<u8>, WsIoError>)
        ensures
            r is Ok,
            r matches Ok(v) ==> v@ == spec_encode_packet(*self, *packet),
    {
        let ty = packet.packet_type.code();
        match self {
            WsIoPacketCodec::Bincode => bincode_encode_wire(ty, &packet.key, &packet.data),
            WsIoPacketCodec::Cbor => cbor_encode_wire(ty, &packet.key, &packet.data),
            WsIoPacketCodec::Msgpack => msgpack_encode_wire(ty, &packet.key, &packet.data),
            WsIoPacketCodec::Postcard => postcard_encode_wire(ty, &packet.key, &packet.data),
            WsIoPacketCodec::SerdeJson => json_encode_wire(ty, &packet.key, &packet.data),
        }
    }

    /// Decodes wire bytes to a packet.
    ///
    /// Every codec round-trips every packet: if the bytes are exactly what
    /// `encode` produced for some packet `p`, decoding succeeds and yields a
    /// packet equivalent to `p`.
    pub fn decode(&self, bytes: &[u8]) -> (r: Result<WsIoPacket, WsIoError>)
        ensures
            forall|p: WsIoPacket|
                bytes@ == #[trigger] spec_encode_packet(*self, p) ==> (r matches Ok(q) && q.eqv(
                    p,
                )),
            r matches Err(e) ==> e == WsIoError::Codec,
    {
        let t = match self {
            WsIoPacketCodec::Bincode => bincode_decode_wire(bytes),
            WsIoPacketCodec::Cbor => cbor_decode_wire(bytes),
            WsIoPacketCodec::Msgpack => msgpack_decode_wire(bytes),
            WsIoPacketCodec::Postcard => postcard_decode_wire(bytes),
            WsIoPacketCodec::SerdeJson => json_decode_wire(bytes),
        };
        match t {
            Ok((ty, key, data)) => match WsIoPacketType::from_code(ty) {
                Some(packet_type) => Ok(WsIoPacket { data, key, packet_type }),
                None => Err(WsIoError::Codec),
            },
            Err(e) => Err(e),
        }
    }
}

} // verus!
