use vstd::prelude::*;

verus! {

/// The failure kinds a caller of this library can observe.
///
/// - `Config`: invalid builder input (bad URL scheme, duplicate namespace).
/// - `Codec`: a packet or payload failed to encode or decode.
/// - `Protocol`: a packet arrived in a state that disallows it, or an
///   `Event` packet carried no key.
/// - `Handler`: a user-supplied handler failed or timed out.
/// - `Transport`: the underlying websocket failed or closed.
/// - `Status`: an operation was invoked against a runtime whose lifecycle
///   state does not admit it.
#[derive(Clone, Copy, Debug, PartialEq, Eq, Structural)]
pub enum WsIoError {
    Config,
    Codec,
    Protocol,
    Handler,
    Transport,
    Status,
}

} // verus!
