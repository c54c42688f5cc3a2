//! How messages become bytes and bytes become messages.
use std::fmt::Debug;

use vstd::prelude::*;

verus! {

/// Whether a connection goes on after a message could not be decoded.
pub struct Continue(pub bool);

/// Turns outgoing messages into bytes and received bytes into messages.
///
/// Nothing is assumed of an implementation: the contracts of this crate say what is handed to it
/// and what is done with whatever it returns.
pub trait Codec<Tin, Tout>: Clone + Send + 'static {
    /// Why a message could not be decoded.
    type TErr: Send + Debug + 'static;

    /// The bytes of an outgoing message.
    fn encode(&self, outgoing: Tout) -> Vec<u8>;

    /// The message in the received bytes, or the reason why there is none and whether the
    /// connection goes on.
    fn decode(&self, incoming: Vec<u8>) -> Result<Tin, (Self::TErr, Continue)>;
}

/// `codec` decodes bytes as the function `decoded` does.
pub open spec fn decodes_as<Tin, Tout, C: Codec<Tin, Tout>>(
    codec: C,
    decoded: spec_fn(Seq<u8>) -> Result<Tin, (C::TErr, Continue)>,
) -> bool {
    forall|incoming: Vec<u8>, result: Result<Tin, (C::TErr, Continue)>|
        call_ensures(C::decode, (&codec, incoming), result) ==> result == decoded(incoming@)
}

/// `codec` encodes this message as `bytes`.
pub open spec fn encodes_as<Tin, Tout, C: Codec<Tin, Tout>>(
    codec: C,
    outgoing: Tout,
    bytes: Seq<u8>,
) -> bool {
    forall|buffer: Vec<u8>|
        call_ensures(C::encode, (&codec, outgoing), buffer) ==> buffer@ == bytes
}

} // verus!
