//! How a client receives messages.
use std::io::Error;

use vstd::prelude::*;

use crate::byte_order::ByteOrder;
use crate::client::ReceiveError;
use crate::codec::{Codec, Continue};
use crate::error::ErrorKind;
use crate::read_write::{receive_next, Progress, ReadStep, Receiving};

verus! {

/// Where the receiving of messages stands. Each of the first three variants names the operation
/// under way.
#[derive(Clone, Copy, Debug, PartialEq, Eq, Structural)]
pub enum ReceivePhase {
    /// Bytes are being read.
    Reading(Receiving),
    /// Something is being handed to the sink. If it is the last thing, receiving ends with it.
    Delivering { last: bool },
    /// The socket is being shut down.
    ShuttingDown,
    /// Receiving has ended.
    Finished,
}

/// The next thing to do in order to receive messages.
#[derive(Debug)]
pub enum ReceiveAction<Tin, TErr> {
    /// Read exactly this many bytes from the socket.
    Read(usize),
    /// Hand this to the sink.
    Deliver(Result<Tin, ReceiveError<TErr>>),
    /// Shut down both directions of the socket.
    Shutdown,
    /// Stop.
    Finish,
    /// Stop with a panic.
    Panic,
}

impl ReceivePhase {
    /// Receiving has not been decided to end.
    pub open spec fn spec_online(self) -> bool {
        match self {
            ReceivePhase::Reading(_) => true,
            ReceivePhase::Delivering { last } => !last,
            ReceivePhase::ShuttingDown | ReceivePhase::Finished => false,
        }
    }

    /// Whether receiving goes on.
    #[verifier::when_used_as_spec(spec_online)]
    pub fn online(self) -> (online: bool)
        ensures
            online == self.online(),
    {
        match self {
            ReceivePhase::Reading(_) => true,
            ReceivePhase::Delivering { last } => !last,
            ReceivePhase::ShuttingDown | ReceivePhase::Finished => false,
        }
    }
}

/// What is delivered for a decoded message, and whether it is the last thing: a message that could
/// not be decoded is reported, and the codec says whether receiving goes on.
pub open spec fn after_decode<Tin, TErr>(decoded: Result<Tin, (TErr, Continue)>) -> (
    ReceivePhase,
    ReceiveAction<Tin, TErr>,
) {
    match decoded {
        Ok(message) => (
            ReceivePhase::Delivering { last: false },
            ReceiveAction::Deliver(Ok(message)),
        ),
        Err((error, Continue(goes_on))) => (
            ReceivePhase::Delivering { last: !goes_on },
            ReceiveAction::Deliver(Err(ReceiveError::Codec(error))),
        ),
    }
}

/// What comes after a failure to read: it is reported, as the last thing.
pub open spec fn after_failure<Tin, TErr>(error: Error) -> (
    ReceivePhase,
    ReceiveAction<Tin, TErr>,
) {
    (
        ReceivePhase::Delivering { last: true },
        ReceiveAction::Deliver(Err(ReceiveError::IoError(error))),
    )
}

/// What comes after a delivery: the next message, unless this was the last thing to deliver or
/// the sink no longer takes any.
pub open spec fn after_delivery<Tin, TErr>(last: bool, accepted: bool) -> (
    ReceivePhase,
    ReceiveAction<Tin, TErr>,
) {
    if accepted && !last {
        (
            ReceivePhase::Reading(Receiving::Header),
            ReceiveAction::Read(Receiving::Header.wanted()),
        )
    } else {
        (ReceivePhase::ShuttingDown, ReceiveAction::Shutdown)
    }
}

/// The outcome of shutting down the socket is no reason to panic: it worked, or the socket was no
/// longer connected.
pub open spec fn harmless(outcome: Result<(), ErrorKind>) -> bool {
    outcome is Ok || outcome == Err::<(), ErrorKind>(ErrorKind::NotConnected)
}

/// Whether the outcome of shutting down the socket is no reason to panic. This holds for the end
/// of receiving and for dropping the client.
pub fn shutdown_harmless(outcome: Result<(), ErrorKind>) -> (yes: bool)
    ensures
        yes == harmless(outcome),
{
    match outcome {
        Ok(()) => true,
        Err(kind) => kind == ErrorKind::NotConnected,
    }
}

/// The receiving of messages, which goes on next to the sending until the connection ends.
pub struct ReceiveMessages<C> {
    codec: C,
    order: ByteOrder,
    phase: ReceivePhase,
}

/// What a [`ReceiveMessages`] stands for.
pub struct ReceiveMessagesView<C> {
    pub codec: C,
    /// The byte order of the lengths on the wire.
    pub order: ByteOrder,
    pub phase: ReceivePhase,
}

impl<C> View for ReceiveMessages<C> {
    type V = ReceiveMessagesView<C>;

    closed spec fn view(&self) -> ReceiveMessagesView<C> {
        ReceiveMessagesView { codec: self.codec, order: self.order, phase: self.phase }
    }
}

impl<C> ReceiveMessagesView<C> {
    /// The same, in another phase.
    pub open spec fn with_phase(self, phase: ReceivePhase) -> Self {
        ReceiveMessagesView { phase, ..self }
    }

    /// Reading bytes with this outcome can lead to `next` and `action`. The bytes of a whole
    /// message are handed to the codec, and what it returns decides.
    pub open spec fn read_outcome<Tin, Tout>(
        self,
        receiving: Receiving,
        outcome: Result<Vec<u8>, Error>,
        next: Self,
        action: ReceiveAction<Tin, C::TErr>,
    ) -> bool where C: Codec<Tin, Tout> {
        match outcome {
            Err(error) => {
                &&& next == self.with_phase(after_failure::<Tin, C::TErr>(error).0)
                &&& action == after_failure::<Tin, C::TErr>(error).1
            },
            Ok(bytes) => match receiving.progress(self.order, bytes@) {
                Progress::More(receiving) => {
                    &&& next == self.with_phase(ReceivePhase::Reading(receiving))
                    &&& action == ReceiveAction::<Tin, C::TErr>::Read(receiving.wanted())
                },
                Progress::Message(message) => exists|
                    buffer: Vec<u8>,
                    decoded: Result<Tin, (C::TErr, Continue)>,
                |
                    {
                        &&& buffer@ == message
                        &&& #[trigger] call_ensures(C::decode, (&self.codec, buffer), decoded)
                        &&& next == self.with_phase(after_decode(decoded).0)
                        &&& action == after_decode(decoded).1
                    },
            },
        }
    }
}

impl<C> ReceiveMessages<C> {
    fn at(self, phase: ReceivePhase) -> (next: Self)
        ensures
            next@ == self@.with_phase(phase),
    {
        ReceiveMessages { codec: self.codec, order: self.order, phase }
    }

    /// Starts to receive messages: the length of the first one is read.
    pub(crate) fn start<Tin, Tout>(codec: C, order: ByteOrder) -> (start: (
        Self,
        ReceiveAction<Tin, C::TErr>,
    )) where C: Codec<Tin, Tout>
        ensures
            start.0@.codec == codec,
            start.0@.order == order,
            start.0@.phase == ReceivePhase::Reading(Receiving::Header),
            start.1 == ReceiveAction::<Tin, C::TErr>::Read(Receiving::Header.wanted()),
    {
        let receiving = receive_next();
        let phase = ReceivePhase::Reading(receiving);
        (
            ReceiveMessages { codec, order, phase },
            ReceiveAction::Read(receiving.wanted()),
        )
    }

    /// Where the receiving stands.
    pub fn phase(&self) -> (phase: ReceivePhase)
        ensures
            phase == self@.phase,
    {
        self.phase
    }

    /// Takes in what the codec made of a whole message.
    pub fn on_decoded<Tin, Tout>(self, decoded: Result<Tin, (C::TErr, Continue)>) -> (next: (
        Self,
        ReceiveAction<Tin, C::TErr>,
    )) where C: Codec<Tin, Tout>
        ensures
            next.0@ == self@.with_phase(after_decode(decoded).0),
            next.1 == after_decode(decoded).1,
    {
        match decoded {
            Ok(message) => (
                self.at(ReceivePhase::Delivering { last: false }),
                ReceiveAction::Deliver(Ok(message)),
            ),
            Err((error, Continue(goes_on))) => (
                self.at(ReceivePhase::Delivering { last: !goes_on }),
                ReceiveAction::Deliver(Err(ReceiveError::Codec(error))),
            ),
        }
    }

    /// Takes in the outcome of reading the wanted bytes.
    pub fn on_read<Tin, Tout>(self, outcome: Result<Vec<u8>, Error>) -> (next: (
        Self,
        ReceiveAction<Tin, C::TErr>,
    )) where C: Codec<Tin, Tout>
        requires
            self@.phase matches ReceivePhase::Reading(receiving) && (outcome matches Ok(bytes)
                ==> bytes@.len() == receiving.wanted()),
        ensures
            self@.read_outcome::<Tin, Tout>(
                self@.phase->Reading_0,
                outcome,
                next.0@,
                next.1,
            ),
    {
        let receiving = match self.phase {
            ReceivePhase::Reading(receiving) => receiving,
            _ => receive_next(),
        };
        match receiving.on_read(self.order, outcome) {
            ReadStep::More(receiving) => (
                self.at(ReceivePhase::Reading(receiving)),
                ReceiveAction::Read(receiving.wanted()),
            ),
            ReadStep::Done(Ok(buffer)) => {
                let decoded = self.codec.decode(buffer);
                self.on_decoded(decoded)
            },
            ReadStep::Done(Err(error)) => (
                self.at(ReceivePhase::Delivering { last: true }),
                ReceiveAction::Deliver(Err(ReceiveError::IoError(error))),
            ),
        }
    }

    /// Takes in whether the sink has accepted what was handed to it.
    pub fn on_delivered<Tin, Tout>(self, accepted: bool) -> (next: (Self, ReceiveAction<Tin, C::TErr>))
        where C: Codec<Tin, Tout>
        requires
            self@.phase is Delivering,
        ensures
            next.0@ == self@.with_phase(
                after_delivery::<Tin, C::TErr>(self@.phase->last, accepted).0,
            ),
            next.1 == after_delivery::<Tin, C::TErr>(self@.phase->last, accepted).1,
    {
        let last: bool = match self.phase {
            ReceivePhase::Delivering { last } => last,
            _ => true,
        };
        if accepted && !last {
            let receiving = receive_next();
            (
                self.at(ReceivePhase::Reading(receiving)),
                ReceiveAction::Read(receiving.wanted()),
            )
        } else {
            (self.at(ReceivePhase::ShuttingDown), ReceiveAction::Shutdown)
        }
    }

    /// Takes in the outcome of shutting down the socket.
    pub fn on_shutdown<Tin, Tout>(self, outcome: Result<(), ErrorKind>) -> (next: (
        Self,
        ReceiveAction<Tin, C::TErr>,
    )) where C: Codec<Tin, Tout>
        requires
            self@.phase is ShuttingDown,
        ensures
            next.0@ == self@.with_phase(ReceivePhase::Finished),
            next.1 == (if harmless(outcome) {
                ReceiveAction::<Tin, C::TErr>::Finish
            } else {
                ReceiveAction::<Tin, C::TErr>::Panic
            }),
    {
        if shutdown_harmless(outcome) {
            (self.at(ReceivePhase::Finished), ReceiveAction::Finish)
        } else {
            (self.at(ReceivePhase::Finished), ReceiveAction::Panic)
        }
    }
}

} // verus!
