//! How a server receives the messages of a client.
use std::io::Error;

use vstd::prelude::*;

use crate::addr::Addr;
use crate::byte_order::ByteOrder;
use crate::codec::{Codec, Continue};
use crate::read_write::{receive_next, Progress, ReadStep, Receiving};
use crate::server::{Event, ReceiveError};

verus! {

/// Where the receiving of a client's messages stands. Each of the first two variants names the
/// operation under way.
#[derive(Clone, Copy, Debug, PartialEq, Eq, Structural)]
pub enum ReadPhase {
    /// Bytes are being read.
    Reading(Receiving),
    /// Something is being handed to the sink. If it is the last thing, receiving ends with it.
    Delivering { last: bool },
    /// Receiving has ended.
    Returned,
}

/// The next thing to do in order to receive a client's messages.
#[derive(Debug)]
pub enum ReadAction<Tin, TErr> {
    /// Read exactly this many bytes from the socket.
    Read(usize),
    /// Hand this to the sink, as coming from this client.
    Deliver(Addr, Event<Tin, TErr>),
    /// Stop.
    Return,
}

/// What is delivered for a decoded message, and whether it is the last thing: a message that could
/// not be decoded is reported, and the codec says whether receiving goes on. A message that
/// cancels the connection is the last one in any case.
pub open spec fn after_decode<Tin, TErr>(
    peer: Addr,
    cancels: bool,
    decoded: Result<Tin, (TErr, Continue)>,
) -> (ReadPhase, ReadAction<Tin, TErr>) {
    match decoded {
        Ok(message) => (
            ReadPhase::Delivering { last: cancels },
            ReadAction::Deliver(peer, Event::Data(message)),
        ),
        Err((error, Continue(goes_on))) => (
            ReadPhase::Delivering { last: cancels || !goes_on },
            ReadAction::Deliver(peer, Event::Error(ReceiveError::Codec(error))),
        ),
    }
}

/// What comes after a failure to read: it is reported, as the last thing.
pub open spec fn after_failure<Tin, TErr>(peer: Addr, error: Error) -> (
    ReadPhase,
    ReadAction<Tin, TErr>,
) {
    (
        ReadPhase::Delivering { last: true },
        ReadAction::Deliver(peer, Event::Error(ReceiveError::IoError(error))),
    )
}

/// What comes after a delivery: the next message, unless this was the last thing to deliver or
/// the sink no longer takes any.
pub open spec fn after_delivery<Tin, TErr>(last: bool, accepted: bool) -> (
    ReadPhase,
    ReadAction<Tin, TErr>,
) {
    if accepted && !last {
        (
            ReadPhase::Reading(Receiving::Header),
            ReadAction::Read(Receiving::Header.wanted()),
        )
    } else {
        (ReadPhase::Returned, ReadAction::Return)
    }
}

/// A message without bytes is a client's way to cancel the connection.
pub open spec fn cancels(message: Seq<u8>) -> bool {
    message.len() == 0
}

/// The receiving of one client's messages.
pub struct ReadMessages<C> {
    peer: Addr,
    codec: C,
    order: ByteOrder,
    phase: ReadPhase,
}

/// What a [`ReadMessages`] stands for.
pub struct ReadMessagesView<C> {
    /// The client.
    pub peer: Addr,
    pub codec: C,
    /// The byte order of the lengths on the wire.
    pub order: ByteOrder,
    pub phase: ReadPhase,
}

impl<C> View for ReadMessages<C> {
    type V = ReadMessagesView<C>;

    closed spec fn view(&self) -> ReadMessagesView<C> {
        ReadMessagesView {
            peer: self.peer,
            codec: self.codec,
            order: self.order,
            phase: self.phase,
        }
    }
}

impl<C> ReadMessagesView<C> {
    /// The same, in another phase.
    pub open spec fn with_phase(self, phase: ReadPhase) -> Self {
        ReadMessagesView { phase, ..self }
    }

    /// Reading bytes with this outcome can lead to `next` and `action`. The bytes of a whole
    /// message are handed to the codec, and what it returns decides.
    pub open spec fn read_outcome<Tin, Tout>(
        self,
        receiving: Receiving,
        outcome: Result<Vec<u8>, Error>,
        next: Self,
        action: ReadAction<Tin, C::TErr>,
    ) -> bool where C: Codec<Tin, Tout> {
        match outcome {
            Err(error) => {
                &&& next == self.with_phase(after_failure::<Tin, C::TErr>(self.peer, error).0)
                &&& action == after_failure::<Tin, C::TErr>(self.peer, error).1
            },
            Ok(bytes) => match receiving.progress(self.order, bytes@) {
                Progress::More(receiving) => {
                    &&& next == self.with_phase(ReadPhase::Reading(receiving))
                    &&& action == ReadAction::<Tin, C::TErr>::Read(receiving.wanted())
                },
                Progress::Message(message) => exists|
                    buffer: Vec<u8>,
                    decoded: Result<Tin, (C::TErr, Continue)>,
                |
                    {
                        &&& buffer@ == message
                        &&& #[trigger] call_ensures(C::decode, (&self.codec, buffer), decoded)
                        &&& next == self.with_phase(
                            after_decode(self.peer, cancels(message), decoded).0,
                        )
                        &&& action == after_decode(self.peer, cancels(message), decoded).1
                    },
            },
        }
    }
}

impl<C> ReadMessages<C> {
    fn at(self, phase: ReadPhase) -> (next: Self)
        ensures
            next@ == self@.with_phase(phase),
    {
        ReadMessages {
            peer: self.peer,
            codec: self.codec,
            order: self.order,
            phase,
        }
    }

    /// Starts to receive messages: the length of the first one is read.
    pub(crate) fn start<Tin, Tout>(peer: Addr, codec: C, order: ByteOrder) -> (start: (
        Self,
        ReadAction<Tin, C::TErr>,
    )) where C: Codec<Tin, Tout>
        ensures
            start.0@ == (ReadMessagesView {
                peer,
                codec,
                order,
                phase: ReadPhase::Reading(Receiving::Header),
            }),
            start.1 == ReadAction::<Tin, C::TErr>::Read(Receiving::Header.wanted()),
    {
        let receiving = receive_next();
        let phase = ReadPhase::Reading(receiving);
        (
            ReadMessages { peer, codec, order, phase },
            ReadAction::Read(receiving.wanted()),
        )
    }

    /// A clone of the codec of this connection.
    pub(crate) fn clone_codec(&self) -> (codec: C) where C: Clone
        ensures
            cloned(self@.codec, codec),
    {
        self.codec.clone()
    }

    /// Where the receiving stands.
    pub fn phase(&self) -> (phase: ReadPhase)
        ensures
            phase == self@.phase,
    {
        self.phase
    }

    /// Takes in what the codec made of a whole message, and whether this message cancels the
    /// connection.
    pub fn on_decoded<Tin, Tout>(self, cancels: bool, decoded: Result<Tin, (C::TErr, Continue)>) -> (next: (
        Self,
        ReadAction<Tin, C::TErr>,
    )) where C: Codec<Tin, Tout>
        ensures
            next.0@ == self@.with_phase(after_decode(self@.peer, cancels, decoded).0),
            next.1 == after_decode(self@.peer, cancels, decoded).1,
    {
        let peer = self.peer;
        match decoded {
            Ok(message) => (
                self.at(ReadPhase::Delivering { last: cancels }),
                ReadAction::Deliver(peer, Event::Data(message)),
            ),
            Err((error, Continue(goes_on))) => (
                self.at(ReadPhase::Delivering { last: cancels || !goes_on }),
                ReadAction::Deliver(peer, Event::Error(ReceiveError::Codec(error))),
            ),
        }
    }

    /// Takes in the outcome of reading the wanted bytes.
    pub fn on_read<Tin, Tout>(self, outcome: Result<Vec<u8>, Error>) -> (next: (
        Self,
        ReadAction<Tin, C::TErr>,
    )) where C: Codec<Tin, Tout>
        requires
            self@.phase matches ReadPhase::Reading(receiving) && (outcome matches Ok(bytes)
                ==> bytes@.len() == receiving.wanted()),
        ensures
            self@.read_outcome::<Tin, Tout>(
                self@.phase->Reading_0,
                outcome,
                next.0@,
                next.1,
            ),
    {
        let receiving = match self.phase {
            ReadPhase::Reading(receiving) => receiving,
            _ => receive_next(),
        };
        match receiving.on_read(self.order, outcome) {
            ReadStep::More(receiving) => (
                self.at(ReadPhase::Reading(receiving)),
                ReadAction::Read(receiving.wanted()),
            ),
            ReadStep::Done(Ok(buffer)) => {
                let cancels: bool = buffer.len() == 0;
                let decoded = self.codec.decode(buffer);
                self.on_decoded(cancels, decoded)
            },
            ReadStep::Done(Err(error)) => {
                let peer = self.peer;
                (
                    self.at(ReadPhase::Delivering { last: true }),
                    ReadAction::Deliver(peer, Event::Error(ReceiveError::IoError(error))),
                )
            },
        }
    }

    /// Takes in whether the sink has accepted what was handed to it.
    pub fn on_delivered<Tin, Tout>(self, accepted: bool) -> (next: (Self, ReadAction<Tin, C::TErr>))
        where C: Codec<Tin, Tout>
        requires
            self@.phase is Delivering,
        ensures
            next.0@ == self@.with_phase(
                after_delivery::<Tin, C::TErr>(self@.phase->last, accepted).0,
            ),
            next.1 == after_delivery::<Tin, C::TErr>(self@.phase->last, accepted).1,
    {
        let last: bool = match self.phase {
            ReadPhase::Delivering { last } => last,
            _ => true,
        };
        if accepted && !last {
            let receiving = receive_next();
            (self.at(ReadPhase::Reading(receiving)), ReadAction::Read(receiving.wanted()))
        } else {
            (self.at(ReadPhase::Returned), ReadAction::Return)
        }
    }
}

} // verus!
