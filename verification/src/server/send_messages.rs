//! How a server sends messages to a client.
use std::io::Error;

use vstd::prelude::*;

use crate::byte_order::ByteOrder;
use crate::codec::Codec;
use crate::read_write::{write_start, WriteStep, WriteStepView, Writing, WritingView};
use crate::server::SendError;

verus! {

/// Where the sending of messages to a client stands. Each variant but the last names the
/// operation under way.
#[derive(Debug)]
pub enum SendPhase {
    /// The next message is awaited.
    Receiving,
    /// A message is being written.
    Writing(Writing),
    /// The sender of the message is being told how it went.
    Replying,
    /// Sending has ended.
    Returned,
}

/// The next thing to do in order to send messages to a client.
#[derive(Debug)]
pub enum SendAction {
    /// Wait for the next message in the queue.
    Receive,
    /// Write all of these bytes to the socket.
    WriteAll(Vec<u8>),
    /// Flush the socket.
    Flush,
    /// Tell the sender of the message how it went.
    Reply(Result<(), SendError>),
    /// Stop.
    Return(Result<(), SendError>),
}

/// A [`SendPhase`] that speaks of bytes as sequences.
pub enum SendPhaseView {
    Receiving,
    Writing(WritingView),
    Replying,
    Returned,
}

/// A [`SendAction`] that speaks of bytes as sequences.
pub enum SendActionView {
    Receive,
    WriteAll(Seq<u8>),
    Flush,
    Reply(Result<(), SendError>),
    Return(Result<(), SendError>),
}

impl View for SendPhase {
    type V = SendPhaseView;

    open spec fn view(&self) -> SendPhaseView {
        match self {
            SendPhase::Receiving => SendPhaseView::Receiving,
            SendPhase::Writing(writing) => SendPhaseView::Writing(writing@),
            SendPhase::Replying => SendPhaseView::Replying,
            SendPhase::Returned => SendPhaseView::Returned,
        }
    }
}

impl View for SendAction {
    type V = SendActionView;

    open spec fn view(&self) -> SendActionView {
        match self {
            SendAction::Receive => SendActionView::Receive,
            SendAction::WriteAll(bytes) => SendActionView::WriteAll(bytes@),
            SendAction::Flush => SendActionView::Flush,
            SendAction::Reply(result) => SendActionView::Reply(*result),
            SendAction::Return(result) => SendActionView::Return(*result),
        }
    }
}

/// What the sender of a message is told once the message was written or writing has failed.
pub open spec fn reply(written: Result<(), Error>) -> Result<(), SendError> {
    match written {
        Ok(()) => Ok(()),
        Err(error) => Err(SendError::IoError(error)),
    }
}

/// What a step of writing a frame is to the sending of messages: more to write, or a reply.
pub open spec fn after_step(writing: WritingView, step: WriteStepView) -> (
    SendPhaseView,
    SendActionView,
) {
    match step {
        WriteStepView::WriteAll(bytes) => (
            SendPhaseView::Writing(writing),
            SendActionView::WriteAll(bytes),
        ),
        WriteStepView::Flush => (SendPhaseView::Writing(writing), SendActionView::Flush),
        WriteStepView::Done(written) => (
            SendPhaseView::Replying,
            SendActionView::Reply(reply(written)),
        ),
    }
}

/// The sending of messages to one client.
pub struct SendMessages<C> {
    codec: C,
    order: ByteOrder,
    phase: SendPhase,
}

/// What a [`SendMessages`] stands for.
pub struct SendMessagesView<C> {
    pub codec: C,
    /// The byte order of the lengths on the wire.
    pub order: ByteOrder,
    pub phase: SendPhaseView,
}

impl<C> View for SendMessages<C> {
    type V = SendMessagesView<C>;

    closed spec fn view(&self) -> SendMessagesView<C> {
        SendMessagesView { codec: self.codec, order: self.order, phase: self.phase@ }
    }
}

impl<C> SendMessagesView<C> {
    /// The same, in another phase.
    pub open spec fn with_phase(self, phase: SendPhaseView) -> Self {
        SendMessagesView { phase, ..self }
    }

    /// What comes after a message was encoded: its frame is written.
    pub open spec fn after_encode(self, buffer: Seq<u8>) -> (Self, SendActionView) {
        let (writing, step) = write_start(self.order, buffer);
        let (phase, action) = after_step(writing, step);
        (self.with_phase(phase), action)
    }

    /// What comes after writing or flushing with this outcome.
    pub open spec fn after_write(self, outcome: Result<(), Error>) -> (Self, SendActionView) {
        let (writing, step) = self.phase->Writing_0.after(outcome);
        let (phase, action) = after_step(writing, step);
        (self.with_phase(phase), action)
    }

    /// What may come of the next message, or of there being none any more: the codec encodes the
    /// message, and its bytes are written as one frame.
    pub open spec fn request_outcome<Tin, Tout>(
        self,
        request: Option<Tout>,
        after: Self,
        action: SendActionView,
    ) -> bool where C: Codec<Tin, Tout> {
        match request {
            Some(message) => exists|buffer: Vec<u8>|
                {
                    &&& #[trigger] call_ensures(C::encode, (&self.codec, message), buffer)
                    &&& (after, action) == self.after_encode(buffer@)
                },
            None => {
                &&& after == self.with_phase(SendPhaseView::Returned)
                &&& action == SendActionView::Return(Ok(()))
            },
        }
    }
}

impl<C> SendMessages<C> {
    fn at(self, phase: SendPhase) -> (next: Self)
        ensures
            next@ == self@.with_phase(phase@),
    {
        SendMessages { codec: self.codec, order: self.order, phase }
    }

    /// Starts to send messages: the first one is awaited.
    pub(crate) fn start(codec: C, order: ByteOrder) -> (start: (Self, SendAction))
        ensures
            start.0@ == (SendMessagesView { codec, order, phase: SendPhaseView::Receiving }),
            start.1 == SendAction::Receive,
    {
        (
            SendMessages { codec, order, phase: SendPhase::Receiving },
            SendAction::Receive,
        )
    }

    /// Does what a step of writing a frame asks for.
    fn on_step(self, writing: Writing, step: WriteStep) -> (next: (Self, SendAction))
        ensures
            next.0@ == self@.with_phase(after_step(writing@, step@).0),
            next.1@ == after_step(writing@, step@).1,
    {
        match step {
            WriteStep::WriteAll(bytes) => (
                self.at(SendPhase::Writing(writing)),
                SendAction::WriteAll(bytes),
            ),
            WriteStep::Flush => (self.at(SendPhase::Writing(writing)), SendAction::Flush),
            WriteStep::Done(Ok(())) => (self.at(SendPhase::Replying), SendAction::Reply(Ok(()))),
            WriteStep::Done(Err(error)) => (
                self.at(SendPhase::Replying),
                SendAction::Reply(Err(SendError::IoError(error))),
            ),
        }
    }

    /// Takes in the bytes of the next message.
    pub fn on_encoded(self, buffer: Vec<u8>) -> (next: (Self, SendAction))
        ensures
            (next.0@, next.1@) == self@.after_encode(buffer@),
    {
        let (writing, step) = crate::read_write::write(self.order, buffer);
        self.on_step(writing, step)
    }

    /// Takes in the next message, or that there will be none because the queue was given up. The
    /// codec encodes the message, and its bytes are written as one frame.
    pub fn on_request<Tin, Tout>(self, request: Option<Tout>) -> (next: (Self, SendAction))
        where C: Codec<Tin, Tout>
        requires
            self@.phase is Receiving,
        ensures
            self@.request_outcome::<Tin, Tout>(request, next.0@, next.1@),
    {
        match request {
            Some(message) => {
                let buffer = self.codec.encode(message);
                self.on_encoded(buffer)
            },
            None => (self.at(SendPhase::Returned), SendAction::Return(Ok(()))),
        }
    }

    /// Takes in the outcome of writing or flushing.
    pub fn on_written(self, outcome: Result<(), Error>) -> (next: (Self, SendAction))
        requires
            self@.phase is Writing,
        ensures
            (next.0@, next.1@) == self@.after_write(outcome),
    {
        let SendMessages { codec, order, phase } = self;
        let writing = match phase {
            SendPhase::Writing(writing) => writing,
            _ => Writing::Done,
        };
        let (writing, step) = writing.on_written(outcome);
        SendMessages { codec, order, phase: SendPhase::Replying }.on_step(writing, step)
    }

    /// Goes on after the sender of the message was told. It does not matter whether the sender
    /// was still there.
    pub fn on_replied(self) -> (next: (Self, SendAction))
        requires
            self@.phase is Replying,
        ensures
            next.0@ == self@.with_phase(SendPhaseView::Receiving),
            next.1 == SendAction::Receive,
    {
        (self.at(SendPhase::Receiving), SendAction::Receive)
    }
}

} // verus!
