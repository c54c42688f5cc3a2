//! The client's end of a connection.
use std::io::Error;
use std::marker::PhantomData;

use vstd::prelude::*;

use crate::addr::Addr;
use crate::byte_order::ByteOrder;
use crate::codec::Codec;
use crate::read_write::{write_start, Receiving, WriteStep, Writing};

pub mod laws;
pub mod receive_messages;
pub mod steps;

pub use receive_messages::{
    shutdown_harmless, ReceiveAction, ReceiveMessages, ReceivePhase,
};

verus! {


/// Why a message was not sent.
#[derive(Debug)]
pub enum SendError {
    /// Writing it to the socket failed.
    IoError(Error),
    /// The connection is over.
    Offline,
}

/// Why no message was received.
#[derive(Debug)]
pub enum ReceiveError<TCodecErr> {
    /// Reading from the socket failed.
    IoError(Error),
    /// The codec could not decode what was read.
    Codec(TCodecErr),
}

/// The client's end of a connection.
pub struct Client<Tin, Tout, C> {
    local_addr: Addr,
    peer_addr: Addr,
    online: bool,
    codec: C,
    order: ByteOrder,
    _marker: PhantomData<(Tin, Tout)>,
}

/// What a [`Client`] stands for.
pub struct ClientView<C> {
    /// The address of this end.
    pub local_addr: Addr,
    /// The address of the server.
    pub peer_addr: Addr,
    /// Whether the connection is healthy.
    pub online: bool,
    pub codec: C,
    /// The byte order of the lengths on the wire.
    pub order: ByteOrder,
}

impl<Tin, Tout, C> View for Client<Tin, Tout, C> {
    type V = ClientView<C>;

    closed spec fn view(&self) -> ClientView<C> {
        ClientView {
            local_addr: self.local_addr,
            peer_addr: self.peer_addr,
            online: self.online,
            codec: self.codec,
            order: self.order,
        }
    }
}

impl<C> ClientView<C> {
    /// The client once receiving was seen in this phase.
    pub open spec fn observed(self, phase: ReceivePhase) -> Self {
        ClientView { online: self.online && phase.online(), ..self }
    }
}

/// The result of sending a message whose frame was written, or could not be.
pub open spec fn after_written(written: Result<(), Error>) -> Result<(), SendError> {
    match written {
        Ok(()) => Ok(()),
        Err(error) => Err(SendError::IoError(error)),
    }
}

impl<Tin, Tout, C> Client<Tin, Tout, C> where C: Codec<Tin, Tout> {
    /// A client, once it is known whether the connection to the server came about. If it did,
    /// `connected` holds the addresses of this end and of the server. Lengths travel in the byte
    /// order of the machine.
    pub fn connect(connected: Result<(Addr, Addr), Error>, codec: C) -> (result: Result<
        Self,
        Error,
    >)
        ensures
            match connected {
                Ok((local_addr, peer_addr)) => {
                    &&& result matches Ok(client)
                    &&& client@ == (ClientView {
                        local_addr,
                        peer_addr,
                        online: true,
                        codec,
                        order: client@.order,
                    })
                    &&& client@.order.is_native()
                },
                Err(error) => result == Err::<Self, Error>(error),
            },
    {
        Self::connect_with(connected, codec, ByteOrder::native())
    }

    /// A client as [`Client::connect`] makes it, whose lengths travel in the given byte order.
    pub fn connect_with(
        connected: Result<(Addr, Addr), Error>,
        codec: C,
        order: ByteOrder,
    ) -> (result: Result<Self, Error>)
        ensures
            match connected {
                Ok((local_addr, peer_addr)) => {
                    &&& result matches Ok(client)
                    &&& client@ == (ClientView {
                        local_addr,
                        peer_addr,
                        online: true,
                        codec,
                        order,
                    })
                },
                Err(error) => result == Err::<Self, Error>(error),
            },
    {
        match connected {
            Ok((local_addr, peer_addr)) => Ok(
                Client {
                    local_addr,
                    peer_addr,
                    online: true,
                    codec,
                    order,
                    _marker: PhantomData,
                },
            ),
            Err(error) => Err(error),
        }
    }

    /// Starts to receive messages, with a codec of its own.
    pub fn receive_messages(&self) -> (start: (
        ReceiveMessages<C>,
        ReceiveAction<Tin, C::TErr>,
    ))
        ensures
            cloned(self@.codec, start.0@.codec),
            start.0@.order == self@.order,
            start.0@.phase == ReceivePhase::Reading(Receiving::Header),
            start.1 == ReceiveAction::<Tin, C::TErr>::Read(Receiving::Header.wanted()),
    {
        ReceiveMessages::start(self.codec.clone(), self.order)
    }

    /// Takes note of where the receiving stands. The client is offline for good from the moment
    /// at which receiving is decided to end.
    pub fn observe(&mut self, phase: ReceivePhase)
        ensures
            final(self)@ == old(self)@.observed(phase),
    {
        self.online = self.online && phase.online();
    }

    /// Whether the connection is healthy.
    pub fn online(&self) -> (online: bool)
        ensures
            online == self@.online,
    {
        self.online
    }

    /// The address of the server.
    pub fn peer_addr(&self) -> (addr: Addr)
        ensures
            addr == self@.peer_addr,
    {
        self.peer_addr
    }

    /// The address of this end, by which the server knows the client.
    pub fn local_addr(&self) -> (addr: Addr)
        ensures
            addr == self@.local_addr,
    {
        self.local_addr
    }

    /// The byte order of the lengths on the wire.
    pub fn byte_order(&self) -> (order: ByteOrder)
        ensures
            order == self@.order,
    {
        self.order
    }

    /// Starts to send a message, unless the connection is over. The codec encodes the message,
    /// and its bytes are written as one frame.
    pub fn send(&self, message: Tout) -> (result: Result<(Writing, WriteStep), SendError>)
        ensures
            !self@.online ==> result == Err::<(Writing, WriteStep), SendError>(SendError::Offline),
            self@.online ==> {
                &&& result matches Ok(start)
                &&& exists|buffer: Vec<u8>|
                    {
                        &&& #[trigger] call_ensures(C::encode, (&self@.codec, message), buffer)
                        &&& start.0 == Writing::Header(buffer)
                        &&& (start.0@, start.1@) == write_start(
                            self@.order,
                            buffer@,
                        )
                    }
            },
    {
        if self.online {
            let buffer = self.codec.encode(message);
            Ok(crate::read_write::write(self.order, buffer))
        } else {
            Err(SendError::Offline)
        }
    }

    /// The result of sending a message, once its frame was written or writing has failed.
    pub fn sent(written: Result<(), Error>) -> (result: Result<(), SendError>)
        ensures
            result == after_written(written),
    {
        match written {
            Ok(()) => Ok(()),
            Err(error) => Err(SendError::IoError(error)),
        }
    }
}

} // verus!
