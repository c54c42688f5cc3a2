//! The server's end of its connections.
use std::io::Error;
use std::marker::PhantomData;

use vstd::prelude::*;

use crate::addr::Addr;
use crate::byte_order::ByteOrder;
use crate::codec::Codec;
use crate::connections::{distinct, has_entry, lists, Connections};
use crate::error::ErrorKind;
use crate::read_write::Receiving;
use crate::server::send_messages::SendPhaseView;

pub mod handle_connection;
pub mod laws;
pub mod read_messages;
pub mod send_messages;
pub mod steps;

pub use handle_connection::{HandleAction, HandleConnection, HandlePhase};
pub use read_messages::{ReadAction, ReadMessages, ReadPhase};
pub use send_messages::{SendAction, SendMessages, SendPhase};

verus! {

/// What a server reports of its clients.
#[derive(Debug)]
pub enum Event<Trecv, TCodecErr> {
    /// The client has connected.
    Connect,
    /// The client has sent a message.
    Data(Trecv),
    /// Receiving from the client has failed.
    Error(ReceiveError<TCodecErr>),
    /// The connection to the client is over.
    Disconnect,
}

/// Why a message was not sent.
#[derive(Debug)]
pub enum SendError {
    /// Writing it to the socket failed.
    IoError(Error),
    /// The connection ended while the message was waiting to be written.
    BrokenChannel,
    /// No client with this address is connected.
    AddrNotFound,
}

/// Why no message was received.
#[derive(Debug)]
pub enum ReceiveError<TCodecErr> {
    /// Reading from the socket failed.
    IoError(Error),
    /// The codec could not decode what was read.
    Codec(TCodecErr),
}

/// A server. Each connected client has a queue of type `Q` for what is sent to it.
pub struct Server<Tin, Tout, C, Q> {
    local_addr: Addr,
    connections: Connections<Q>,
    shutdown: bool,
    codec: C,
    order: ByteOrder,
    _marker: PhantomData<(Tin, Tout)>,
}

/// What a [`Server`] stands for.
pub struct ServerView<C, Q> {
    /// The address at which the server listens.
    pub local_addr: Addr,
    /// The queues of the connected clients.
    pub connections: Map<Addr, Q>,
    /// Whether the server was told to shut down.
    pub shutdown: bool,
    /// The codec of which every connection has a clone.
    pub codec: C,
    /// The byte order of the lengths on the wire.
    pub order: ByteOrder,
}

impl<Tin, Tout, C, Q> View for Server<Tin, Tout, C, Q> {
    type V = ServerView<C, Q>;

    closed spec fn view(&self) -> ServerView<C, Q> {
        ServerView {
            local_addr: self.local_addr,
            connections: self.connections@,
            shutdown: self.shutdown,
            codec: self.codec,
            order: self.order,
        }
    }
}

impl<C, Q> ServerView<C, Q> {
    /// The server after a client has been entered.
    pub open spec fn registered(self, addr: Addr, queue: Q) -> Self {
        ServerView { connections: self.connections.insert(addr, queue), ..self }
    }

    /// The server after a client has been taken out.
    pub open spec fn unregistered(self, addr: Addr) -> Self {
        ServerView { connections: self.connections.remove(addr), ..self }
    }

    /// The server after all clients have been taken out.
    pub open spec fn emptied(self) -> Self {
        ServerView { connections: Map::empty(), ..self }
    }

    /// The server after it was told to shut down.
    pub open spec fn told_to_stop(self) -> Self {
        ServerView { shutdown: true, ..self }
    }

    /// What to do after looking for a new connection.
    pub open spec fn accept_action(self, incoming: Result<Addr, ErrorKind>) -> AcceptAction {
        match incoming {
            Ok(addr) => AcceptAction::Serve(addr),
            Err(ErrorKind::WouldBlock) => if self.shutdown {
                AcceptAction::Stop
            } else {
                AcceptAction::Retry
            },
            Err(_) => AcceptAction::Panic,
        }
    }

    /// Sending these messages is to send a clone of `value` to every connected client, once.
    pub open spec fn reaches_all<Tout: Clone>(self, value: Tout, sends: Seq<(Addr, Tout)>) -> bool {
        &&& distinct(sends)
        &&& forall|addr: Addr|
            has_entry(sends, addr) <==> #[trigger] self.connections.contains_key(addr)
        &&& forall|i: int| 0 <= i < sends.len() ==> cloned(value, (#[trigger] sends[i]).1)
    }

    /// The queue through which a message to this address is sent.
    pub open spec fn queue_of(self, who: Addr) -> Option<Q> {
        if self.connections.contains_key(who) {
            Some(self.connections[who])
        } else {
            None
        }
    }
}

/// What to do about a connection that may have come in.
#[derive(Clone, Copy, Debug, PartialEq, Eq, Structural)]
pub enum AcceptAction {
    /// Serve this client, and accept more.
    Serve(Addr),
    /// Try again.
    Retry,
    /// Accept no more clients, and close all connections.
    Stop,
    /// Stop with a panic.
    Panic,
}

/// The first thing to do in order to send a message to a client.
#[derive(Debug)]
pub enum SendStart<'a, Q, Tout> {
    /// Put the message into this queue.
    Enqueue(&'a Q, Tout),
    /// Nothing: this is the result.
    Done(Result<(), SendError>),
}

/// What comes after a message was put into the queue of a client.
#[derive(Debug)]
pub enum Enqueued {
    /// Wait until it is known how writing the message went.
    AwaitReply,
    /// Nothing: this is the result.
    Done(Result<(), SendError>),
}

/// What comes after the queue of a client has taken a message, or has not.
pub open spec fn after_enqueue(accepted: bool) -> Enqueued {
    if accepted {
        Enqueued::AwaitReply
    } else {
        Enqueued::Done(Err(SendError::BrokenChannel))
    }
}

/// The result of sending a message that was put into the queue of a client.
pub open spec fn after_reply(reply: Option<Result<(), SendError>>) -> Result<(), SendError> {
    match reply {
        Some(result) => result,
        None => Err(SendError::BrokenChannel),
    }
}

/// What comes after putting a message into the queue of a client was tried.
pub fn on_enqueued(accepted: bool) -> (next: Enqueued)
    ensures
        next == after_enqueue(accepted),
{
    if accepted {
        Enqueued::AwaitReply
    } else {
        Enqueued::Done(Err(SendError::BrokenChannel))
    }
}

/// The result of sending a message, from the reply of the one that writes the messages, which may
/// have gone without a reply.
pub fn on_reply(reply: Option<Result<(), SendError>>) -> (result: Result<(), SendError>)
    ensures
        result == after_reply(reply),
{
    match reply {
        Some(result) => result,
        None => Err(SendError::BrokenChannel),
    }
}

impl<Tin, Tout, C, Q> Server<Tin, Tout, C, Q> {
    /// Each address has at most one connection.
    pub closed spec fn wf(&self) -> bool {
        self.connections.wf()
    }

    /// Asks the server to shut down, which is the end of a server that is dropped.
    pub fn shut_down(&mut self)
        requires
            old(self).wf(),
        ensures
            final(self).wf(),
            final(self)@ == old(self)@.told_to_stop(),
    {
        self.shutdown = true;
    }
}

impl<Tin, Tout, C, Q> Server<Tin, Tout, C, Q> where C: Codec<Tin, Tout> {
    /// A server, once it is known whether a listening socket could be set up. If so, `bound` holds
    /// its address. Each connection has a clone of `codec`. Lengths travel in the byte order of
    /// the machine.
    pub fn bind(bound: Result<Addr, Error>, codec: C) -> (result: Result<Self, Error>)
        ensures
            match bound {
                Ok(local_addr) => {
                    &&& result matches Ok(server)
                    &&& server.wf()
                    &&& server@ == (ServerView::<C, Q> {
                        local_addr,
                        connections: Map::empty(),
                        shutdown: false,
                        codec,
                        order: server@.order,
                    })
                    &&& server@.order.is_native()
                },
                Err(error) => result == Err::<Self, Error>(error),
            },
    {
        Self::bind_with(bound, codec, ByteOrder::native())
    }

    /// A server as [`Server::bind`] makes it, whose lengths travel in the given byte order.
    pub fn bind_with(bound: Result<Addr, Error>, codec: C, order: ByteOrder) -> (result: Result<
        Self,
        Error,
    >)
        ensures
            match bound {
                Ok(local_addr) => {
                    &&& result matches Ok(server)
                    &&& server.wf()
                    &&& server@ == (ServerView::<C, Q> {
                        local_addr,
                        connections: Map::empty(),
                        shutdown: false,
                        codec,
                        order,
                    })
                },
                Err(error) => result == Err::<Self, Error>(error),
            },
    {
        match bound {
            Ok(local_addr) => Ok(
                Server {
                    local_addr,
                    connections: Connections::new(),
                    shutdown: false,
                    codec,
                    order,
                    _marker: PhantomData,
                },
            ),
            Err(error) => Err(error),
        }
    }

    /// The address at which the server listens.
    pub fn local_addr(&self) -> (addr: Addr)
        ensures
            addr == self@.local_addr,
    {
        self.local_addr
    }

    /// The byte order of the lengths on the wire.
    pub fn byte_order(&self) -> (order: ByteOrder)
        ensures
            order == self@.order,
    {
        self.order
    }

    /// Starts to send a message to the client with this address.
    pub fn send(&self, who: Addr, value: Tout) -> (start: SendStart<'_, Q, Tout>)
        requires
            self.wf(),
        ensures
            start == (match self@.queue_of(who) {
                Some(queue) => SendStart::Enqueue(&queue, value),
                None => SendStart::Done(Err(SendError::AddrNotFound)),
            }),
    {
        match self.connections.get(who) {
            Some(queue) => SendStart::Enqueue(queue, value),
            None => SendStart::Done(Err(SendError::AddrNotFound)),
        }
    }

    /// The messages to send in order to reach every connected client once, each a clone of
    /// `value`. What comes of one of them has no influence on the others.
    pub fn broadcast(&self, value: Tout) -> (sends: Vec<(Addr, Tout)>) where Tout: Clone
        requires
            self.wf(),
        ensures
            self@.reaches_all(value, sends@),
    {
        let addrs = self.connections.addrs();
        let mut sends: Vec<(Addr, Tout)> = Vec::new();
        for i in 0..addrs.len()
            invariant
                sends@.len() == i,
                forall|j: int| 0 <= j < i ==> (#[trigger] sends@[j]).0 == addrs@[j],
                forall|j: int| 0 <= j < i ==> cloned(value, (#[trigger] sends@[j]).1),
        {
            sends.push((addrs[i], value.clone()));
        }
        proof {
            assert forall|addr: Addr|
                has_entry(sends@, addr) <==> #[trigger] self@.connections.contains_key(addr) by {
                if addrs@.contains(addr) {
                    let i = addrs@.index_of(addr);
                    assert(sends@[i].0 == addr);
                }
                if has_entry(sends@, addr) {
                    let i = choose|i: int|
                        0 <= i < sends@.len() && (#[trigger] sends@[i]).0 == addr;
                    assert(addrs@[i] == addr);
                }
            }
        }
        sends
    }

    /// What to do after looking for a new connection, which holds the address of the client, or
    /// says why there is none. The request to shut down is heeded when no client is waiting.
    pub fn accept_connections(&self, incoming: Result<Addr, ErrorKind>) -> (action: AcceptAction)
        ensures
            action == self@.accept_action(incoming),
    {
        match incoming {
            Ok(addr) => AcceptAction::Serve(addr),
            Err(ErrorKind::WouldBlock) => if self.shutdown {
                AcceptAction::Stop
            } else {
                AcceptAction::Retry
            },
            Err(_) => AcceptAction::Panic,
        }
    }

    /// Takes out all connections, in order to close them, once no more clients are accepted.
    pub fn close_all(&mut self) -> (closed: Vec<(Addr, Q)>)
        requires
            old(self).wf(),
        ensures
            final(self).wf(),
            final(self)@ == old(self)@.emptied(),
            lists(closed@, old(self)@.connections),
    {
        self.connections.take_all()
    }

    /// Starts to handle the connection of a client: it can be sent messages from now on, and is
    /// reported.
    pub fn handle_connection(&mut self, addr: Addr, queue: Q) -> (start: (
        HandleConnection,
        HandleAction<Tin, C::TErr>,
    ))
        requires
            old(self).wf(),
        ensures
            final(self).wf(),
            final(self)@ == old(self)@.registered(addr, queue),
            start == HandleConnection::first::<Tin, C::TErr>(addr),
    {
        let _ = self.connections.insert(addr, queue);
        (
            HandleConnection { addr, phase: HandlePhase::Connecting },
            HandleAction::Deliver(addr, Event::Connect),
        )
    }

    /// Takes out a client.
    pub(crate) fn unregister(&mut self, addr: Addr)
        requires
            old(self).wf(),
        ensures
            final(self).wf(),
            final(self)@ == old(self)@.unregistered(addr),
    {
        let _ = self.connections.remove(addr);
    }

    /// Starts to receive the messages of a client. The codec of this connection is a clone of the
    /// one that the server has.
    pub fn read_messages(&self, peer: Addr) -> (start: (
        ReadMessages<C>,
        ReadAction<Tin, C::TErr>,
    ))
        ensures
            cloned(self@.codec, start.0@.codec),
            start.0@.peer == peer,
            start.0@.order == self@.order,
            start.0@.phase == ReadPhase::Reading(Receiving::Header),
            start.1 == ReadAction::<Tin, C::TErr>::Read(Receiving::Header.wanted()),
    {
        ReadMessages::start(peer, self.codec.clone(), self.order)
    }

    /// Starts to send messages to the client whose messages are received by `reading`. The codec
    /// is a clone of the one that this connection has.
    pub fn send_messages(&self, reading: &ReadMessages<C>) -> (start: (
        SendMessages<C>,
        SendAction,
    ))
        ensures
            cloned(reading@.codec, start.0@.codec),
            start.0@.order == self@.order,
            start.0@.phase == SendPhaseView::Receiving,
            start.1 == SendAction::Receive,
    {
        SendMessages::start(reading.clone_codec(), self.order)
    }
}

} // verus!
