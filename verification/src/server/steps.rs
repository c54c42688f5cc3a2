//! What the calls of a server do, one by one and in a row.
use std::io::Error;

use vstd::prelude::*;

use crate::addr::Addr;
use crate::byte_order::{lemma_image_value, ByteOrder};
use crate::codec::{Codec, Continue};
use crate::error::ErrorKind;
use crate::read_write::{frame, wire_len, Receiving, WritingView};
use crate::server::handle_connection::{HandleAction, HandleConnection, HandlePhase};
use crate::server::read_messages::{ReadAction, ReadMessages, ReadPhase};
use crate::server::send_messages::{SendAction, SendMessages, SendPhaseView};
use crate::server::{
    on_enqueued, on_reply, AcceptAction, Enqueued, Event, ReceiveError, SendError, SendStart,
    Server,
};

verus! {

// ---------------------------------------------------------------------------------------------
// Setting up, accepting and shutting down

/// A server comes about exactly if its listening socket does. It knows its address, has no
/// clients, was not told to shut down and uses the byte order that it was given.
pub proof fn lemma_bound<'a, Tin, Tout, C: Codec<Tin, Tout>, Q>(
    bound: Result<Addr, Error>,
    codec: C,
    order: ByteOrder,
    result: Result<Server<Tin, Tout, C, Q>, Error>,
    local_addr: Addr,
    used: ByteOrder,
    who: Addr,
    value: Tout,
    start: SendStart<'a, Q, Tout>,
    idle: AcceptAction,
)
    requires
        call_ensures(Server::<Tin, Tout, C, Q>::bind_with, (bound, codec, order), result),
        result matches Ok(server) ==> {
            &&& call_ensures(Server::<Tin, Tout, C, Q>::local_addr, (&server,), local_addr)
            &&& call_ensures(Server::<Tin, Tout, C, Q>::byte_order, (&server,), used)
            &&& call_ensures(Server::<Tin, Tout, C, Q>::send, (&server, who, value), start)
            &&& call_ensures(
                Server::<Tin, Tout, C, Q>::accept_connections,
                (&server, Err::<Addr, ErrorKind>(ErrorKind::WouldBlock)),
                idle,
            )
        },
    ensures
        bound matches Err(error) ==> result == Err::<Server<Tin, Tout, C, Q>, Error>(error),
        bound matches Ok(addr) ==> {
            &&& result matches Ok(server)
            &&& server@.codec == codec
            &&& local_addr == addr
            &&& used == order
            &&& start == SendStart::<Q, Tout>::Done(Err(SendError::AddrNotFound))
            &&& idle is Retry
        },
{
}

/// A server that is not told its byte order differs from one that is in nothing but that it uses
/// the byte order of the machine.
pub proof fn lemma_bound_natively<Tin, Tout, C: Codec<Tin, Tout>, Q>(
    bound: Result<Addr, Error>,
    codec: C,
    order: ByteOrder,
    result: Result<Server<Tin, Tout, C, Q>, Error>,
    told: Result<Server<Tin, Tout, C, Q>, Error>,
)
    requires
        call_ensures(Server::<Tin, Tout, C, Q>::bind, (bound, codec), result),
        result matches Ok(server) ==> server@.order == order,
        call_ensures(Server::<Tin, Tout, C, Q>::bind_with, (bound, codec, order), told),
    ensures
        result is Ok <==> told is Ok,
        result is Err ==> result == told,
        result matches Ok(server) ==> server@ == told->Ok_0@ && order.is_native(),
{
}

/// Every client that comes in is served. While none is waiting, a server tries again until it was
/// told to shut down, and then stops; its address and its clients do not matter. Any other failure
/// is a reason to panic, and nothing else is.
pub proof fn lemma_accept<Tin, Tout, C: Codec<Tin, Tout>, Q>(
    server: Server<Tin, Tout, C, Q>,
    incoming: Result<Addr, ErrorKind>,
    action: AcceptAction,
)
    requires
        call_ensures(Server::<Tin, Tout, C, Q>::accept_connections, (&server, incoming), action),
    ensures
        incoming matches Ok(addr) ==> action == AcceptAction::Serve(addr),
        incoming == Err::<Addr, ErrorKind>(ErrorKind::WouldBlock) && !server@.shutdown ==> action
            is Retry,
        incoming == Err::<Addr, ErrorKind>(ErrorKind::WouldBlock) && server@.shutdown ==> action
            is Stop,
        action is Panic <==> incoming is Err && incoming != Err::<Addr, ErrorKind>(
            ErrorKind::WouldBlock,
        ),
{
}

/// Being told to shut down makes a server stop as soon as no client is waiting. It changes nothing
/// else: clients that do wait are served, and those that are connected stay so.
pub proof fn lemma_told_to_stop<'a, Tin, Tout, C: Codec<Tin, Tout>, Q>(
    server: &mut Server<Tin, Tout, C, Q>,
    after: Server<Tin, Tout, C, Q>,
    idle: AcceptAction,
    addr: Addr,
    waiting: AcceptAction,
    who: Addr,
    value: Tout,
    before_start: SendStart<'a, Q, Tout>,
    after_start: SendStart<'a, Q, Tout>,
)
    requires
        call_ensures(
            Server::<Tin, Tout, C, Q>::send,
            (&*old(server), who, value),
            before_start,
        ),
        call_ensures(Server::<Tin, Tout, C, Q>::shut_down, (server,), ()),
        after == *final(server),
        call_ensures(
            Server::<Tin, Tout, C, Q>::accept_connections,
            (&after, Err::<Addr, ErrorKind>(ErrorKind::WouldBlock)),
            idle,
        ),
        call_ensures(
            Server::<Tin, Tout, C, Q>::accept_connections,
            (&after, Ok::<Addr, ErrorKind>(addr)),
            waiting,
        ),
        call_ensures(Server::<Tin, Tout, C, Q>::send, (&after, who, value), after_start),
    ensures
        idle is Stop,
        waiting == AcceptAction::Serve(addr),
        after_start == before_start,
        after@.local_addr == old(server)@.local_addr,
        after@.codec == old(server)@.codec,
        after@.order == old(server)@.order,
{
}

/// Closing all connections gives the queue of every connected client, once, and nothing else.
/// After it no client is connected.
pub proof fn lemma_closed<'a, Tin, Tout, C: Codec<Tin, Tout>, Q>(
    server: &mut Server<Tin, Tout, C, Q>,
    closed: Vec<(Addr, Q)>,
    after: Server<Tin, Tout, C, Q>,
    who: Addr,
    value: Tout,
    before_start: SendStart<'a, Q, Tout>,
    after_start: SendStart<'a, Q, Tout>,
)
    requires
        call_ensures(
            Server::<Tin, Tout, C, Q>::send,
            (&*old(server), who, value),
            before_start,
        ),
        call_ensures(Server::<Tin, Tout, C, Q>::close_all, (server,), closed),
        after == *final(server),
        call_ensures(Server::<Tin, Tout, C, Q>::send, (&after, who, value), after_start),
    ensures
        before_start matches SendStart::Enqueue(queue, _) ==> closed@.contains((who, *queue)),
        forall|i: int|
            0 <= i < closed@.len() && (#[trigger] closed@[i]).0 == who ==> before_start
                == SendStart::Enqueue(&closed@[i].1, value),
        forall|i: int, j: int|
            0 <= i < j < closed@.len() ==> (#[trigger] closed@[i]).0 != (#[trigger] closed@[j]).0,
        after_start == SendStart::<Q, Tout>::Done(Err(SendError::AddrNotFound)),
        after@.local_addr == old(server)@.local_addr,
        after@.shutdown == old(server)@.shutdown,
        after@.codec == old(server)@.codec,
        after@.order == old(server)@.order,
{
    let map = old(server)@.connections;
    if before_start is Enqueue {
        assert(map.contains_key(who));
        let i = choose|i: int| 0 <= i < closed@.len() && (#[trigger] closed@[i]).0 == who;
        assert(map.contains_pair(closed@[i].0, closed@[i].1));
    }
    assert forall|i: int| 0 <= i < closed@.len() && (#[trigger] closed@[i]).0 == who implies
        before_start == SendStart::Enqueue(&closed@[i].1, value) by {
        assert(map.contains_pair(closed@[i].0, closed@[i].1));
    }
}

// ---------------------------------------------------------------------------------------------
// The life of a connection

/// From the moment at which the connection of a client is handled, messages to it go into its
/// queue. The client is reported. Nothing changes for other clients.
pub proof fn lemma_registered<'a, Tin, Tout, C: Codec<Tin, Tout>, Q>(
    server: &mut Server<Tin, Tout, C, Q>,
    addr: Addr,
    queue: Q,
    start: (HandleConnection, HandleAction<Tin, C::TErr>),
    after: Server<Tin, Tout, C, Q>,
    value: Tout,
    own: SendStart<'a, Q, Tout>,
    other: Addr,
    before_other: SendStart<'a, Q, Tout>,
    after_other: SendStart<'a, Q, Tout>,
)
    requires
        other != addr,
        call_ensures(
            Server::<Tin, Tout, C, Q>::send,
            (&*old(server), other, value),
            before_other,
        ),
        call_ensures(Server::<Tin, Tout, C, Q>::handle_connection, (server, addr, queue), start),
        after == *final(server),
        call_ensures(Server::<Tin, Tout, C, Q>::send, (&after, addr, value), own),
        call_ensures(Server::<Tin, Tout, C, Q>::send, (&after, other, value), after_other),
    ensures
        start.0 == (HandleConnection { addr, phase: HandlePhase::Connecting }),
        start.1 == HandleAction::<Tin, C::TErr>::Deliver(addr, Event::Connect),
        own == SendStart::Enqueue(&queue, value),
        after_other == before_other,
        after@.local_addr == old(server)@.local_addr,
        after@.shutdown == old(server)@.shutdown,
        after@.codec == old(server)@.codec,
        after@.order == old(server)@.order,
{
}

/// Once receiving from a client has ended, no message can be sent to it, and its socket is to be
/// shut down, whatever its address. Nothing changes for other clients.
pub proof fn lemma_served<'a, Tin, Tout, C: Codec<Tin, Tout>, Q>(
    handling: HandleConnection,
    server: &mut Server<Tin, Tout, C, Q>,
    next: (HandleConnection, HandleAction<Tin, C::TErr>),
    after: Server<Tin, Tout, C, Q>,
    value: Tout,
    own: SendStart<'a, Q, Tout>,
    other: Addr,
    before_other: SendStart<'a, Q, Tout>,
    after_other: SendStart<'a, Q, Tout>,
)
    requires
        other != handling.addr,
        call_ensures(
            Server::<Tin, Tout, C, Q>::send,
            (&*old(server), other, value),
            before_other,
        ),
        call_ensures(
            HandleConnection::on_served::<Tin, Tout, C, Q>,
            (handling, server),
            next,
        ),
        after == *final(server),
        call_ensures(Server::<Tin, Tout, C, Q>::send, (&after, handling.addr, value), own),
        call_ensures(Server::<Tin, Tout, C, Q>::send, (&after, other, value), after_other),
    ensures
        next.0 == (HandleConnection { addr: handling.addr, phase: HandlePhase::ShuttingDown }),
        next.1 is Shutdown,
        own == SendStart::<Q, Tout>::Done(Err(SendError::AddrNotFound)),
        after_other == before_other,
        after@.local_addr == old(server)@.local_addr,
        after@.shutdown == old(server)@.shutdown,
        after@.codec == old(server)@.codec,
        after@.order == old(server)@.order,
{
}

/// The whole life of a connection, whatever the address of the client: it is reported to begin,
/// served, shut down and reported to end, in this order, and then nothing is left to do.
pub proof fn lemma_life<Tin, Tout, C: Codec<Tin, Tout>, Q>(
    before: &mut Server<Tin, Tout, C, Q>,
    addr: Addr,
    queue: Q,
    first: (HandleConnection, HandleAction<Tin, C::TErr>),
    second: (HandleConnection, HandleAction<Tin, C::TErr>),
    after: &mut Server<Tin, Tout, C, Q>,
    third: (HandleConnection, HandleAction<Tin, C::TErr>),
    fourth: (HandleConnection, HandleAction<Tin, C::TErr>),
    last: (HandleConnection, HandleAction<Tin, C::TErr>),
)
    requires
        call_ensures(Server::<Tin, Tout, C, Q>::handle_connection, (before, addr, queue), first),
        call_ensures(
            HandleConnection::on_delivered::<Tin, C::TErr>,
            (first.0, true),
            second,
        ),
        call_ensures(HandleConnection::on_served::<Tin, Tout, C, Q>, (second.0, after), third),
        call_ensures(
            HandleConnection::on_shutdown::<Tin, C::TErr>,
            (third.0, Ok::<(), ErrorKind>(())),
            fourth,
        ),
        call_ensures(HandleConnection::on_delivered::<Tin, C::TErr>, (fourth.0, true), last),
    ensures
        first.1 == HandleAction::<Tin, C::TErr>::Deliver(addr, Event::Connect),
        second.1 is Serve,
        third.1 is Shutdown,
        fourth.1 == HandleAction::<Tin, C::TErr>::Deliver(addr, Event::Disconnect),
        last.1 is Finish,
        first.0.phase is Connecting,
        second.0.phase is Serving,
        third.0.phase is ShuttingDown,
        fourth.0.phase is Disconnecting,
        last.0.phase is Finished,
        second.0.addr == addr,
        last.0.addr == addr,
        final(before)@.connections == old(before)@.connections.insert(addr, queue),
        final(after)@.connections == old(after)@.connections.remove(addr),
{
}

/// A sink that accepts no more is a reason to panic, at the beginning of a connection as at its
/// end. One that does accept is not.
pub proof fn lemma_reported<Tin, TErr>(
    handling: HandleConnection,
    accepted: bool,
    next: (HandleConnection, HandleAction<Tin, TErr>),
)
    requires
        handling.phase is Connecting || handling.phase is Disconnecting,
        call_ensures(HandleConnection::on_delivered::<Tin, TErr>, (handling, accepted), next),
    ensures
        next.0.addr == handling.addr,
        !accepted ==> next.1 is Panic && next.0.phase is Finished,
        accepted && handling.phase is Connecting ==> next.1 is Serve && next.0.phase is Serving,
        accepted && handling.phase is Disconnecting ==> next.1 is Finish && next.0.phase
            is Finished,
{
}

/// Once the socket was shut down, the end of the connection is reported. If that fails, for
/// whatever reason, it is a reason to panic.
pub proof fn lemma_shut_down<Tin, TErr>(
    handling: HandleConnection,
    outcome: Result<(), ErrorKind>,
    next: (HandleConnection, HandleAction<Tin, TErr>),
)
    requires
        handling.phase is ShuttingDown,
        call_ensures(HandleConnection::on_shutdown::<Tin, TErr>, (handling, outcome), next),
    ensures
        next.0.addr == handling.addr,
        outcome is Err ==> next.1 is Panic && next.0.phase is Finished,
        outcome is Ok ==> next.0.phase is Disconnecting && next.1 == HandleAction::<
            Tin,
            TErr,
        >::Deliver(handling.addr, Event::Disconnect),
{
}

// ---------------------------------------------------------------------------------------------
// Receiving

/// Receiving starts with four bytes, with a clone of the codec and the byte order of the server.
pub proof fn lemma_reading_starts<Tin, Tout, C: Codec<Tin, Tout>, Q>(
    server: Server<Tin, Tout, C, Q>,
    peer: Addr,
    start: (ReadMessages<C>, ReadAction<Tin, C::TErr>),
    phase: ReadPhase,
)
    requires
        call_ensures(Server::<Tin, Tout, C, Q>::read_messages, (&server, peer), start),
        call_ensures(ReadMessages::<C>::phase, (&start.0,), phase),
    ensures
        start.1 == ReadAction::<Tin, C::TErr>::Read(4),
        phase == ReadPhase::Reading(Receiving::Header),
        start.0@.phase == phase,
        start.0@.peer == peer,
        start.0@.order == server@.order,
        cloned(server@.codec, start.0@.codec),
{
}

/// A length other than zero makes the server read as many bytes as it says, and the state keeps
/// its client, codec and byte order.
pub proof fn lemma_length_read<Tin, Tout, C: Codec<Tin, Tout>>(
    before: ReadMessages<C>,
    header: Vec<u8>,
    next: (ReadMessages<C>, ReadAction<Tin, C::TErr>),
)
    requires
        before@.phase == ReadPhase::Reading(Receiving::Header),
        header@.len() == 4,
        before@.order.value(header@) > 0,
        call_ensures(
            ReadMessages::<C>::on_read::<Tin, Tout>,
            (before, Ok::<Vec<u8>, Error>(header)),
            next,
        ),
    ensures
        next.1 == ReadAction::<Tin, C::TErr>::Read(before@.order.value(header@) as usize),
        next.0@.phase == ReadPhase::Reading(Receiving::Body(before@.order.value(header@))),
        next.0@.peer == before@.peer,
        next.0@.codec == before@.codec,
        next.0@.order == before@.order,
{
}

/// Once a message is complete, exactly its bytes are decoded, and the sink is handed what the
/// codec makes of them, in the name of the client. It is the last thing exactly if the codec says
/// so or the message has no bytes.
pub proof fn lemma_message_decoded<Tin, Tout, C: Codec<Tin, Tout>>(
    before: ReadMessages<C>,
    bytes: Vec<u8>,
    message: Seq<u8>,
    next: (ReadMessages<C>, ReadAction<Tin, C::TErr>),
)
    requires
        ({
            ||| before@.phase is Reading && before@.phase->Reading_0 is Body && message == bytes@
            ||| before@.phase == ReadPhase::Reading(Receiving::Header) && bytes@.len() == 4
                && before@.order.value(bytes@) == 0 && message == Seq::<u8>::empty()
        }),
        call_ensures(
            ReadMessages::<C>::on_read::<Tin, Tout>,
            (before, Ok::<Vec<u8>, Error>(bytes)),
            next,
        ),
    ensures
        next.0@.peer == before@.peer,
        next.0@.codec == before@.codec,
        next.0@.order == before@.order,
        exists|buffer: Vec<u8>, decoded: Result<Tin, (C::TErr, Continue)>|
            {
                &&& #[trigger] call_ensures(C::decode, (&before@.codec, buffer), decoded)
                &&& buffer@ == message
                &&& next.0@.phase == (ReadPhase::Delivering {
                    last: message.len() == 0 || (decoded matches Err((_, Continue(false)))),
                })
                &&& decoded matches Ok(item) ==> next.1 == ReadAction::<Tin, C::TErr>::Deliver(
                    before@.peer,
                    Event::Data(item),
                )
                &&& decoded matches Err((error, _)) ==> next.1 == ReadAction::<
                    Tin,
                    C::TErr,
                >::Deliver(before@.peer, Event::Error(ReceiveError::Codec(error)))
            },
{
    let (buffer, decoded) = choose|buffer: Vec<u8>, decoded: Result<Tin, (C::TErr, Continue)>|
        {
            &&& buffer@ == message
            &&& #[trigger] call_ensures(C::decode, (&before@.codec, buffer), decoded)
            &&& next.0@ == before@.with_phase(
                crate::server::read_messages::after_decode(
                    before@.peer,
                    crate::server::read_messages::cancels(message),
                    decoded,
                ).0,
            )
            &&& next.1 == crate::server::read_messages::after_decode(
                before@.peer,
                crate::server::read_messages::cancels(message),
                decoded,
            ).1
        };
    assert(call_ensures(C::decode, (&before@.codec, buffer), decoded));
}

/// A message cancels the connection exactly if it has no bytes.
pub proof fn lemma_cancels(message: Seq<u8>)
    ensures
        crate::server::read_messages::cancels(message) <==> message.len() == 0,
{
}

/// Whatever the codec has made of a message, the sink is handed it, and it is the last thing
/// exactly if the codec says so or the message cancels the connection.
pub proof fn lemma_decoded<Tin, Tout, C: Codec<Tin, Tout>>(
    before: ReadMessages<C>,
    cancels: bool,
    decoded: Result<Tin, (C::TErr, Continue)>,
    next: (ReadMessages<C>, ReadAction<Tin, C::TErr>),
)
    requires
        call_ensures(ReadMessages::<C>::on_decoded::<Tin, Tout>, (before, cancels, decoded), next),
    ensures
        next.0@.peer == before@.peer,
        next.0@.codec == before@.codec,
        next.0@.order == before@.order,
        next.0@.phase == (ReadPhase::Delivering {
            last: cancels || (decoded matches Err((_, Continue(false)))),
        }),
        decoded matches Ok(item) ==> next.1 == ReadAction::<Tin, C::TErr>::Deliver(
            before@.peer,
            Event::Data(item),
        ),
        decoded matches Err((error, _)) ==> next.1 == ReadAction::<Tin, C::TErr>::Deliver(
            before@.peer,
            Event::Error(ReceiveError::Codec(error)),
        ),
{
}

/// A failure to read, at whatever point, is handed to the sink as the last thing.
pub proof fn lemma_read_failed<Tin, Tout, C: Codec<Tin, Tout>>(
    before: ReadMessages<C>,
    error: Error,
    next: (ReadMessages<C>, ReadAction<Tin, C::TErr>),
)
    requires
        call_ensures(
            ReadMessages::<C>::on_read::<Tin, Tout>,
            (before, Err::<Vec<u8>, Error>(error)),
            next,
        ),
    ensures
        next.1 == ReadAction::<Tin, C::TErr>::Deliver(
            before@.peer,
            Event::Error(ReceiveError::IoError(error)),
        ),
        next.0@.phase == (ReadPhase::Delivering { last: true }),
        next.0@.peer == before@.peer,
        next.0@.codec == before@.codec,
        next.0@.order == before@.order,
{
}

/// After a delivery that the sink has accepted and that was not the last one, four bytes are read
/// for the next message. After any other receiving is over.
pub proof fn lemma_delivered<Tin, Tout, C: Codec<Tin, Tout>>(
    before: ReadMessages<C>,
    last: bool,
    accepted: bool,
    next: (ReadMessages<C>, ReadAction<Tin, C::TErr>),
)
    requires
        before@.phase == (ReadPhase::Delivering { last }),
        call_ensures(ReadMessages::<C>::on_delivered::<Tin, Tout>, (before, accepted), next),
    ensures
        next.0@.peer == before@.peer,
        next.0@.codec == before@.codec,
        next.0@.order == before@.order,
        accepted && !last ==> {
            &&& next.1 == ReadAction::<Tin, C::TErr>::Read(4)
            &&& next.0@.phase == ReadPhase::Reading(Receiving::Header)
        },
        !accepted || last ==> {
            &&& next.1 is Return
            &&& next.0@.phase is Returned
        },
{
}

/// One message after the other: when the bytes that carry a message with at least one byte have
/// been read and what the codec makes of them is accepted, the server stands where it stood before
/// them, unless the codec ends the connection. On the way it reads the length and then exactly the
/// message.
pub proof fn lemma_message_after_message<Tin, Tout, C: Codec<Tin, Tout>>(
    before: ReadMessages<C>,
    header: Vec<u8>,
    first: (ReadMessages<C>, ReadAction<Tin, C::TErr>),
    message: Vec<u8>,
    second: (ReadMessages<C>, ReadAction<Tin, C::TErr>),
    third: (ReadMessages<C>, ReadAction<Tin, C::TErr>),
)
    requires
        before@.phase == ReadPhase::Reading(Receiving::Header),
        0 < message@.len() < 0x1_0000_0000,
        header@ + message@ == frame(before@.order, message@),
        call_ensures(
            ReadMessages::<C>::on_read::<Tin, Tout>,
            (before, Ok::<Vec<u8>, Error>(header)),
            first,
        ),
        call_ensures(
            ReadMessages::<C>::on_read::<Tin, Tout>,
            (first.0, Ok::<Vec<u8>, Error>(message)),
            second,
        ),
        call_ensures(ReadMessages::<C>::on_delivered::<Tin, Tout>, (second.0, true), third),
    ensures
        first.1 == ReadAction::<Tin, C::TErr>::Read(message@.len() as usize),
        exists|buffer: Vec<u8>, decoded: Result<Tin, (C::TErr, Continue)>|
            {
                &&& #[trigger] call_ensures(C::decode, (&before@.codec, buffer), decoded)
                &&& buffer@ == message@
                &&& decoded matches Ok(item) ==> second.1 == ReadAction::<Tin, C::TErr>::Deliver(
                    before@.peer,
                    Event::Data(item),
                )
                &&& decoded matches Err((error, _)) ==> second.1 == ReadAction::<
                    Tin,
                    C::TErr,
                >::Deliver(before@.peer, Event::Error(ReceiveError::Codec(error)))
                &&& (decoded matches Err((_, Continue(false)))) ==> third.1 is Return
                &&& !(decoded matches Err((_, Continue(false)))) ==> third.0@ == before@
                    && third.1 == ReadAction::<Tin, C::TErr>::Read(4)
            },
{
    let len = wire_len(message@);
    lemma_image_value(before@.order, len, Seq::empty());
    assert(header@ =~= before@.order.image(len)) by {
        let whole = frame(before@.order, message@);
        assert((header@ + message@).len() == header@.len() + message@.len());
        assert(whole.take(4) =~= header@);
        assert(whole.take(4) =~= before@.order.image(len));
    }
    lemma_length_read::<Tin, Tout, C>(before, header, first);
    lemma_message_decoded::<Tin, Tout, C>(first.0, message, message@, second);
    let (buffer, decoded) = choose|buffer: Vec<u8>, decoded: Result<Tin, (C::TErr, Continue)>|
        {
            &&& #[trigger] call_ensures(C::decode, (&first.0@.codec, buffer), decoded)
            &&& buffer@ == message@
            &&& second.0@.phase == (ReadPhase::Delivering {
                last: message@.len() == 0 || (decoded matches Err((_, Continue(false)))),
            })
            &&& decoded matches Ok(item) ==> second.1 == ReadAction::<Tin, C::TErr>::Deliver(
                before@.peer,
                Event::Data(item),
            )
            &&& decoded matches Err((error, _)) ==> second.1 == ReadAction::<
                Tin,
                C::TErr,
            >::Deliver(before@.peer, Event::Error(ReceiveError::Codec(error)))
        };
    assert(call_ensures(C::decode, (&before@.codec, buffer), decoded));
    lemma_delivered::<Tin, Tout, C>(
        second.0,
        decoded matches Err((_, Continue(false))),
        true,
        third,
    );
}

/// A message without bytes is the last one, whatever the codec and the sink say.
pub proof fn lemma_empty_message_is_last<Tin, Tout, C: Codec<Tin, Tout>>(
    before: ReadMessages<C>,
    header: Vec<u8>,
    first: (ReadMessages<C>, ReadAction<Tin, C::TErr>),
    accepted: bool,
    second: (ReadMessages<C>, ReadAction<Tin, C::TErr>),
)
    requires
        before@.phase == ReadPhase::Reading(Receiving::Header),
        header@ == seq![0u8, 0u8, 0u8, 0u8],
        call_ensures(
            ReadMessages::<C>::on_read::<Tin, Tout>,
            (before, Ok::<Vec<u8>, Error>(header)),
            first,
        ),
        call_ensures(ReadMessages::<C>::on_delivered::<Tin, Tout>, (first.0, accepted), second),
    ensures
        first.1 matches ReadAction::Deliver(from, event) && from == before@.peer && (event is Data
            || event is Error),
        second.1 is Return,
{
    crate::byte_order::lemma_positions(0, header@);
    lemma_message_decoded::<Tin, Tout, C>(before, header, Seq::empty(), first);
}

// ---------------------------------------------------------------------------------------------
// Sending

/// A message to a connected client is put into its queue, and one to any other address is refused.
pub proof fn lemma_send<'a, Tin, Tout, C: Codec<Tin, Tout>, Q>(
    server: Server<Tin, Tout, C, Q>,
    who: Addr,
    value: Tout,
    start: SendStart<'a, Q, Tout>,
)
    requires
        call_ensures(Server::<Tin, Tout, C, Q>::send, (&server, who, value), start),
    ensures
        server@.connections.contains_key(who) ==> start == SendStart::Enqueue(
            &server@.connections[who],
            value,
        ),
        !server@.connections.contains_key(who) ==> start == SendStart::<Q, Tout>::Done(
            Err(SendError::AddrNotFound),
        ),
{
}

/// The result of sending is what the one that writes has replied. If it is gone, before the message
/// was taken or before a reply was given, the result says so.
pub proof fn lemma_replied(
    accepted: bool,
    next: Enqueued,
    reply: Option<Result<(), SendError>>,
    result: Result<(), SendError>,
)
    requires
        call_ensures(on_enqueued, (accepted,), next),
        call_ensures(on_reply, (reply,), result),
    ensures
        accepted ==> next is AwaitReply,
        !accepted ==> next == Enqueued::Done(Err(SendError::BrokenChannel)),
        reply matches Some(answer) ==> result == answer,
        reply is None ==> result == Err::<(), SendError>(SendError::BrokenChannel),
{
}

/// A message to all clients is one message to each address to which a message can be sent, and to
/// no other, and each is a clone of the value.
pub proof fn lemma_all_addressed<'a, Tin, Tout: Clone, C: Codec<Tin, Tout>, Q>(
    server: Server<Tin, Tout, C, Q>,
    value: Tout,
    sends: Vec<(Addr, Tout)>,
    who: Addr,
    start: SendStart<'a, Q, Tout>,
)
    requires
        call_ensures(Server::<Tin, Tout, C, Q>::broadcast, (&server, value), sends),
        call_ensures(Server::<Tin, Tout, C, Q>::send, (&server, who, value), start),
    ensures
        start is Enqueue <==> exists|i: int|
            0 <= i < sends@.len() && (#[trigger] sends@[i]).0 == who,
        forall|i: int, j: int|
            0 <= i < j < sends@.len() ==> (#[trigger] sends@[i]).0 != (#[trigger] sends@[j]).0,
        forall|i: int| 0 <= i < sends@.len() ==> cloned(value, (#[trigger] sends@[i]).1),
{
    assert(server@.connections.contains_key(who) <==> crate::connections::has_entry(sends@, who));
}

/// Sending starts by waiting for a message, with a clone of the codec of the connection and the
/// byte order of the server.
pub proof fn lemma_sending_starts<Tin, Tout, C: Codec<Tin, Tout>, Q>(
    server: Server<Tin, Tout, C, Q>,
    reading: ReadMessages<C>,
    start: (SendMessages<C>, SendAction),
)
    requires
        call_ensures(Server::<Tin, Tout, C, Q>::send_messages, (&server, &reading), start),
    ensures
        start.1 is Receive,
        start.0@.phase is Receiving,
        start.0@.order == server@.order,
        cloned(reading@.codec, start.0@.codec),
{
}

/// The next message is encoded with the codec of this state, and four bytes that spell the length
/// of what came out are written first. Without a next message sending is over, and went well.
pub proof fn lemma_requested<Tin, Tout, C: Codec<Tin, Tout>>(
    before: SendMessages<C>,
    request: Option<Tout>,
    next: (SendMessages<C>, SendAction),
)
    requires
        call_ensures(SendMessages::<C>::on_request::<Tin, Tout>, (before, request), next),
    ensures
        next.0@.codec == before@.codec,
        next.0@.order == before@.order,
        request is None ==> next.1 == SendAction::Return(Ok(())) && next.0@.phase is Returned,
        request matches Some(message) ==> exists|buffer: Vec<u8>|
            {
                &&& #[trigger] call_ensures(C::encode, (&before@.codec, message), buffer)
                &&& next.1 matches SendAction::WriteAll(header)
                &&& header@.len() == 4
                &&& before@.order.value(header@) == buffer@.len() % 0x1_0000_0000
                &&& next.0@.phase == SendPhaseView::Writing(WritingView::Header(buffer@))
            },
{
    if let Some(message) = request {
        let buffer = choose|buffer: Vec<u8>|
            {
                &&& #[trigger] call_ensures(C::encode, (&before@.codec, message), buffer)
                &&& (next.0@, next.1@) == before@.after_encode(buffer@)
            };
        assert(call_ensures(C::encode, (&before@.codec, message), buffer));
        lemma_image_value(before@.order, wire_len(buffer@), Seq::empty());
    }
}

/// One message after the other: four bytes that spell the length, the message and a flush, then
/// the sender is told that all went well, and the state is the one in which the message before was
/// taken: it has the same codec and the same byte order, and waits for the next message.
pub proof fn lemma_sent_after_sent<C>(
    before: SendMessages<C>,
    message: Vec<u8>,
    first: (SendMessages<C>, SendAction),
    second: (SendMessages<C>, SendAction),
    third: (SendMessages<C>, SendAction),
    fourth: (SendMessages<C>, SendAction),
    last: (SendMessages<C>, SendAction),
)
    requires
        before@.phase is Receiving,
        call_ensures(SendMessages::<C>::on_encoded, (before, message), first),
        call_ensures(SendMessages::<C>::on_written, (first.0, Ok::<(), Error>(())), second),
        call_ensures(SendMessages::<C>::on_written, (second.0, Ok::<(), Error>(())), third),
        call_ensures(SendMessages::<C>::on_written, (third.0, Ok::<(), Error>(())), fourth),
        call_ensures(SendMessages::<C>::on_replied, (fourth.0,), last),
    ensures
        first.1 matches SendAction::WriteAll(header) && {
            &&& header@.len() == 4
            &&& before@.order.value(header@) == message@.len() % 0x1_0000_0000
            &&& header@ + message@ == frame(before@.order, message@)
        },
        second.1 matches SendAction::WriteAll(body) && body@ == message@,
        third.1 is Flush,
        fourth.1 == SendAction::Reply(Ok(())),
        last.1 is Receive,
        last.0@ == before@,
{
    lemma_image_value(before@.order, wire_len(message@), Seq::empty());
}

/// Taking in an encoded message changes neither the codec nor the byte order: the message is on
/// its way, with four bytes that spell its length first.
pub proof fn lemma_encoded<C>(
    before: SendMessages<C>,
    message: Vec<u8>,
    next: (SendMessages<C>, SendAction),
)
    requires
        call_ensures(SendMessages::<C>::on_encoded, (before, message), next),
    ensures
        next.0@.codec == before@.codec,
        next.0@.order == before@.order,
        next.0@.phase == SendPhaseView::Writing(WritingView::Header(message@)),
        next.1 matches SendAction::WriteAll(header) && header@.len() == 4 && before@.order.value(
            header@,
        ) == message@.len() % 0x1_0000_0000,
{
    lemma_image_value(before@.order, wire_len(message@), Seq::empty());
}

/// However writing turns out, neither the codec nor the byte order changes. A failure is what the
/// sender is told. After the length comes the message, after the message a flush, and after the
/// flush the sender is told that all went well.
pub proof fn lemma_written<C>(
    before: SendMessages<C>,
    outcome: Result<(), Error>,
    next: (SendMessages<C>, SendAction),
)
    requires
        before@.phase is Writing,
        call_ensures(SendMessages::<C>::on_written, (before, outcome), next),
    ensures
        next.0@.codec == before@.codec,
        next.0@.order == before@.order,
        outcome matches Err(error) ==> next.1 == SendAction::Reply(Err(SendError::IoError(error)))
            && next.0@.phase is Replying,
        outcome is Ok ==> {
            &&& before@.phase matches SendPhaseView::Writing(WritingView::Header(message)) ==> {
                &&& next.1 matches SendAction::WriteAll(body)
                &&& body@ == message
                &&& next.0@.phase == SendPhaseView::Writing(WritingView::Body)
            }
            &&& before@.phase == SendPhaseView::Writing(WritingView::Body) ==> {
                &&& next.1 is Flush
                &&& next.0@.phase == SendPhaseView::Writing(WritingView::Flush)
            }
            &&& before@.phase == SendPhaseView::Writing(WritingView::Flush) ==> {
                &&& next.1 == SendAction::Reply(Ok(()))
                &&& next.0@.phase is Replying
            }
        },
{
}

/// Once the sender of a message was told how it went, the next message is awaited, with the same
/// codec and byte order, after a failure as after a success.
pub proof fn lemma_told<C>(before: SendMessages<C>, next: (SendMessages<C>, SendAction))
    requires
        before@.phase is Replying,
        call_ensures(SendMessages::<C>::on_replied, (before,), next),
    ensures
        next.0@.codec == before@.codec,
        next.0@.order == before@.order,
        next.0@.phase is Receiving,
        next.1 is Receive,
{
}

/// The phase of receiving is told as it is.
pub proof fn lemma_phase<C>(reading: ReadMessages<C>, phase: ReadPhase)
    requires
        call_ensures(ReadMessages::<C>::phase, (&reading,), phase),
    ensures
        phase == reading@.phase,
{
}

/// What a server says of itself, in whatever state: clients that come do not change its address or
/// its byte order, and neither does being told to shut down.
pub proof fn lemma_known<Tin, Tout, C: Codec<Tin, Tout>, Q>(
    server: &mut Server<Tin, Tout, C, Q>,
    addr: Addr,
    queue: Q,
    start: (HandleConnection, HandleAction<Tin, C::TErr>),
    stopping: &mut Server<Tin, Tout, C, Q>,
    after: Server<Tin, Tout, C, Q>,
    before_known: (Addr, ByteOrder),
    after_known: (Addr, ByteOrder),
)
    requires
        call_ensures(Server::<Tin, Tout, C, Q>::local_addr, (&*old(server),), before_known.0),
        call_ensures(Server::<Tin, Tout, C, Q>::byte_order, (&*old(server),), before_known.1),
        call_ensures(Server::<Tin, Tout, C, Q>::handle_connection, (server, addr, queue), start),
        *old(stopping) == *final(server),
        call_ensures(Server::<Tin, Tout, C, Q>::shut_down, (stopping,), ()),
        after == *final(stopping),
        call_ensures(Server::<Tin, Tout, C, Q>::local_addr, (&after,), after_known.0),
        call_ensures(Server::<Tin, Tout, C, Q>::byte_order, (&after,), after_known.1),
    ensures
        after_known == before_known,
        after_known == (after@.local_addr, after@.order),
{
}

} // verus!
