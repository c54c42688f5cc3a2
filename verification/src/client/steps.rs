//! What the calls of a client do, one by one and in a row.
use std::io::Error;

use vstd::prelude::*;

use crate::addr::Addr;
use crate::byte_order::{lemma_image_value, ByteOrder};
use crate::client::receive_messages::{
    shutdown_harmless, ReceiveAction, ReceiveMessages, ReceivePhase,
};
use crate::client::{Client, ReceiveError, SendError};
use crate::codec::{Codec, Continue};
use crate::error::ErrorKind;
use crate::read_write::{frame, wire_len, Receiving, WriteStep, Writing};

verus! {

/// A client comes about exactly if the connection does. It is online, knows the addresses of the
/// two ends and uses the byte order that it was given.
pub proof fn lemma_connected<Tin, Tout, C: Codec<Tin, Tout>>(
    connected: Result<(Addr, Addr), Error>,
    codec: C,
    order: ByteOrder,
    result: Result<Client<Tin, Tout, C>, Error>,
    local_addr: Addr,
    peer_addr: Addr,
    online: bool,
    used: ByteOrder,
)
    requires
        call_ensures(Client::<Tin, Tout, C>::connect_with, (connected, codec, order), result),
        result matches Ok(client) ==> {
            &&& call_ensures(Client::<Tin, Tout, C>::local_addr, (&client,), local_addr)
            &&& call_ensures(Client::<Tin, Tout, C>::peer_addr, (&client,), peer_addr)
            &&& call_ensures(Client::<Tin, Tout, C>::online, (&client,), online)
            &&& call_ensures(Client::<Tin, Tout, C>::byte_order, (&client,), used)
        },
    ensures
        connected matches Err(error) ==> result == Err::<Client<Tin, Tout, C>, Error>(error),
        connected matches Ok(addrs) ==> {
            &&& result matches Ok(client)
            &&& client@.codec == codec
            &&& addrs == (local_addr, peer_addr)
            &&& online
            &&& used == order
        },
{
}

/// A client that is not told its byte order differs from one that is in nothing but that it uses
/// the byte order of the machine.
pub proof fn lemma_connected_natively<Tin, Tout, C: Codec<Tin, Tout>>(
    connected: Result<(Addr, Addr), Error>,
    codec: C,
    order: ByteOrder,
    result: Result<Client<Tin, Tout, C>, Error>,
    told: Result<Client<Tin, Tout, C>, Error>,
)
    requires
        call_ensures(Client::<Tin, Tout, C>::connect, (connected, codec), result),
        result matches Ok(client) ==> client@.order == order,
        call_ensures(Client::<Tin, Tout, C>::connect_with, (connected, codec, order), told),
    ensures
        result is Ok <==> told is Ok,
        result is Err ==> result == told,
        result matches Ok(client) ==> client@ == told->Ok_0@ && order.is_native(),
{
}

/// Receiving starts with four bytes, with a clone of the codec and the byte order of the client.
pub proof fn lemma_receiving_starts<Tin, Tout, C: Codec<Tin, Tout>>(
    client: Client<Tin, Tout, C>,
    start: (ReceiveMessages<C>, ReceiveAction<Tin, C::TErr>),
    phase: ReceivePhase,
)
    requires
        call_ensures(Client::<Tin, Tout, C>::receive_messages, (&client,), start),
        call_ensures(ReceiveMessages::<C>::phase, (&start.0,), phase),
    ensures
        start.1 == ReceiveAction::<Tin, C::TErr>::Read(4),
        phase == ReceivePhase::Reading(Receiving::Header),
        start.0@.phase == phase,
        start.0@.order == client@.order,
        cloned(client@.codec, start.0@.codec),
{
}

/// A length other than zero makes the client read as many bytes as it says, and the state keeps
/// its codec and byte order.
pub proof fn lemma_length_read<Tin, Tout, C: Codec<Tin, Tout>>(
    before: ReceiveMessages<C>,
    header: Vec<u8>,
    next: (ReceiveMessages<C>, ReceiveAction<Tin, C::TErr>),
)
    requires
        before@.phase == ReceivePhase::Reading(Receiving::Header),
        header@.len() == 4,
        before@.order.value(header@) > 0,
        call_ensures(
            ReceiveMessages::<C>::on_read::<Tin, Tout>,
            (before, Ok::<Vec<u8>, Error>(header)),
            next,
        ),
    ensures
        next.1 == ReceiveAction::<Tin, C::TErr>::Read(before@.order.value(header@) as usize),
        next.0@.phase == ReceivePhase::Reading(Receiving::Body(before@.order.value(header@))),
        next.0@.codec == before@.codec,
        next.0@.order == before@.order,
{
}

/// Once a message is complete, exactly its bytes are decoded, and the sink is handed what the
/// codec makes of them. It is the last thing exactly if the codec says so.
pub proof fn lemma_message_decoded<Tin, Tout, C: Codec<Tin, Tout>>(
    before: ReceiveMessages<C>,
    bytes: Vec<u8>,
    message: Seq<u8>,
    next: (ReceiveMessages<C>, ReceiveAction<Tin, C::TErr>),
)
    requires
        ({
            ||| before@.phase is Reading && before@.phase->Reading_0 is Body && message == bytes@
            ||| before@.phase == ReceivePhase::Reading(Receiving::Header) && bytes@.len() == 4
                && before@.order.value(bytes@) == 0 && message == Seq::<u8>::empty()
        }),
        call_ensures(
            ReceiveMessages::<C>::on_read::<Tin, Tout>,
            (before, Ok::<Vec<u8>, Error>(bytes)),
            next,
        ),
    ensures
        next.0@.codec == before@.codec,
        next.0@.order == before@.order,
        exists|buffer: Vec<u8>, decoded: Result<Tin, (C::TErr, Continue)>|
            {
                &&& #[trigger] call_ensures(C::decode, (&before@.codec, buffer), decoded)
                &&& buffer@ == message
                &&& next.0@.phase == (ReceivePhase::Delivering {
                    last: decoded matches Err((_, Continue(false))),
                })
                &&& decoded matches Ok(item) ==> next.1 == ReceiveAction::<Tin, C::TErr>::Deliver(
                    Ok(item),
                )
                &&& decoded matches Err((error, _)) ==> next.1 == ReceiveAction::<
                    Tin,
                    C::TErr,
                >::Deliver(Err(ReceiveError::Codec(error)))
            },
{
    let (buffer, decoded) = choose|buffer: Vec<u8>, decoded: Result<Tin, (C::TErr, Continue)>|
        {
            &&& buffer@ == message
            &&& #[trigger] call_ensures(C::decode, (&before@.codec, buffer), decoded)
            &&& next.0@ == before@.with_phase(
                crate::client::receive_messages::after_decode(decoded).0,
            )
            &&& next.1 == crate::client::receive_messages::after_decode(decoded).1
        };
    assert(call_ensures(C::decode, (&before@.codec, buffer), decoded));
}

/// Whatever the codec has made of a message, the sink is handed it, and it is the last thing
/// exactly if the codec says so.
pub proof fn lemma_decoded<Tin, Tout, C: Codec<Tin, Tout>>(
    before: ReceiveMessages<C>,
    decoded: Result<Tin, (C::TErr, Continue)>,
    next: (ReceiveMessages<C>, ReceiveAction<Tin, C::TErr>),
)
    requires
        call_ensures(ReceiveMessages::<C>::on_decoded::<Tin, Tout>, (before, decoded), next),
    ensures
        next.0@.codec == before@.codec,
        next.0@.order == before@.order,
        next.0@.phase == (ReceivePhase::Delivering {
            last: decoded matches Err((_, Continue(false))),
        }),
        decoded matches Ok(item) ==> next.1 == ReceiveAction::<Tin, C::TErr>::Deliver(Ok(item)),
        decoded matches Err((error, _)) ==> next.1 == ReceiveAction::<Tin, C::TErr>::Deliver(
            Err(ReceiveError::Codec(error)),
        ),
{
}

/// A failure to read, at whatever point, is handed to the sink as the last thing.
pub proof fn lemma_read_failed<Tin, Tout, C: Codec<Tin, Tout>>(
    before: ReceiveMessages<C>,
    error: Error,
    next: (ReceiveMessages<C>, ReceiveAction<Tin, C::TErr>),
)
    requires
        call_ensures(
            ReceiveMessages::<C>::on_read::<Tin, Tout>,
            (before, Err::<Vec<u8>, Error>(error)),
            next,
        ),
    ensures
        next.1 == ReceiveAction::<Tin, C::TErr>::Deliver(Err(ReceiveError::IoError(error))),
        next.0@.phase == (ReceivePhase::Delivering { last: true }),
        next.0@.codec == before@.codec,
        next.0@.order == before@.order,
{
}

/// After a delivery that the sink has accepted and that was not the last one, four bytes are read
/// for the next message. After any other the socket is shut down.
pub proof fn lemma_delivered<Tin, Tout, C: Codec<Tin, Tout>>(
    before: ReceiveMessages<C>,
    last: bool,
    accepted: bool,
    next: (ReceiveMessages<C>, ReceiveAction<Tin, C::TErr>),
)
    requires
        before@.phase == (ReceivePhase::Delivering { last }),
        call_ensures(ReceiveMessages::<C>::on_delivered::<Tin, Tout>, (before, accepted), next),
    ensures
        next.0@.codec == before@.codec,
        next.0@.order == before@.order,
        accepted && !last ==> {
            &&& next.1 == ReceiveAction::<Tin, C::TErr>::Read(4)
            &&& next.0@.phase == ReceivePhase::Reading(Receiving::Header)
        },
        !accepted || last ==> {
            &&& next.1 is Shutdown
            &&& next.0@.phase is ShuttingDown
        },
{
}

/// Receiving is over once the socket was shut down. It is a reason to panic if that failed, unless
/// the socket was not connected any more; dropping a client judges the same way.
pub proof fn lemma_shut_down<Tin, Tout, C: Codec<Tin, Tout>>(
    before: ReceiveMessages<C>,
    outcome: Result<(), ErrorKind>,
    next: (ReceiveMessages<C>, ReceiveAction<Tin, C::TErr>),
    is_harmless: bool,
)
    requires
        call_ensures(ReceiveMessages::<C>::on_shutdown::<Tin, Tout>, (before, outcome), next),
        call_ensures(shutdown_harmless, (outcome,), is_harmless),
    ensures
        next.0@.phase is Finished,
        next.0@.codec == before@.codec,
        next.0@.order == before@.order,
        next.1 is Finish || next.1 is Panic,
        next.1 is Finish <==> is_harmless,
        outcome is Ok ==> is_harmless,
        outcome matches Err(kind) ==> (is_harmless <==> kind is NotConnected),
{
}

/// One message after the other: when the bytes that carry a message have been read and what the
/// codec makes of them is accepted, the client stands where it stood before them, unless the codec
/// ends the connection. On the way it reads the length and then exactly the message.
pub proof fn lemma_message_after_message<Tin, Tout, C: Codec<Tin, Tout>>(
    before: ReceiveMessages<C>,
    header: Vec<u8>,
    first: (ReceiveMessages<C>, ReceiveAction<Tin, C::TErr>),
    message: Vec<u8>,
    second: (ReceiveMessages<C>, ReceiveAction<Tin, C::TErr>),
    third: (ReceiveMessages<C>, ReceiveAction<Tin, C::TErr>),
)
    requires
        before@.phase == ReceivePhase::Reading(Receiving::Header),
        0 < message@.len() < 0x1_0000_0000,
        header@ + message@ == frame(before@.order, message@),
        call_ensures(
            ReceiveMessages::<C>::on_read::<Tin, Tout>,
            (before, Ok::<Vec<u8>, Error>(header)),
            first,
        ),
        call_ensures(
            ReceiveMessages::<C>::on_read::<Tin, Tout>,
            (first.0, Ok::<Vec<u8>, Error>(message)),
            second,
        ),
        call_ensures(ReceiveMessages::<C>::on_delivered::<Tin, Tout>, (second.0, true), third),
    ensures
        first.1 == ReceiveAction::<Tin, C::TErr>::Read(message@.len() as usize),
        exists|buffer: Vec<u8>, decoded: Result<Tin, (C::TErr, Continue)>|
            {
                &&& #[trigger] call_ensures(C::decode, (&before@.codec, buffer), decoded)
                &&& buffer@ == message@
                &&& decoded matches Ok(item) ==> second.1 == ReceiveAction::<
                    Tin,
                    C::TErr,
                >::Deliver(Ok(item))
                &&& decoded matches Err((error, _)) ==> second.1 == ReceiveAction::<
                    Tin,
                    C::TErr,
                >::Deliver(Err(ReceiveError::Codec(error)))
                &&& (decoded matches Err((_, Continue(false)))) ==> third.1 is Shutdown
                &&& !(decoded matches Err((_, Continue(false)))) ==> third.0@ == before@
                    && third.1 == ReceiveAction::<Tin, C::TErr>::Read(4)
            },
{
    let len = wire_len(message@);
    lemma_image_value(before@.order, len, Seq::empty());
    assert(header@ =~= before@.order.image(len)) by {
        let whole = frame(before@.order, message@);
        assert((header@ + message@).len() == header@.len() + message@.len());
        assert(whole.take(4) =~= header@);
        assert(whole.take(4) =~= before@.order.image(len));
    }
    lemma_length_read::<Tin, Tout, C>(before, header, first);
    lemma_message_decoded::<Tin, Tout, C>(first.0, message, message@, second);
    let (buffer, decoded) = choose|buffer: Vec<u8>, decoded: Result<Tin, (C::TErr, Continue)>|
        {
            &&& #[trigger] call_ensures(C::decode, (&first.0@.codec, buffer), decoded)
            &&& buffer@ == message@
            &&& second.0@.phase == (ReceivePhase::Delivering {
                last: decoded matches Err((_, Continue(false))),
            })
            &&& decoded matches Ok(item) ==> second.1 == ReceiveAction::<Tin, C::TErr>::Deliver(
                Ok(item),
            )
            &&& decoded matches Err((error, _)) ==> second.1 == ReceiveAction::<
                Tin,
                C::TErr,
            >::Deliver(Err(ReceiveError::Codec(error)))
        };
    assert(call_ensures(C::decode, (&before@.codec, buffer), decoded));
    lemma_delivered::<Tin, Tout, C>(
        second.0,
        decoded matches Err((_, Continue(false))),
        true,
        third,
    );
}

/// A client is online as long as it was never seen to have ended receiving: receiving goes on
/// while bytes are read and while anything but the last thing is delivered. Nothing else changes.
pub proof fn lemma_observed<Tin, Tout, C: Codec<Tin, Tout>>(
    client: &mut Client<Tin, Tout, C>,
    phase: ReceivePhase,
    after: Client<Tin, Tout, C>,
    before_online: bool,
    after_online: bool,
)
    requires
        call_ensures(Client::<Tin, Tout, C>::online, (&*old(client),), before_online),
        call_ensures(Client::<Tin, Tout, C>::observe, (client, phase), ()),
        after == *final(client),
        call_ensures(Client::<Tin, Tout, C>::online, (&after,), after_online),
    ensures
        phase is Reading ==> after_online == before_online,
        phase == (ReceivePhase::Delivering { last: false }) ==> after_online == before_online,
        phase == (ReceivePhase::Delivering { last: true }) ==> !after_online,
        phase is ShuttingDown || phase is Finished ==> !after_online,
        after@.local_addr == old(client)@.local_addr,
        after@.peer_addr == old(client)@.peer_addr,
        after@.codec == old(client)@.codec,
        after@.order == old(client)@.order,
{
}

/// A client that is offline refuses to send. One that is online has the codec encode the message
/// and writes four bytes that spell the length of what came out; then follow the bytes themselves
/// and a flush, and the message is sent.
pub proof fn lemma_send<Tin, Tout, C: Codec<Tin, Tout>>(
    client: Client<Tin, Tout, C>,
    online: bool,
    message: Tout,
    result: Result<(Writing, WriteStep), SendError>,
    second: (Writing, WriteStep),
    third: (Writing, WriteStep),
    last: (Writing, WriteStep),
)
    requires
        call_ensures(Client::<Tin, Tout, C>::online, (&client,), online),
        call_ensures(Client::<Tin, Tout, C>::send, (&client, message), result),
        result matches Ok(start) ==> call_ensures(
            Writing::on_written,
            (start.0, Ok::<(), Error>(())),
            second,
        ),
        call_ensures(Writing::on_written, (second.0, Ok::<(), Error>(())), third),
        call_ensures(Writing::on_written, (third.0, Ok::<(), Error>(())), last),
    ensures
        !online ==> result == Err::<(Writing, WriteStep), SendError>(SendError::Offline),
        online ==> exists|buffer: Vec<u8>|
            {
                &&& #[trigger] call_ensures(C::encode, (&client@.codec, message), buffer)
                &&& result matches Ok((_, WriteStep::WriteAll(header)))
                &&& header@.len() == 4
                &&& client@.order.value(header@) == buffer@.len() % 0x1_0000_0000
                &&& second.1 matches WriteStep::WriteAll(body)
                &&& body@ == buffer@
                &&& header@ + body@ == frame(client@.order, buffer@)
                &&& third.1 is Flush
                &&& last.1 == WriteStep::Done(Ok(()))
            },
{
    if online {
        let start = result->Ok_0;
        let buffer = choose|buffer: Vec<u8>|
            {
                &&& #[trigger] call_ensures(C::encode, (&client@.codec, message), buffer)
                &&& start.0 == Writing::Header(buffer)
                &&& (start.0@, start.1@) == crate::read_write::write_start(
                    client@.order,
                    buffer@,
                )
            };
        assert(call_ensures(C::encode, (&client@.codec, message), buffer));
        lemma_image_value(client@.order, wire_len(buffer@), Seq::empty());
    }
}

/// Sending succeeds exactly if writing did, and fails with the same error otherwise.
pub proof fn lemma_sent<Tin, Tout, C: Codec<Tin, Tout>>(
    written: Result<(), Error>,
    result: Result<(), SendError>,
)
    requires
        call_ensures(Client::<Tin, Tout, C>::sent, (written,), result),
    ensures
        written is Ok <==> result is Ok,
        written matches Err(error) ==> result == Err::<(), SendError>(SendError::IoError(error)),
{
}

/// What a client says of itself, in whatever state: being seen at work changes no address and no
/// byte order.
pub proof fn lemma_known<Tin, Tout, C: Codec<Tin, Tout>>(
    client: &mut Client<Tin, Tout, C>,
    phase: ReceivePhase,
    after: Client<Tin, Tout, C>,
    before_known: (Addr, Addr, ByteOrder),
    after_known: (Addr, Addr, ByteOrder),
)
    requires
        call_ensures(Client::<Tin, Tout, C>::local_addr, (&*old(client),), before_known.0),
        call_ensures(Client::<Tin, Tout, C>::peer_addr, (&*old(client),), before_known.1),
        call_ensures(Client::<Tin, Tout, C>::byte_order, (&*old(client),), before_known.2),
        call_ensures(Client::<Tin, Tout, C>::observe, (client, phase), ()),
        after == *final(client),
        call_ensures(Client::<Tin, Tout, C>::local_addr, (&after,), after_known.0),
        call_ensures(Client::<Tin, Tout, C>::peer_addr, (&after,), after_known.1),
        call_ensures(Client::<Tin, Tout, C>::byte_order, (&after,), after_known.2),
    ensures
        after_known == before_known,
        after_known == (after@.local_addr, after@.peer_addr, after@.order),
{
}

/// The phase is told as it is, and receiving goes on while bytes are read and while anything but
/// the last thing is delivered.
pub proof fn lemma_phase<C>(receiving: ReceiveMessages<C>, phase: ReceivePhase)
    requires
        call_ensures(ReceiveMessages::<C>::phase, (&receiving,), phase),
    ensures
        phase == receiving@.phase,
        phase.online() <==> phase is Reading || phase == (ReceivePhase::Delivering { last: false }),
{
}

} // verus!
