//! What the two ends of a connection promise each other.
use std::io::Error;

use vstd::prelude::*;

use crate::addr::Addr;
use crate::byte_order::lemma_image_value;
use crate::client::receive_messages::{ReceiveAction, ReceivePhase};
use crate::codec::Continue;
use crate::read_write::{
    fits, lemma_read_is_frame, lemma_written, messages_in, read_from, wire_len, written, Receiving,
};
use crate::server::laws::{lemma_sent, sent};
use crate::server::read_messages::{ReadAction, ReadPhase};
use crate::server::send_messages::SendMessagesView;
use crate::server::Event;
use crate::sink::offered;
use crate::ByteOrder;

verus! {

/// What a client sends, the server reports: exactly the messages, in order, and then the end of
/// the connection. This takes a codec that gives back what was encoded, ends that agree on the
/// byte order, a client that does not cancel the connection, and a sink that accepts the messages.
pub proof fn lemma_client_to_server<Tin, TErr>(
    peer: Addr,
    order: ByteOrder,
    decoded: spec_fn(Seq<u8>) -> Result<Tin, (TErr, Continue)>,
    messages: Seq<Tin>,
    encoded: Seq<Seq<u8>>,
    end: Error,
    room: nat,
)
    requires
        encoded.len() == messages.len(),
        forall|i: int|
            0 <= i < messages.len() ==> fits(#[trigger] encoded[i]) && encoded[i].len() > 0
                && decoded(encoded[i]) == Ok::<Tin, (TErr, Continue)>(messages[i]),
        messages.len() <= room,
    ensures
        crate::server::laws::deliveries(
            peer,
            order,
            decoded,
            ReadPhase::Reading(Receiving::Header),
            ReadAction::Read(4),
            written(order, encoded),
            end,
            room,
        ) == messages.map_values(
            |message: Tin| (peer, Event::<Tin, TErr>::Data(message)),
        ).push((peer, Event::Error(crate::server::ReceiveError::IoError(end)))),
{
    lemma_written(order, encoded);
    crate::server::laws::lemma_all_received(peer, order, decoded, messages, encoded, end, room);
}

/// What the server sends to a client, the client delivers: exactly the messages, in order, and
/// then the end of the connection. This takes a codec that gives back what was encoded, ends that
/// agree on the byte order, and a sink that accepts the messages.
pub proof fn lemma_server_to_client<Tin, TErr, C>(
    sending: SendMessagesView<C>,
    decoded: spec_fn(Seq<u8>) -> Result<Tin, (TErr, Continue)>,
    messages: Seq<Tin>,
    encoded: Seq<Seq<u8>>,
    end: Error,
    room: nat,
)
    requires
        encoded.len() == messages.len(),
        forall|i: int|
            0 <= i < messages.len() ==> fits(#[trigger] encoded[i]) && decoded(encoded[i])
                == Ok::<Tin, (TErr, Continue)>(messages[i]),
        messages.len() <= room,
    ensures
        crate::client::laws::deliveries(
            sending.order,
            decoded,
            ReceivePhase::Reading(Receiving::Header),
            ReceiveAction::Read(4),
            sent(sending, encoded),
            end,
            room,
        ) == messages.map_values(
            |message: Tin| Ok::<Tin, crate::client::ReceiveError<TErr>>(message),
        ).push(Err(crate::client::ReceiveError::IoError(end))),
{
    lemma_sent(sending, encoded);
    crate::client::laws::lemma_all_received(
        sending.order,
        decoded,
        messages,
        encoded,
        end,
        room,
    );
}

/// How a server reports what a client would deliver.
pub open spec fn event_of<Tin, TErr>(
    peer: Addr,
    item: Result<Tin, crate::client::ReceiveError<TErr>>,
) -> (Addr, Event<Tin, TErr>) {
    let event = match item {
        Ok(message) => Event::Data(message),
        Err(crate::client::ReceiveError::IoError(error)) => Event::Error(
            crate::server::ReceiveError::IoError(error),
        ),
        Err(crate::client::ReceiveError::Codec(error)) => Event::Error(
            crate::server::ReceiveError::Codec(error),
        ),
    };
    (peer, event)
}

/// How many messages come before the first one that cancels the connection.
pub open spec fn before_cancel(messages: Seq<Seq<u8>>) -> nat
    decreases messages.len(),
{
    if messages.len() == 0 || messages.first().len() == 0 {
        0
    } else {
        1 + before_cancel(messages.drop_first())
    }
}

/// The stream ends before a message is complete: either end reports this, and nothing else.
proof fn lemma_both_end<Tin, TErr>(
    peer: Addr,
    order: ByteOrder,
    decoded: spec_fn(Seq<u8>) -> Result<Tin, (TErr, Continue)>,
    stream: Seq<u8>,
    end: Error,
    room: nat,
)
    requires
        read_from(order, Receiving::Header, stream) is None,
    ensures
        crate::client::laws::deliveries(
            order,
            decoded,
            ReceivePhase::Reading(Receiving::Header),
            ReceiveAction::Read(4),
            stream,
            end,
            room,
        ) == seq![
            Err::<Tin, crate::client::ReceiveError<TErr>>(
                crate::client::ReceiveError::IoError(end),
            ),
        ],
        crate::server::laws::deliveries(
            peer,
            order,
            decoded,
            ReadPhase::Reading(Receiving::Header),
            ReadAction::Read(4),
            stream,
            end,
            room,
        ) == seq![
            (peer, Event::<Tin, TErr>::Error(crate::server::ReceiveError::IoError(end))),
        ],
{
    reveal_with_fuel(read_from, 2);
    reveal_with_fuel(crate::client::laws::deliveries, 4);
    reveal_with_fuel(crate::server::laws::deliveries, 4);
}

/// The two ends understand every stream alike. The only difference is that a message without
/// bytes, which both deliver, is the last thing that the server takes from its client.
pub proof fn lemma_ends_agree<Tin, TErr>(
    peer: Addr,
    order: ByteOrder,
    decoded: spec_fn(Seq<u8>) -> Result<Tin, (TErr, Continue)>,
    stream: Seq<u8>,
    end: Error,
    room: nat,
)
    ensures
        crate::server::laws::deliveries(
            peer,
            order,
            decoded,
            ReadPhase::Reading(Receiving::Header),
            ReadAction::Read(4),
            stream,
            end,
            room,
        ) == offered(
            crate::client::laws::deliveries(
                order,
                decoded,
                ReceivePhase::Reading(Receiving::Header),
                ReceiveAction::Read(4),
                stream,
                end,
                room,
            ).map_values(
                |item: Result<Tin, crate::client::ReceiveError<TErr>>| event_of(peer, item),
            ),
            before_cancel(messages_in(order, stream)),
        ),
    decreases stream.len(),
{
    let to_event = |item: Result<Tin, crate::client::ReceiveError<TErr>>| event_of(peer, item);
    let read = ReadPhase::Reading(Receiving::Header);
    let receive = ReceivePhase::Reading(Receiving::Header);
    let at_server = crate::server::laws::deliveries(
        peer,
        order,
        decoded,
        read,
        ReadAction::Read(4),
        stream,
        end,
        room,
    );
    let at_client = crate::client::laws::deliveries(
        order,
        decoded,
        receive,
        ReceiveAction::Read(4),
        stream,
        end,
        room,
    );
    let before = before_cancel(messages_in(order, stream));
    match read_from(order, Receiving::Header, stream) {
        None => {
            lemma_both_end(peer, order, decoded, stream, end, room);
            assert(at_server =~= offered(at_client.map_values(to_event), before));
        },
        Some((message, rest)) => {
            lemma_read_is_frame(order, stream);
            crate::client::laws::lemma_one_delivery(order, decoded, message, rest, end, room);
            crate::server::laws::lemma_one_delivery(
                peer,
                order,
                decoded,
                message,
                rest,
                end,
                room,
            );
            let (phase, action) = crate::client::receive_messages::after_decode(decoded(message));
            let first = crate::client::laws::delivered(action);
            let goes_on = room > 0 && phase.online();
            lemma_image_value(order, wire_len(message), Seq::empty());
            assert(rest.len() < stream.len());
            assert(messages_in(order, stream).drop_first() =~= messages_in(order, rest));
            reveal_with_fuel(crate::client::laws::deliveries, 3);
            reveal_with_fuel(crate::server::laws::deliveries, 3);
            if goes_on {
                let left = (room - 1) as nat;
                lemma_ends_agree(peer, order, decoded, rest, end, left);
                let later = crate::client::laws::deliveries(
                    order,
                    decoded,
                    receive,
                    ReceiveAction::Read(4),
                    rest,
                    end,
                    left,
                );
                assert(at_client =~= first + later);
                assert(at_client.map_values(to_event) =~= first.map_values(to_event)
                    + later.map_values(to_event));
            } else {
                assert(at_client =~= first);
            }
            assert(at_server =~= offered(at_client.map_values(to_event), before));
        },
    }
}

} // verus!
