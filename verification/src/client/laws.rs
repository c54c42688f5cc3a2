//! What a client promises.
use std::io::Error;

use vstd::prelude::*;

use crate::byte_order::{lemma_image_value, ByteOrder};
use crate::client::receive_messages::{
    after_decode, after_delivery, after_failure, ReceiveAction, ReceiveMessagesView, ReceivePhase,
};
use crate::client::{after_written, ClientView, ReceiveError, SendError};
use crate::codec::{decodes_as, Codec, Continue};
use crate::read_write::{
    fits, frame, frames, lemma_frame_parts, lemma_truncated_parts, lemma_write_run, write_run,
    write_start, Progress, Receiving,
};
use crate::sink::offered;

verus! {

/// What comes after reading bytes with this outcome, for a codec that decodes as `decoded` does.
pub open spec fn after_read<Tin, TErr>(
    order: ByteOrder,
    decoded: spec_fn(Seq<u8>) -> Result<Tin, (TErr, Continue)>,
    receiving: Receiving,
    outcome: Result<Seq<u8>, Error>,
) -> (ReceivePhase, ReceiveAction<Tin, TErr>) {
    match outcome {
        Err(error) => after_failure(error),
        Ok(bytes) => match receiving.progress(order, bytes) {
            Progress::More(receiving) => (
                ReceivePhase::Reading(receiving),
                ReceiveAction::Read(receiving.wanted()),
            ),
            Progress::Message(message) => after_decode(decoded(message)),
        },
    }
}

/// What an action hands to the sink.
pub open spec fn delivered<Tin, TErr>(action: ReceiveAction<Tin, TErr>) -> Seq<
    Result<Tin, ReceiveError<TErr>>,
> {
    match action {
        ReceiveAction::Deliver(item) => seq![item],
        _ => Seq::empty(),
    }
}

/// All that is handed to the sink from this phase on, if `stream` is all that arrives, reading
/// beyond its end fails with `end`, and the sink accepts `room` more items. In each phase `action`
/// is done: as many bytes are taken from the stream as it asks for, and the sink gets what it
/// hands over. An action that does not go with its phase leads nowhere.
pub open spec fn deliveries<Tin, TErr>(
    order: ByteOrder,
    decoded: spec_fn(Seq<u8>) -> Result<Tin, (TErr, Continue)>,
    phase: ReceivePhase,
    action: ReceiveAction<Tin, TErr>,
    stream: Seq<u8>,
    end: Error,
    room: nat,
) -> Seq<Result<Tin, ReceiveError<TErr>>>
    decreases
            stream.len(),
            (match phase {
                ReceivePhase::Reading(Receiving::Body(_)) => 4int,
                ReceivePhase::Delivering { last: false } => 3int,
                ReceivePhase::Reading(Receiving::Header) => 2int,
                ReceivePhase::Delivering { last: true } => 1int,
                _ => 0int,
            }),
{
    match (phase, action) {
        (ReceivePhase::Reading(receiving), ReceiveAction::Read(len)) => {
            if len != receiving.wanted() {
                Seq::empty()
            } else if stream.len() < len {
                let (next, then) = after_read(order, decoded, receiving, Err(end));
                deliveries(order, decoded, next, then, stream, end, room)
            } else {
                let bytes = stream.take(len as int);
                let (next, then) = after_read(order, decoded, receiving, Ok(bytes));
                deliveries(order, decoded, next, then, stream.skip(len as int), end, room)
            }
        },
        (ReceivePhase::Delivering { last }, ReceiveAction::Deliver(item)) => {
            let (next, then) = after_delivery::<Tin, TErr>(last, room > 0);
            let left = if room > 0 {
                (room - 1) as nat
            } else {
                0
            };
            seq![item] + deliveries(order, decoded, next, then, stream, end, left)
        },
        _ => Seq::empty(),
    }
}

/// What should come of messages with these bytes: each is decoded and delivered in turn, until
/// the codec ends it, and if it does not, the end of the stream is reported.
pub open spec fn expected<Tin, TErr>(
    decoded: spec_fn(Seq<u8>) -> Result<Tin, (TErr, Continue)>,
    messages: Seq<Seq<u8>>,
    end: Error,
) -> Seq<Result<Tin, ReceiveError<TErr>>>
    decreases messages.len(),
{
    if messages.len() == 0 {
        seq![Err(ReceiveError::IoError(end))]
    } else {
        match decoded(messages.first()) {
            Ok(message) => seq![Ok(message)] + expected(decoded, messages.drop_first(), end),
            Err((error, Continue(true))) => seq![Err(ReceiveError::Codec(error))] + expected(
                decoded,
                messages.drop_first(),
                end,
            ),
            Err((error, Continue(false))) => seq![Err(ReceiveError::Codec(error))],
        }
    }
}

/// The steps of [`ReceiveMessages`] are those that [`after_read`] describes, whatever function
/// the codec computes.
pub proof fn lemma_read_outcome<Tin, Tout, C: Codec<Tin, Tout>>(
    before: ReceiveMessagesView<C>,
    decoded: spec_fn(Seq<u8>) -> Result<Tin, (C::TErr, Continue)>,
    receiving: Receiving,
    outcome: Result<Vec<u8>, Error>,
    after: ReceiveMessagesView<C>,
    action: ReceiveAction<Tin, C::TErr>,
)
    requires
        decodes_as::<Tin, Tout, C>(before.codec, decoded),
        before.read_outcome::<Tin, Tout>(receiving, outcome, after, action),
    ensures
        ({
            let bytes = match outcome {
                Ok(bytes) => Ok(bytes@),
                Err(error) => Err(error),
            };
            let (phase, expected) = after_read(before.order, decoded, receiving, bytes);
            after == before.with_phase(phase) && action == expected
        }),
{
}

/// One message is received: what comes of it is done, with the rest of the stream still to come.
pub(crate) proof fn lemma_one_delivery<Tin, TErr>(
    order: ByteOrder,
    decoded: spec_fn(Seq<u8>) -> Result<Tin, (TErr, Continue)>,
    message: Seq<u8>,
    rest: Seq<u8>,
    end: Error,
    room: nat,
)
    requires
        fits(message),
    ensures
        ({
            let start = ReceivePhase::Reading(Receiving::Header);
            let stream = frame(order, message) + rest;
            let (next, action) = after_decode(decoded(message));
            deliveries(order, decoded, start, ReceiveAction::Read(4), stream, end, room)
                == deliveries(order, decoded, next, action, rest, end, room)
        }),
{
    let start = ReceivePhase::Reading(Receiving::Header);
    let stream = frame(order, message) + rest;
    lemma_frame_parts(order, message, rest);
    if message.len() == 0 {
        assert(message + rest =~= rest);
    } else {
        let body = ReceivePhase::Reading(Receiving::Body(message.len() as u32));
        let read = ReceiveAction::<Tin, TErr>::Read(message.len() as usize);
        let left = stream.skip(Receiving::Header.wanted() as int);
        assert(deliveries(order, decoded, start, ReceiveAction::Read(4), stream, end, room)
            == deliveries(order, decoded, body, read, left, end, room));
    }
}

/// The stream ends before a message is complete: this is reported, and nothing else.
proof fn lemma_last_delivery<Tin, TErr>(
    order: ByteOrder,
    decoded: spec_fn(Seq<u8>) -> Result<Tin, (TErr, Continue)>,
    last: Seq<u8>,
    kept: int,
    end: Error,
    room: nat,
)
    requires
        fits(last),
        0 <= kept < frame(order, last).len(),
    ensures
        deliveries(
            order,
            decoded,
            ReceivePhase::Reading(Receiving::Header),
            ReceiveAction::Read(4),
            frame(order, last).take(kept),
            end,
            room,
        ) == seq![Err::<Tin, ReceiveError<TErr>>(ReceiveError::IoError(end))],
{
    reveal_with_fuel(deliveries, 4);
    lemma_truncated_parts(order, last, kept);
    assert(deliveries(
        order,
        decoded,
        ReceivePhase::Reading(Receiving::Header),
        ReceiveAction::Read(4),
        frame(order, last).take(kept),
        end,
        room,
    ) =~= seq![Err::<Tin, ReceiveError<TErr>>(ReceiveError::IoError(end))]);
}

/// Every message that the server sends arrives at the sink, in the order in which it was sent,
/// and then the end of the connection is reported. A message that the codec rejects is reported
/// in its place; if the codec says so, nothing follows it. A last message of which only a part
/// arrived is not delivered. Once the sink refuses an item, it is offered no more.
pub proof fn lemma_deliveries<Tin, TErr>(
    order: ByteOrder,
    decoded: spec_fn(Seq<u8>) -> Result<Tin, (TErr, Continue)>,
    messages: Seq<Seq<u8>>,
    last: Seq<u8>,
    kept: int,
    end: Error,
    room: nat,
)
    requires
        forall|i: int| 0 <= i < messages.len() ==> fits(#[trigger] messages[i]),
        fits(last),
        0 <= kept < frame(order, last).len(),
    ensures
        deliveries(
            order,
            decoded,
            ReceivePhase::Reading(Receiving::Header),
            ReceiveAction::Read(4),
            frames(order, messages) + frame(order, last).take(kept),
            end,
            room,
        ) == offered(expected(decoded, messages, end), room),
    decreases messages.len(),
{
    let start = ReceivePhase::Reading(Receiving::Header);
    let read = ReceiveAction::<Tin, TErr>::Read(4);
    let tail = frame(order, last).take(kept);
    let stream = frames(order, messages) + tail;
    let all = expected(decoded, messages, end);
    if messages.len() == 0 {
        lemma_last_delivery(order, decoded, last, kept, end, room);
        assert(stream =~= tail);
        assert(offered(all, room) =~= all);
    } else {
        let first = messages.first();
        let others = messages.drop_first();
        let rest = frames(order, others) + tail;
        let (next, action) = after_decode(decoded(first));
        assert(stream =~= frame(order, first) + rest);
        assert(fits(messages[0]));
        assert forall|i: int| 0 <= i < others.len() implies fits(#[trigger] others[i]) by {
            assert(fits(messages[i + 1]));
        }
        lemma_one_delivery(order, decoded, first, rest, end, room);
        reveal_with_fuel(deliveries, 2);
        if room > 0 && next.online() {
            let left = (room - 1) as nat;
            lemma_deliveries(order, decoded, others, last, kept, end, left);
            let later = expected(decoded, others, end);
            assert(all =~= delivered(action) + later);
            assert(offered(all, room) =~= delivered(action) + offered(later, left));
            assert(deliveries(order, decoded, start, read, stream, end, room) =~= delivered(action)
                + deliveries(order, decoded, start, read, rest, end, left));
        } else {
            assert(offered(all, room) =~= delivered(action));
            assert(deliveries(order, decoded, start, read, stream, end, room) =~= delivered(
                action,
            ));
        }
    }
}

/// If the codec can decode what the server sends and the sink accepts it, the sink gets exactly the
/// messages that were sent, followed by the end of the connection.
pub proof fn lemma_all_received<Tin, TErr>(
    order: ByteOrder,
    decoded: spec_fn(Seq<u8>) -> Result<Tin, (TErr, Continue)>,
    messages: Seq<Tin>,
    encoded: Seq<Seq<u8>>,
    end: Error,
    room: nat,
)
    requires
        encoded.len() == messages.len(),
        forall|i: int|
            0 <= i < messages.len() ==> fits(#[trigger] encoded[i]) && decoded(encoded[i])
                == Ok::<Tin, (TErr, Continue)>(messages[i]),
        messages.len() <= room,
    ensures
        deliveries(
            order,
            decoded,
            ReceivePhase::Reading(Receiving::Header),
            ReceiveAction::Read(4),
            frames(order, encoded),
            end,
            room,
        ) == messages.map_values(|message: Tin| Ok::<Tin, ReceiveError<TErr>>(message)).push(
            Err(ReceiveError::IoError(end)),
        ),
{
    let nothing = Seq::<u8>::empty();
    lemma_image_value(order, 0, nothing);
    lemma_deliveries(order, decoded, encoded, nothing, 0, end, room);
    assert(frames(order, encoded) + frame(order, nothing).take(0) =~= frames(order, encoded));
    lemma_expected(decoded, messages, encoded, end);
    let all = expected(decoded, encoded, end);
    assert(offered(all, room) =~= all);
}

/// Receiving is decided to end exactly if reading fails, the codec says so or the sink accepts no
/// more, or if it was decided before.
pub proof fn lemma_receiving_ends<Tin, TErr>(
    order: ByteOrder,
    decoded: spec_fn(Seq<u8>) -> Result<Tin, (TErr, Continue)>,
    receiving: Receiving,
    outcome: Result<Seq<u8>, Error>,
    last: bool,
    accepted: bool,
)
    ensures
        after_read(order, decoded, receiving, outcome).0.online() <==> {
            &&& outcome matches Ok(bytes)
            &&& receiving.progress(order, bytes) matches Progress::Message(message)
                ==> !(decoded(message) matches Err((_, Continue(false))))
        },
        after_delivery::<Tin, TErr>(last, accepted).0.online() <==> accepted && (
        ReceivePhase::Delivering { last }).online(),
{
}

/// The result of sending a message with these bytes, if the operations of writing its frame turn
/// out as `outcomes` says.
pub open spec fn send_result<C>(
    client: ClientView<C>,
    buffer: Seq<u8>,
    outcomes: Seq<Result<(), Error>>,
) -> Option<Result<(), SendError>> {
    if client.online {
        let (writing, step) = write_start(client.order, buffer);
        match write_run(writing, step, outcomes).1 {
            Some(written) => Some(after_written(written)),
            None => None,
        }
    } else {
        Some(Err(SendError::Offline))
    }
}

/// Sending succeeds exactly if the client is online and the message was handed to the socket
/// completely. A client that is offline refuses, and otherwise the first failure is the result.
pub proof fn lemma_send_result<C>(
    client: ClientView<C>,
    buffer: Seq<u8>,
    outcomes: Seq<Result<(), Error>>,
)
    requires
        outcomes.len() == 3,
    ensures
        send_result(client, buffer, outcomes) matches Some(result) && {
            &&& result is Ok <==> client.online && outcomes[0] is Ok && outcomes[1] is Ok
                && outcomes[2] is Ok
            &&& result == Err::<(), SendError>(SendError::Offline) <==> !client.online
            &&& forall|i: int|
                0 <= i < 3 && client.online && (forall|j: int|
                    0 <= j < i ==> #[trigger] outcomes[j] is Ok) ==> (
                #[trigger] outcomes[i] matches Err(error) ==> result == Err::<(), SendError>(
                    SendError::IoError(error),
                ))
        },
{
    lemma_write_run(client.order, buffer, outcomes);
}

/// A client that has gone offline stays offline, and it is offline already when the sink learns
/// of an I/O error.
pub proof fn lemma_offline<Tin, TErr, C>(
    client: ClientView<C>,
    phase: ReceivePhase,
    order: ByteOrder,
    decoded: spec_fn(Seq<u8>) -> Result<Tin, (TErr, Continue)>,
    receiving: Receiving,
    outcome: Result<Seq<u8>, Error>,
)
    ensures
        !client.online ==> !client.observed(phase).online,
        !phase.online() ==> !client.observed(phase).online,
        client.online && phase.online() ==> client.observed(phase) == client,
        after_read(order, decoded, receiving, outcome).1 matches ReceiveAction::Deliver(
            Err(ReceiveError::IoError(_)),
        ) ==> !client.observed(after_read(order, decoded, receiving, outcome).0).online,
{
}

proof fn lemma_expected<Tin, TErr>(
    decoded: spec_fn(Seq<u8>) -> Result<Tin, (TErr, Continue)>,
    messages: Seq<Tin>,
    encoded: Seq<Seq<u8>>,
    end: Error,
)
    requires
        encoded.len() == messages.len(),
        forall|i: int|
            0 <= i < messages.len() ==> decoded(#[trigger] encoded[i]) == Ok::<
                Tin,
                (TErr, Continue),
            >(messages[i]),
    ensures
        expected(decoded, encoded, end) == messages.map_values(
            |message: Tin| Ok::<Tin, ReceiveError<TErr>>(message),
        ).push(Err(ReceiveError::IoError(end))),
    decreases messages.len(),
{
    let as_item = |message: Tin| Ok::<Tin, ReceiveError<TErr>>(message);
    if messages.len() > 0 {
        let others = messages.drop_first();
        let encoded_others = encoded.drop_first();
        assert forall|i: int| 0 <= i < others.len() implies decoded(#[trigger] encoded_others[i])
            == Ok::<Tin, (TErr, Continue)>(others[i]) by {
            assert(decoded(encoded[i + 1]) == Ok::<Tin, (TErr, Continue)>(messages[i + 1]));
        }
        lemma_expected(decoded, others, encoded_others, end);
        assert(decoded(encoded[0]) == Ok::<Tin, (TErr, Continue)>(messages[0]));
        assert(messages.map_values(as_item) =~= seq![as_item(messages[0])] + others.map_values(
            as_item,
        ));
    }
    assert(expected(decoded, encoded, end) =~= messages.map_values(as_item).push(
        Err(ReceiveError::IoError(end)),
    ));
}

} // verus!
