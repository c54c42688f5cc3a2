//! What a server promises.
use std::io::Error;

use vstd::prelude::*;

use crate::addr::Addr;
use crate::byte_order::{lemma_image_value, ByteOrder};
use crate::codec::{decodes_as, encodes_as, Codec, Continue};
use crate::connections::{distinct, has_entry};
use crate::error::ErrorKind;
use crate::read_write::{
    fits, frame, frames, lemma_frame_parts, lemma_truncated_parts, lemma_write_run, lemma_written,
    wire_len, write_run, write_start, written, Progress, Receiving, WriteStepView, WritingView,
};
use crate::server::handle_connection::{HandleAction, HandleConnection, HandlePhase};
use crate::server::read_messages::{
    after_decode, after_delivery, after_failure, cancels, ReadAction, ReadMessagesView, ReadPhase,
};
use crate::server::send_messages::{
    after_step, reply, SendActionView, SendMessagesView, SendPhaseView,
};
use crate::server::{
    after_enqueue, after_reply, AcceptAction, Enqueued, Event, ReceiveError, SendError, ServerView,
};
use crate::sink::offered;

verus! {

// ---------------------------------------------------------------------------------------------
// Receiving

/// What comes after reading bytes with this outcome, for a codec that decodes as `decoded` does.
pub open spec fn after_read<Tin, TErr>(
    peer: Addr,
    order: ByteOrder,
    decoded: spec_fn(Seq<u8>) -> Result<Tin, (TErr, Continue)>,
    receiving: Receiving,
    outcome: Result<Seq<u8>, Error>,
) -> (ReadPhase, ReadAction<Tin, TErr>) {
    match outcome {
        Err(error) => after_failure(peer, error),
        Ok(bytes) => match receiving.progress(order, bytes) {
            Progress::More(receiving) => (
                ReadPhase::Reading(receiving),
                ReadAction::Read(receiving.wanted()),
            ),
            Progress::Message(message) => after_decode(peer, cancels(message), decoded(message)),
        },
    }
}

/// What an action hands to the sink.
pub open spec fn delivered<Tin, TErr>(action: ReadAction<Tin, TErr>) -> Seq<
    (Addr, Event<Tin, TErr>),
> {
    match action {
        ReadAction::Deliver(peer, event) => seq![(peer, event)],
        _ => Seq::empty(),
    }
}

/// All that is handed to the sink from this phase on, if `stream` is all that arrives, reading
/// beyond its end fails with `end`, and the sink accepts `room` more events. In each phase
/// `action` is done: as many bytes are taken from the stream as it asks for, and the sink gets
/// what it hands over. An action that does not go with its phase leads nowhere.
pub open spec fn deliveries<Tin, TErr>(
    peer: Addr,
    order: ByteOrder,
    decoded: spec_fn(Seq<u8>) -> Result<Tin, (TErr, Continue)>,
    phase: ReadPhase,
    action: ReadAction<Tin, TErr>,
    stream: Seq<u8>,
    end: Error,
    room: nat,
) -> Seq<(Addr, Event<Tin, TErr>)>
    decreases
            stream.len(),
            (match phase {
                ReadPhase::Reading(Receiving::Body(_)) => 4int,
                ReadPhase::Delivering { last: false } => 3int,
                ReadPhase::Reading(Receiving::Header) => 2int,
                ReadPhase::Delivering { last: true } => 1int,
                _ => 0int,
            }),
{
    match (phase, action) {
        (ReadPhase::Reading(receiving), ReadAction::Read(len)) => {
            if len != receiving.wanted() {
                Seq::empty()
            } else if stream.len() < len {
                let (next, then) = after_read(peer, order, decoded, receiving, Err(end));
                deliveries(peer, order, decoded, next, then, stream, end, room)
            } else {
                let bytes = stream.take(len as int);
                let left = stream.skip(len as int);
                let (next, then) = after_read(peer, order, decoded, receiving, Ok(bytes));
                deliveries(peer, order, decoded, next, then, left, end, room)
            }
        },
        (ReadPhase::Delivering { last }, ReadAction::Deliver(from, event)) => {
            let (next, then) = after_delivery::<Tin, TErr>(last, room > 0);
            let left = if room > 0 {
                (room - 1) as nat
            } else {
                0
            };
            seq![(from, event)] + deliveries(peer, order, decoded, next, then, stream, end, left)
        },
        _ => Seq::empty(),
    }
}

/// What should come of messages with these bytes: each is decoded and reported in turn, until the
/// codec or a message without bytes ends it, and if nothing does, the end of the stream is
/// reported.
pub open spec fn expected<Tin, TErr>(
    peer: Addr,
    decoded: spec_fn(Seq<u8>) -> Result<Tin, (TErr, Continue)>,
    messages: Seq<Seq<u8>>,
    end: Error,
) -> Seq<(Addr, Event<Tin, TErr>)>
    decreases messages.len(),
{
    if messages.len() == 0 {
        seq![(peer, Event::Error(ReceiveError::IoError(end)))]
    } else {
        let later = if messages.first().len() == 0 {
            Seq::empty()
        } else {
            expected(peer, decoded, messages.drop_first(), end)
        };
        match decoded(messages.first()) {
            Ok(message) => seq![(peer, Event::Data(message))] + later,
            Err((error, Continue(true))) => seq![
                (peer, Event::Error(ReceiveError::Codec(error))),
            ] + later,
            Err((error, Continue(false))) => seq![
                (peer, Event::Error(ReceiveError::Codec(error))),
            ],
        }
    }
}

/// The steps of receiving are those that [`after_read`] describes, whatever function the codec
/// computes.
pub proof fn lemma_read_outcome<Tin, Tout, C: Codec<Tin, Tout>>(
    before: ReadMessagesView<C>,
    decoded: spec_fn(Seq<u8>) -> Result<Tin, (C::TErr, Continue)>,
    receiving: Receiving,
    outcome: Result<Vec<u8>, Error>,
    after: ReadMessagesView<C>,
    action: ReadAction<Tin, C::TErr>,
)
    requires
        decodes_as::<Tin, Tout, C>(before.codec, decoded),
        before.read_outcome::<Tin, Tout>(receiving, outcome, after, action),
    ensures
        ({
            let bytes = match outcome {
                Ok(bytes) => Ok(bytes@),
                Err(error) => Err(error),
            };
            let (phase, expected) = after_read(
                before.peer,
                before.order,
                decoded,
                receiving,
                bytes,
            );
            after == before.with_phase(phase) && action == expected
        }),
{
}

/// One message is received: what comes of it is done, with the rest of the stream still to come.
pub(crate) proof fn lemma_one_delivery<Tin, TErr>(
    peer: Addr,
    order: ByteOrder,
    decoded: spec_fn(Seq<u8>) -> Result<Tin, (TErr, Continue)>,
    message: Seq<u8>,
    rest: Seq<u8>,
    end: Error,
    room: nat,
)
    requires
        fits(message),
    ensures
        ({
            let start = ReadPhase::Reading(Receiving::Header);
            let stream = frame(order, message) + rest;
            let (next, action) = after_decode(peer, message.len() == 0, decoded(message));
            deliveries(peer, order, decoded, start, ReadAction::Read(4), stream, end, room)
                == deliveries(peer, order, decoded, next, action, rest, end, room)
        }),
{
    let start = ReadPhase::Reading(Receiving::Header);
    let stream = frame(order, message) + rest;
    lemma_frame_parts(order, message, rest);
    if message.len() == 0 {
        assert(message + rest =~= rest);
    } else {
        let body = ReadPhase::Reading(Receiving::Body(message.len() as u32));
        let read = ReadAction::<Tin, TErr>::Read(message.len() as usize);
        let left = stream.skip(Receiving::Header.wanted() as int);
        assert(deliveries(peer, order, decoded, start, ReadAction::Read(4), stream, end, room)
            == deliveries(peer, order, decoded, body, read, left, end, room));
    }
}

/// The stream ends before a message is complete: this is reported, and nothing else.
proof fn lemma_last_delivery<Tin, TErr>(
    peer: Addr,
    order: ByteOrder,
    decoded: spec_fn(Seq<u8>) -> Result<Tin, (TErr, Continue)>,
    last: Seq<u8>,
    kept: int,
    end: Error,
    room: nat,
)
    requires
        fits(last),
        0 <= kept < frame(order, last).len(),
    ensures
        deliveries(
            peer,
            order,
            decoded,
            ReadPhase::Reading(Receiving::Header),
            ReadAction::Read(4),
            frame(order, last).take(kept),
            end,
            room,
        ) == seq![(peer, Event::<Tin, TErr>::Error(ReceiveError::IoError(end)))],
{
    reveal_with_fuel(deliveries, 4);
    lemma_truncated_parts(order, last, kept);
    assert(deliveries(
        peer,
        order,
        decoded,
        ReadPhase::Reading(Receiving::Header),
        ReadAction::Read(4),
        frame(order, last).take(kept),
        end,
        room,
    ) =~= seq![(peer, Event::<Tin, TErr>::Error(ReceiveError::IoError(end)))]);
}

/// Every message that a client sends is reported, in the order in which it was sent, and then the
/// end of the stream. A message that the codec rejects is reported in its place; if the codec says
/// so, or if the message has no bytes, nothing follows it. A last message of which only a part
/// arrived is not reported. Once the sink refuses an event, it is offered no more.
pub proof fn lemma_deliveries<Tin, TErr>(
    peer: Addr,
    order: ByteOrder,
    decoded: spec_fn(Seq<u8>) -> Result<Tin, (TErr, Continue)>,
    messages: Seq<Seq<u8>>,
    last: Seq<u8>,
    kept: int,
    end: Error,
    room: nat,
)
    requires
        forall|i: int| 0 <= i < messages.len() ==> fits(#[trigger] messages[i]),
        fits(last),
        0 <= kept < frame(order, last).len(),
    ensures
        deliveries(
            peer,
            order,
            decoded,
            ReadPhase::Reading(Receiving::Header),
            ReadAction::Read(4),
            frames(order, messages) + frame(order, last).take(kept),
            end,
            room,
        ) == offered(expected(peer, decoded, messages, end), room),
    decreases messages.len(),
{
    let start = ReadPhase::Reading(Receiving::Header);
    let read = ReadAction::<Tin, TErr>::Read(4);
    let tail = frame(order, last).take(kept);
    let stream = frames(order, messages) + tail;
    let all = expected(peer, decoded, messages, end);
    if messages.len() == 0 {
        lemma_last_delivery(peer, order, decoded, last, kept, end, room);
        assert(stream =~= tail);
        assert(offered(all, room) =~= all);
    } else {
        let first = messages.first();
        let others = messages.drop_first();
        let rest = frames(order, others) + tail;
        let (next, action) = after_decode(peer, first.len() == 0, decoded(first));
        assert(stream =~= frame(order, first) + rest);
        assert(fits(messages[0]));
        assert forall|i: int| 0 <= i < others.len() implies fits(#[trigger] others[i]) by {
            assert(fits(messages[i + 1]));
        }
        lemma_one_delivery(peer, order, decoded, first, rest, end, room);
        reveal_with_fuel(deliveries, 2);
        if room > 0 && next == (ReadPhase::Delivering { last: false }) {
            let left = (room - 1) as nat;
            lemma_deliveries(peer, order, decoded, others, last, kept, end, left);
            let later = expected(peer, decoded, others, end);
            assert(all =~= delivered(action) + later);
            assert(offered(all, room) =~= delivered(action) + offered(later, left));
            assert(deliveries(peer, order, decoded, start, read, stream, end, room) =~= delivered(
                action,
            ) + deliveries(peer, order, decoded, start, read, rest, end, left));
        } else {
            assert(offered(all, room) =~= delivered(action));
            assert(deliveries(peer, order, decoded, start, read, stream, end, room) =~= delivered(
                action,
            ));
        }
    }
}

/// A message without bytes cancels the connection: whatever the client sends after it is not
/// looked at, and the end of the stream is not reported either.
pub proof fn lemma_cancel<Tin, TErr>(
    peer: Addr,
    decoded: spec_fn(Seq<u8>) -> Result<Tin, (TErr, Continue)>,
    before: Seq<Seq<u8>>,
    after: Seq<Seq<u8>>,
    end: Error,
)
    ensures
        ({
            let cancelled = before.push(Seq::empty());
            let all = expected(peer, decoded, cancelled + after, end);
            &&& all == expected(peer, decoded, cancelled, end)
            &&& all.len() <= cancelled.len()
        }),
    decreases before.len(),
{
    let cancelled = before.push(Seq::empty());
    let sent = cancelled + after;
    if before.len() == 0 {
        assert(sent.first() =~= Seq::empty());
    } else {
        lemma_cancel(peer, decoded, before.drop_first(), after, end);
        assert(cancelled.drop_first() =~= before.drop_first().push(Seq::empty()));
        assert(sent.drop_first() =~= cancelled.drop_first() + after);
        assert(sent.first() == cancelled.first());
    }
}

/// If the codec can decode what a client sends, the client does not cancel the connection and the
/// sink accepts the messages, it gets exactly those that were sent, followed by the end of the
/// stream.
pub proof fn lemma_all_received<Tin, TErr>(
    peer: Addr,
    order: ByteOrder,
    decoded: spec_fn(Seq<u8>) -> Result<Tin, (TErr, Continue)>,
    messages: Seq<Tin>,
    encoded: Seq<Seq<u8>>,
    end: Error,
    room: nat,
)
    requires
        encoded.len() == messages.len(),
        forall|i: int|
            0 <= i < messages.len() ==> fits(#[trigger] encoded[i]) && encoded[i].len() > 0
                && decoded(encoded[i]) == Ok::<Tin, (TErr, Continue)>(messages[i]),
        messages.len() <= room,
    ensures
        deliveries(
            peer,
            order,
            decoded,
            ReadPhase::Reading(Receiving::Header),
            ReadAction::Read(4),
            frames(order, encoded),
            end,
            room,
        ) == messages.map_values(
            |message: Tin| (peer, Event::<Tin, TErr>::Data(message)),
        ).push((peer, Event::Error(ReceiveError::IoError(end)))),
{
    let nothing = Seq::<u8>::empty();
    lemma_image_value(order, 0, nothing);
    lemma_deliveries(peer, order, decoded, encoded, nothing, 0, end, room);
    assert(frames(order, encoded) + frame(order, nothing).take(0) =~= frames(order, encoded));
    lemma_expected(peer, decoded, messages, encoded, end);
    let all = expected(peer, decoded, encoded, end);
    assert(offered(all, room) =~= all);
}

proof fn lemma_expected<Tin, TErr>(
    peer: Addr,
    decoded: spec_fn(Seq<u8>) -> Result<Tin, (TErr, Continue)>,
    messages: Seq<Tin>,
    encoded: Seq<Seq<u8>>,
    end: Error,
)
    requires
        encoded.len() == messages.len(),
        forall|i: int|
            0 <= i < messages.len() ==> (#[trigger] encoded[i]).len() > 0 && decoded(encoded[i])
                == Ok::<Tin, (TErr, Continue)>(messages[i]),
    ensures
        expected(peer, decoded, encoded, end) == messages.map_values(
            |message: Tin| (peer, Event::<Tin, TErr>::Data(message)),
        ).push((peer, Event::Error(ReceiveError::IoError(end)))),
    decreases messages.len(),
{
    let as_event = |message: Tin| (peer, Event::<Tin, TErr>::Data(message));
    if messages.len() > 0 {
        let others = messages.drop_first();
        let encoded_others = encoded.drop_first();
        assert forall|i: int| 0 <= i < others.len() implies (
        #[trigger] encoded_others[i]).len() > 0
            && decoded(encoded_others[i]) == Ok::<Tin, (TErr, Continue)>(others[i]) by {
            assert(encoded[i + 1].len() > 0);
            assert(decoded(encoded[i + 1]) == Ok::<Tin, (TErr, Continue)>(messages[i + 1]));
        }
        lemma_expected(peer, decoded, others, encoded_others, end);
        assert(encoded[0].len() > 0);
        assert(decoded(encoded[0]) == Ok::<Tin, (TErr, Continue)>(messages[0]));
        assert(messages.map_values(as_event) =~= seq![as_event(messages[0])] + others.map_values(
            as_event,
        ));
    }
    assert(expected(peer, decoded, encoded, end) =~= messages.map_values(as_event).push(
        (peer, Event::Error(ReceiveError::IoError(end))),
    ));
}

// ---------------------------------------------------------------------------------------------
// A whole connection

/// What an action hands to the sink.
pub open spec fn reported<Tin, TErr>(action: HandleAction<Tin, TErr>) -> Seq<
    (Addr, Event<Tin, TErr>),
> {
    match action {
        HandleAction::Deliver(peer, event) => seq![(peer, event)],
        _ => Seq::empty(),
    }
}

/// All that is handed to the sink for a connection, and the last action, if `stream` is all that
/// arrives, reading beyond its end fails with `end`, the sink accepts the beginning, `room` more
/// events and the end, and the socket can be shut down. In each phase `action` is done, until it
/// says that nothing is left to do; one that does not go with its phase leads nowhere.
pub open spec fn handled<Tin, TErr>(
    handling: HandleConnection,
    action: HandleAction<Tin, TErr>,
    order: ByteOrder,
    decoded: spec_fn(Seq<u8>) -> Result<Tin, (TErr, Continue)>,
    stream: Seq<u8>,
    end: Error,
    room: nat,
) -> (Seq<(Addr, Event<Tin, TErr>)>, HandleAction<Tin, TErr>)
    decreases
            (match handling.phase {
                HandlePhase::Connecting => 4int,
                HandlePhase::Serving => 3int,
                HandlePhase::ShuttingDown => 2int,
                HandlePhase::Disconnecting => 1int,
                HandlePhase::Finished => 0int,
            }),
{
    let (step, shown) = match (handling.phase, action) {
        (HandlePhase::Connecting, HandleAction::Deliver(_, _)) => (
            Some(handling.after_delivery::<Tin, TErr>(true)),
            reported(action),
        ),
        (HandlePhase::Serving, HandleAction::Serve) => (
            Some(handling.after_serving::<Tin, TErr>()),
            deliveries(
                handling.addr,
                order,
                decoded,
                ReadPhase::Reading(Receiving::Header),
                ReadAction::Read(4),
                stream,
                end,
                room,
            ),
        ),
        (HandlePhase::ShuttingDown, HandleAction::Shutdown) => (
            Some(handling.after_shutdown::<Tin, TErr>(Ok(()))),
            Seq::empty(),
        ),
        (HandlePhase::Disconnecting, HandleAction::Deliver(_, _)) => (
            Some(handling.after_delivery::<Tin, TErr>(true)),
            reported(action),
        ),
        _ => (None, Seq::empty()),
    };
    match step {
        Some((next, then)) => {
            let (later, last) = handled(next, then, order, decoded, stream, end, room);
            (shown + later, last)
        },
        None => (shown, action),
    }
}

/// All that is handed to the sink for a connection from its beginning to its end, if `stream` is
/// all that arrives, reading beyond its end fails with `end`, and the sink accepts the beginning,
/// `room` more events and the end.
pub open spec fn session<Tin, TErr>(
    peer: Addr,
    order: ByteOrder,
    decoded: spec_fn(Seq<u8>) -> Result<Tin, (TErr, Continue)>,
    stream: Seq<u8>,
    end: Error,
    room: nat,
) -> Seq<(Addr, Event<Tin, TErr>)> {
    let (connecting, first) = HandleConnection::first::<Tin, TErr>(peer);
    handled(connecting, first, order, decoded, stream, end, room).0
}

/// The event speaks of what a client has sent.
pub open spec fn is_content<Tin, TErr>(event: Event<Tin, TErr>) -> bool {
    event is Data || event is Error
}

/// What is expected speaks of what the client has sent, and names the client.
proof fn lemma_expected_content<Tin, TErr>(
    peer: Addr,
    decoded: spec_fn(Seq<u8>) -> Result<Tin, (TErr, Continue)>,
    messages: Seq<Seq<u8>>,
    end: Error,
)
    ensures
        ({
            let all = expected(peer, decoded, messages, end);
            forall|i: int|
                0 <= i < all.len() ==> (#[trigger] all[i]).0 == peer && is_content(all[i].1)
        }),
    decreases messages.len(),
{
    if messages.len() > 0 {
        lemma_expected_content(peer, decoded, messages.drop_first(), end);
    }
}

/// A connection is reported to begin once, before anything else of it is, and to end once, after
/// everything else. In between come the messages of the client.
pub proof fn lemma_session<Tin, TErr>(
    peer: Addr,
    order: ByteOrder,
    decoded: spec_fn(Seq<u8>) -> Result<Tin, (TErr, Continue)>,
    messages: Seq<Seq<u8>>,
    last: Seq<u8>,
    kept: int,
    end: Error,
    room: nat,
)
    requires
        forall|i: int| 0 <= i < messages.len() ==> fits(#[trigger] messages[i]),
        fits(last),
        0 <= kept < frame(order, last).len(),
    ensures
        ({
            let stream = frames(order, messages) + frame(order, last).take(kept);
            let content = offered(expected(peer, decoded, messages, end), room);
            &&& session(peer, order, decoded, stream, end, room) == seq![
                (peer, Event::<Tin, TErr>::Connect),
            ] + content + seq![(peer, Event::<Tin, TErr>::Disconnect)]
            &&& handled(
                HandleConnection { addr: peer, phase: HandlePhase::Connecting },
                HandleAction::Deliver(peer, Event::Connect),
                order,
                decoded,
                stream,
                end,
                room,
            ).1 == HandleAction::<Tin, TErr>::Finish
            &&& forall|i: int|
                0 <= i < content.len() ==> (#[trigger] content[i]).0 == peer && is_content(
                    content[i].1,
                )
        }),
{
    lemma_deliveries(peer, order, decoded, messages, last, kept, end, room);
    lemma_expected_content(peer, decoded, messages, end);
    reveal_with_fuel(handled, 5);
    let stream = frames(order, messages) + frame(order, last).take(kept);
    let content = offered(expected(peer, decoded, messages, end), room);
    assert(session(peer, order, decoded, stream, end, room) =~= seq![
        (peer, Event::<Tin, TErr>::Connect),
    ] + content + seq![(peer, Event::<Tin, TErr>::Disconnect)]);
}

/// A client can be sent messages while its connection is handled, and not after; other clients are
/// not affected by it. A connection leaves no trace once it is over. After all connections were
/// closed, no client can be sent a message.
pub proof fn lemma_registration<C, Q>(
    server: ServerView<C, Q>,
    addr: Addr,
    queue: Q,
    other: Addr,
)
    ensures
        server.registered(addr, queue).queue_of(addr) == Some(queue),
        server.unregistered(addr).queue_of(addr) is None,
        other != addr ==> server.registered(addr, queue).queue_of(other) == server.queue_of(other),
        other != addr ==> server.unregistered(addr).queue_of(other) == server.queue_of(other),
        server.queue_of(addr) is None ==> server.registered(addr, queue).unregistered(addr)
            == server,
        server.emptied().queue_of(other) is None,
{
    if server.queue_of(addr) is None {
        assert(server.connections.insert(addr, queue).remove(addr) =~= server.connections);
    }
}

/// A server that was told to shut down stops as soon as no client is waiting to be accepted, and
/// no server stops before. Being told so does not end the connections; stopping does.
pub proof fn lemma_shutdown<C, Q>(
    server: ServerView<C, Q>,
    incoming: Result<Addr, ErrorKind>,
    who: Addr,
)
    ensures
        server.told_to_stop().accept_action(Err(ErrorKind::WouldBlock)) == AcceptAction::Stop,
        server.accept_action(incoming) == AcceptAction::Stop ==> server.shutdown,
        incoming matches Ok(addr) ==> server.accept_action(incoming) == AcceptAction::Serve(addr),
        server.told_to_stop().queue_of(who) == server.queue_of(who),
        server.told_to_stop().emptied().queue_of(who) is None,
{
}

// ---------------------------------------------------------------------------------------------
// Sending

/// The operations that are tried in order to send an encoded message, and the reply if there is
/// one yet, when the operations turn out as `outcomes` says.
pub open spec fn send_run(
    phase: SendPhaseView,
    action: SendActionView,
    outcomes: Seq<Result<(), Error>>,
) -> (Seq<SendActionView>, Option<Result<(), SendError>>)
    decreases outcomes.len(),
{
    match action {
        SendActionView::WriteAll(_) | SendActionView::Flush => if outcomes.len() == 0 {
            (seq![action], None)
        } else {
            let (writing, step) = phase->Writing_0.after(outcomes.first());
            let (next, next_action) = after_step(writing, step);
            let (tried, answer) = send_run(next, next_action, outcomes.drop_first());
            (seq![action] + tried, answer)
        },
        SendActionView::Reply(answer) => (Seq::empty(), Some(answer)),
        _ => (Seq::empty(), None),
    }
}

/// The result of sending a message to `who`, if its queue accepts the message or not and the
/// writer then gives this answer or none.
pub open spec fn send_result<C, Q>(
    server: ServerView<C, Q>,
    who: Addr,
    accepted: bool,
    answer: Option<Result<(), SendError>>,
) -> Result<(), SendError> {
    match server.queue_of(who) {
        None => Err(SendError::AddrNotFound),
        Some(_) => match after_enqueue(accepted) {
            Enqueued::AwaitReply => after_reply(answer),
            Enqueued::Done(result) => result,
        },
    }
}

/// The first failure among three outcomes, if there is one, and success otherwise.
pub open spec fn first_failure(outcomes: Seq<Result<(), Error>>) -> Result<(), Error> {
    if outcomes[0] is Err {
        outcomes[0]
    } else if outcomes[1] is Err {
        outcomes[1]
    } else {
        outcomes[2]
    }
}

/// What a step of writing a frame lets the sending of messages do.
pub open spec fn action_of(step: WriteStepView) -> SendActionView {
    after_step(WritingView::Done, step).1
}

/// Sending an encoded message is writing its frame: each step of writing becomes an action, and
/// the result becomes the reply.
pub proof fn lemma_send_is_write(
    writing: WritingView,
    step: WriteStepView,
    outcomes: Seq<Result<(), Error>>,
)
    ensures
        ({
            let (phase, action) = after_step(writing, step);
            let (tried, answer) = send_run(phase, action, outcomes);
            let (steps, result) = write_run(writing, step, outcomes);
            &&& tried == steps.map_values(|step: WriteStepView| action_of(step))
            &&& answer == (match result {
                Some(written) => Some(reply(written)),
                None => None,
            })
        }),
    decreases outcomes.len(),
{
    let (phase, action) = after_step(writing, step);
    let to_action = |step: WriteStepView| action_of(step);
    let (tried, _) = send_run(phase, action, outcomes);
    let (steps, _) = write_run(writing, step, outcomes);
    if !(step is Done) && outcomes.len() > 0 {
        let (next, next_step) = writing.after(outcomes.first());
        lemma_send_is_write(next, next_step, outcomes.drop_first());
    }
    assert(tried =~= steps.map_values(to_action));
}

/// Sending a message to a client is to write its frame and to flush. The first failure ends the
/// attempt and is what the sender is told; without one, the sender is told that it went well.
pub proof fn lemma_send_run<C>(
    sending: SendMessagesView<C>,
    buffer: Seq<u8>,
    outcomes: Seq<Result<(), Error>>,
)
    requires
        outcomes.len() == 3,
    ensures
        ({
            let header = sending.order.image(wire_len(buffer));
            let all = seq![
                SendActionView::WriteAll(header),
                SendActionView::WriteAll(buffer),
                SendActionView::Flush,
            ];
            let (next, action) = sending.after_encode(buffer);
            let (tried, answer) = send_run(next.phase, action, outcomes);
            &&& header + buffer == frame(sending.order, buffer)
            &&& answer == Some(reply(first_failure(outcomes)))
            &&& outcomes[0] is Err ==> tried == all.take(1)
            &&& outcomes[0] is Ok && outcomes[1] is Err ==> tried == all.take(2)
            &&& outcomes[0] is Ok && outcomes[1] is Ok ==> tried == all
        }),
{
    let header = sending.order.image(wire_len(buffer));
    let all = seq![
        SendActionView::WriteAll(header),
        SendActionView::WriteAll(buffer),
        SendActionView::Flush,
    ];
    let (writing, step) = write_start(sending.order, buffer);
    let (next, action) = sending.after_encode(buffer);
    let (tried, answer) = send_run(next.phase, action, outcomes);
    lemma_write_run(sending.order, buffer, outcomes);
    lemma_send_is_write(writing, step, outcomes);
    if outcomes[0] is Err {
        assert(tried =~= all.take(1));
    } else if outcomes[1] is Err {
        assert(tried =~= all.take(2));
    } else {
        assert(tried =~= all);
    }
}

/// Sending succeeds exactly if the client is connected and its message was handed to the socket
/// completely. Otherwise the result says what went wrong: there is no such client, the connection
/// ended before the message was written, or writing failed.
pub proof fn lemma_send_result<C, Q>(
    server: ServerView<C, Q>,
    who: Addr,
    accepted: bool,
    sending: SendMessagesView<C>,
    buffer: Seq<u8>,
    outcomes: Seq<Result<(), Error>>,
)
    requires
        outcomes.len() == 3,
    ensures
        ({
            let found = server.connections.contains_key(who);
            let (next, action) = sending.after_encode(buffer);
            let answer = send_run(next.phase, action, outcomes).1;
            let result = send_result(server, who, accepted, answer);
            let unanswered = send_result(server, who, accepted, None);
            &&& result is Ok <==> found && accepted && outcomes[0] is Ok && outcomes[1] is Ok
                && outcomes[2] is Ok
            &&& !found ==> result == Err::<(), SendError>(SendError::AddrNotFound)
            &&& found && !accepted ==> result == Err::<(), SendError>(SendError::BrokenChannel)
            &&& found && accepted ==> result == reply(first_failure(outcomes))
            &&& found ==> unanswered == Err::<(), SendError>(SendError::BrokenChannel)
        }),
{
    lemma_send_run(sending, buffer, outcomes);
}

/// What an action asks of the socket, if anything.
pub open spec fn step_of(action: SendActionView) -> WriteStepView {
    match action {
        SendActionView::WriteAll(bytes) => WriteStepView::WriteAll(bytes),
        SendActionView::Flush => WriteStepView::Flush,
        _ => WriteStepView::Done(Ok(())),
    }
}

/// The bytes that actions write.
pub open spec fn bytes_of(actions: Seq<SendActionView>) -> Seq<u8> {
    crate::read_write::bytes_of(actions.map_values(|action: SendActionView| step_of(action)))
}

/// What is done to send one message, and the state that is left for the next one, if nothing
/// fails.
pub open spec fn send_one<C>(sending: SendMessagesView<C>, message: Seq<u8>) -> (
    Seq<SendActionView>,
    SendMessagesView<C>,
) {
    let (header, first) = sending.after_encode(message);
    let (body, second) = header.after_write(Ok(()));
    let (flush, third) = body.after_write(Ok(()));
    let (reply, last) = flush.after_write(Ok(()));
    (seq![first, second, third, last], reply.with_phase(SendPhaseView::Receiving))
}

/// The bytes that are written for several messages, one after the other, if nothing fails. Each
/// message is sent in the state that the one before has left.
pub open spec fn sent<C>(sending: SendMessagesView<C>, messages: Seq<Seq<u8>>) -> Seq<u8>
    decreases messages.len(),
{
    if messages.len() == 0 {
        Seq::empty()
    } else {
        let (actions, left) = send_one(sending, messages.first());
        bytes_of(actions) + sent(left, messages.drop_first())
    }
}

/// Sending one message writes its length, the message and a flush, and tells its sender that all
/// went well. What is left is ready for the next message, with the same codec and byte order.
pub proof fn lemma_send_one<C>(sending: SendMessagesView<C>, message: Seq<u8>)
    ensures
        ({
            let (actions, left) = send_one(sending, message);
            &&& actions.len() == 4
            &&& actions[0] matches SendActionView::WriteAll(header) && header + message == frame(
                sending.order,
                message,
            )
            &&& actions[1] == SendActionView::WriteAll(message)
            &&& actions[2] is Flush
            &&& actions[3] == SendActionView::Reply(Ok(()))
            &&& bytes_of(actions) == frame(sending.order, message)
            &&& left.codec == sending.codec
            &&& left.order == sending.order
            &&& left.phase is Receiving
        }),
{
    let (actions, left) = send_one(sending, message);
    reveal_with_fuel(crate::read_write::bytes_of, 5);
    assert(bytes_of(actions) =~= frame(sending.order, message));
}

/// Sending messages to a client writes what writing them does: their frames, in order and with
/// nothing in between.
pub proof fn lemma_sent<C>(sending: SendMessagesView<C>, messages: Seq<Seq<u8>>)
    ensures
        sent(sending, messages) == written(sending.order, messages),
        sent(sending, messages) == frames(sending.order, messages),
    decreases messages.len(),
{
    lemma_written(sending.order, messages);
    if messages.len() > 0 {
        lemma_send_one(sending, messages.first());
        lemma_sent(send_one(sending, messages.first()).1, messages.drop_first());
    }
}

// ---------------------------------------------------------------------------------------------
// Sending to all clients

/// What is done at the connection of `who` when these messages are sent, and every queue takes
/// its message. `starts` says what each message leads to where it is written, and `outcomes` how
/// the operations at a connection turn out.
pub open spec fn done_at<C, Q, Tout>(
    server: ServerView<C, Q>,
    sends: Seq<(Addr, Tout)>,
    starts: Seq<(SendMessagesView<C>, SendActionView)>,
    outcomes: spec_fn(Addr) -> Seq<Result<(), Error>>,
    who: Addr,
) -> Seq<SendActionView>
    decreases sends.len(),
{
    if sends.len() == 0 {
        Seq::empty()
    } else {
        let later = done_at(server, sends.drop_first(), starts.drop_first(), outcomes, who);
        if sends.first().0 == who && server.queue_of(who) is Some {
            sent_and_told(starts.first(), outcomes(who)) + later
        } else {
            later
        }
    }
}

/// What is done for one message: its frame is written as far as possible, and its sender is told.
pub open spec fn sent_and_told<C>(
    start: (SendMessagesView<C>, SendActionView),
    outcomes: Seq<Result<(), Error>>,
) -> Seq<SendActionView> {
    let (tried, answer) = send_run(start.0.phase, start.1, outcomes);
    match answer {
        Some(answer) => tried.push(SendActionView::Reply(answer)),
        None => tried,
    }
}

/// Exactly one of these messages is for this address.
pub open spec fn once<Tout>(sends: Seq<(Addr, Tout)>, who: Addr) -> bool {
    exists|i: int|
        {
            &&& 0 <= i < sends.len()
            &&& (#[trigger] sends[i]).0 == who
            &&& forall|j: int| 0 <= j < sends.len() && (#[trigger] sends[j]).0 == who ==> j == i
        }
}

/// Nothing is done at a connection for which there is no message.
proof fn lemma_nothing_done<C, Q, Tout>(
    server: ServerView<C, Q>,
    sends: Seq<(Addr, Tout)>,
    starts: Seq<(SendMessagesView<C>, SendActionView)>,
    outcomes: spec_fn(Addr) -> Seq<Result<(), Error>>,
    who: Addr,
)
    requires
        !has_entry(sends, who),
    ensures
        done_at(server, sends, starts, outcomes, who) == Seq::<SendActionView>::empty(),
    decreases sends.len(),
{
    if sends.len() > 0 {
        let others = sends.drop_first();
        assert(sends[0].0 != who);
        assert forall|i: int| 0 <= i < others.len() implies (#[trigger] others[i]).0 != who by {
            assert(sends[i + 1].0 != who);
        }
        lemma_nothing_done(server, others, starts.drop_first(), outcomes, who);
    }
}

/// What is done at a connection for which there is one message.
proof fn lemma_done_once<C, Q, Tout>(
    server: ServerView<C, Q>,
    sends: Seq<(Addr, Tout)>,
    starts: Seq<(SendMessagesView<C>, SendActionView)>,
    outcomes: spec_fn(Addr) -> Seq<Result<(), Error>>,
    at: int,
)
    requires
        distinct(sends),
        0 <= at < sends.len(),
        starts.len() == sends.len(),
        server.queue_of(sends[at].0) is Some,
    ensures
        done_at(server, sends, starts, outcomes, sends[at].0) == sent_and_told(
            starts[at],
            outcomes(sends[at].0),
        ),
    decreases sends.len(),
{
    let who = sends[at].0;
    let others = sends.drop_first();
    if at == 0 {
        assert forall|i: int| 0 <= i < others.len() implies (#[trigger] others[i]).0 != who by {
            assert(sends[0].0 != sends[i + 1].0);
        }
        lemma_nothing_done(server, others, starts.drop_first(), outcomes, who);
        assert(done_at(server, sends, starts, outcomes, who) =~= sent_and_told(
            starts[at],
            outcomes(who),
        ));
    } else {
        assert(sends[0].0 != sends[at].0);
        assert(others[at - 1] == sends[at]);
        assert forall|i: int, j: int| 0 <= i < j < others.len() implies (
            #[trigger] others[i]).0 != (#[trigger] others[j]).0 by {
            assert(sends[i + 1].0 != sends[j + 1].0);
        }
        lemma_done_once(server, others, starts.drop_first(), outcomes, at - 1);
    }
}

/// A message to all clients, which [`Server::broadcast`](crate::Server::broadcast) lists, reaches
/// every connected client exactly once, and nobody else. Each client is sent the one frame of the
/// message, the sender is told how that went, and a failure at one client changes nothing at
/// another. This takes codecs that encode every clone of the message alike.
///
/// `sending` are those that write to the clients, and `encoded` is the message as it is encoded.
pub proof fn lemma_reach_all<Tin, Tout: Clone, C: Codec<Tin, Tout>, Q>(
    server: ServerView<C, Q>,
    value: Tout,
    sends: Seq<(Addr, Tout)>,
    sending: spec_fn(Addr) -> SendMessagesView<C>,
    encoded: Seq<u8>,
    starts: Seq<(SendMessagesView<C>, SendActionView)>,
    outcomes: spec_fn(Addr) -> Seq<Result<(), Error>>,
    who: Addr,
)
    requires
        server.reaches_all(value, sends),
        forall|addr: Addr| #[trigger]
            server.connections.contains_key(addr) ==> {
                &&& sending(addr).order == server.order
                &&& outcomes(addr).len() == 3
                &&& forall|message: Tout| #[trigger]
                    cloned(value, message) ==> encodes_as::<Tin, Tout, C>(
                        sending(addr).codec,
                        message,
                        encoded,
                    )
            },
        starts.len() == sends.len(),
        forall|i: int|
            0 <= i < sends.len() ==> sending((#[trigger] sends[i]).0).request_outcome::<Tin, Tout>(
                Some(sends[i].1),
                starts[i].0,
                starts[i].1,
            ),
    ensures
        ({
            let connected = server.connections.contains_key(who);
            let header = server.order.image(wire_len(encoded));
            let frame_and_flush = seq![
                SendActionView::WriteAll(header),
                SendActionView::WriteAll(encoded),
                SendActionView::Flush,
                SendActionView::Reply(Ok(())),
            ];
            let fine = outcomes(who)[0] is Ok && outcomes(who)[1] is Ok && outcomes(who)[2] is Ok;
            let done = done_at(server, sends, starts, outcomes, who);
            &&& connected <==> once(sends, who)
            &&& connected <==> has_entry(sends, who)
            &&& connected ==> server.queue_of(who) == Some(server.connections[who])
            &&& connected ==> done == sent_and_told(
                sending(who).after_encode(encoded),
                outcomes(who),
            )
            &&& connected && fine ==> done == frame_and_flush && bytes_of(done) == frame(
                server.order,
                encoded,
            )
            &&& connected ==> done.last() == SendActionView::Reply(
                reply(first_failure(outcomes(who))),
            )
            &&& !connected ==> done == Seq::<SendActionView>::empty()
        }),
{
    let done = done_at(server, sends, starts, outcomes, who);
    if server.connections.contains_key(who) {
        assert(has_entry(sends, who));
        let at = choose|i: int| 0 <= i < sends.len() && (#[trigger] sends[i]).0 == who;
        assert forall|j: int| 0 <= j < sends.len() && (#[trigger] sends[j]).0 == who implies j
            == at by {
            if j < at {
                assert(sends[j].0 != sends[at].0);
            } else if at < j {
                assert(sends[at].0 != sends[j].0);
            }
        }
        lemma_done_once(server, sends, starts, outcomes, at);
        assert(cloned(value, sends[at].1));
        assert(starts[at] == sending(who).after_encode(encoded));
        lemma_send_run(sending(who), encoded, outcomes(who));
        if outcomes(who)[0] is Ok && outcomes(who)[1] is Ok && outcomes(who)[2] is Ok {
            let header = server.order.image(wire_len(encoded));
            assert(done =~= seq![
                SendActionView::WriteAll(header),
                SendActionView::WriteAll(encoded),
                SendActionView::Flush,
                SendActionView::Reply(Ok(())),
            ]);
            reveal_with_fuel(crate::read_write::bytes_of, 5);
            assert(bytes_of(done) =~= frame(server.order, encoded));
        }
    } else {
        assert(!has_entry(sends, who));
        lemma_nothing_done(server, sends, starts, outcomes, who);
    }
}

} // verus!
