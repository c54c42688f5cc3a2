//! Framing: each message travels behind its length.
//!
//! A frame is the length of the message as four bytes in the byte order of the machine, followed
//! by the message itself.
use std::io::Error;

use vstd::prelude::*;

use crate::byte_order::{lemma_image_value, ByteOrder};

verus! {

/// The number of bytes in front of a message.
pub const HEADER_LEN: usize = 4;

/// The length that is put in front of a message: only the low 32 bits are sent.
pub open spec fn wire_len(message: Seq<u8>) -> u32 {
    (message.len() % 0x1_0000_0000) as u32
}

/// The bytes that carry `message`.
pub open spec fn frame(order: ByteOrder, message: Seq<u8>) -> Seq<u8> {
    order.image(wire_len(message)) + message
}

/// The bytes that carry several messages, one after the other.
pub open spec fn frames(order: ByteOrder, messages: Seq<Seq<u8>>) -> Seq<u8>
    decreases messages.len(),
{
    if messages.len() == 0 {
        Seq::empty()
    } else {
        frame(order, messages.first()) + frames(order, messages.drop_first())
    }
}

// ---------------------------------------------------------------------------------------------
// Reading

/// How far the next message has been read.
#[derive(Clone, Copy, Debug, PartialEq, Eq, Structural)]
pub enum Receiving {
    /// The length has to be read.
    Header,
    /// The message has to be read, which has this many bytes.
    Body(u32),
}

/// What comes after some bytes have been read.
#[derive(Debug)]
pub enum ReadStep {
    /// More bytes have to be read.
    More(Receiving),
    /// The next message, or the error that ended the attempt to read it.
    Done(Result<Vec<u8>, Error>),
}

/// What the bytes that have just been read lead to.
pub enum Progress {
    More(Receiving),
    Message(Seq<u8>),
}

impl Receiving {
    /// How many bytes have to be read next.
    pub open spec fn spec_wanted(self) -> usize {
        match self {
            Receiving::Header => HEADER_LEN,
            Receiving::Body(len) => len as usize,
        }
    }

    /// What it means to have read `bytes`, as many as were wanted. A message without bytes is
    /// complete once its length is known.
    pub open spec fn progress(self, order: ByteOrder, bytes: Seq<u8>) -> Progress {
        match self {
            Receiving::Header => if order.value(bytes) == 0 {
                Progress::Message(Seq::empty())
            } else {
                Progress::More(Receiving::Body(order.value(bytes)))
            },
            Receiving::Body(_) => Progress::Message(bytes),
        }
    }

    /// How many bytes have to be read next, no more and no less.
    #[verifier::when_used_as_spec(spec_wanted)]
    pub fn wanted(self) -> (len: usize)
        ensures
            len == self.wanted(),
    {
        match self {
            Receiving::Header => HEADER_LEN,
            Receiving::Body(len) => len as usize,
        }
    }

    /// Takes in the outcome of reading the wanted bytes.
    pub fn on_read(self, order: ByteOrder, outcome: Result<Vec<u8>, Error>) -> (step: ReadStep)
        requires
            outcome matches Ok(bytes) ==> bytes@.len() == self.wanted(),
        ensures
            match outcome {
                Err(error) => step == ReadStep::Done(Err(error)),
                Ok(bytes) => match self.progress(order, bytes@) {
                    Progress::More(receiving) => step == ReadStep::More(receiving),
                    Progress::Message(message) => {
                        &&& step matches ReadStep::Done(Ok(buffer))
                        &&& buffer@ == message
                    },
                },
            },
    {
        match outcome {
            Err(error) => ReadStep::Done(Err(error)),
            Ok(bytes) => match self {
                Receiving::Header => {
                    let len: u32 = order.decode(&bytes);
                    if len == 0 {
                        ReadStep::Done(Ok(Vec::new()))
                    } else {
                        ReadStep::More(Receiving::Body(len))
                    }
                },
                Receiving::Body(_) => ReadStep::Done(Ok(bytes)),
            },
        }
    }
}

/// Starts to read the next message: its length comes first.
pub fn receive_next() -> (receiving: Receiving)
    ensures
        receiving == Receiving::Header,
{
    Receiving::Header
}

// ---------------------------------------------------------------------------------------------
// Writing

/// How far a frame has been written. Each variant but the last names the operation under way.
#[derive(Debug)]
pub enum Writing {
    /// The length is being written; the message follows.
    Header(Vec<u8>),
    /// The message is being written.
    Body,
    /// The sink is being flushed.
    Flush,
    /// Nothing is left to do.
    Done,
}

/// The next thing to do in order to write a frame.
#[derive(Debug)]
pub enum WriteStep {
    /// Write all of these bytes.
    WriteAll(Vec<u8>),
    /// Flush the sink.
    Flush,
    /// The frame was written, or an operation failed.
    Done(Result<(), Error>),
}

/// A [`Writing`] that speaks of its message as a sequence.
pub enum WritingView {
    Header(Seq<u8>),
    Body,
    Flush,
    Done,
}

/// A [`WriteStep`] that speaks of its bytes as a sequence.
pub enum WriteStepView {
    WriteAll(Seq<u8>),
    Flush,
    Done(Result<(), Error>),
}

impl View for Writing {
    type V = WritingView;

    open spec fn view(&self) -> WritingView {
        match self {
            Writing::Header(message) => WritingView::Header(message@),
            Writing::Body => WritingView::Body,
            Writing::Flush => WritingView::Flush,
            Writing::Done => WritingView::Done,
        }
    }
}

impl View for WriteStep {
    type V = WriteStepView;

    open spec fn view(&self) -> WriteStepView {
        match self {
            WriteStep::WriteAll(bytes) => WriteStepView::WriteAll(bytes@),
            WriteStep::Flush => WriteStepView::Flush,
            WriteStep::Done(result) => WriteStepView::Done(*result),
        }
    }
}

impl WritingView {
    /// What comes after the operation under way: the length, then the message, then a flush, and
    /// the end as soon as one of them fails.
    pub open spec fn after(self, outcome: Result<(), Error>) -> (WritingView, WriteStepView) {
        match outcome {
            Err(error) => (WritingView::Done, WriteStepView::Done(Err(error))),
            Ok(()) => match self {
                WritingView::Header(message) => (
                    WritingView::Body,
                    WriteStepView::WriteAll(message),
                ),
                WritingView::Body => (WritingView::Flush, WriteStepView::Flush),
                WritingView::Flush | WritingView::Done => (
                    WritingView::Done,
                    WriteStepView::Done(Ok(())),
                ),
            },
        }
    }
}

/// Where writing `message` begins.
pub open spec fn write_start(order: ByteOrder, message: Seq<u8>) -> (WritingView, WriteStepView) {
    (
        WritingView::Header(message),
        WriteStepView::WriteAll(order.image(wire_len(message))),
    )
}

/// Starts to write the frame of `message`: its length comes first.
pub fn write(order: ByteOrder, message: Vec<u8>) -> (start: (Writing, WriteStep))
    ensures
        (start.0@, start.1@) == write_start(order, message@),
        start.0 == Writing::Header(message),
{
    let len: u32 = (message.len() as u64 % 0x1_0000_0000) as u32;
    let header = order.encode(len);
    (Writing::Header(message), WriteStep::WriteAll(header))
}

impl Writing {
    /// Takes in the outcome of the operation under way.
    pub fn on_written(self, outcome: Result<(), Error>) -> (next: (Writing, WriteStep))
        ensures
            (next.0@, next.1@) == self@.after(outcome),
    {
        match outcome {
            Err(error) => (Writing::Done, WriteStep::Done(Err(error))),
            Ok(()) => match self {
                Writing::Header(message) => (Writing::Body, WriteStep::WriteAll(message)),
                Writing::Body => (Writing::Flush, WriteStep::Flush),
                Writing::Flush | Writing::Done => (Writing::Done, WriteStep::Done(Ok(()))),
            },
        }
    }
}

// ---------------------------------------------------------------------------------------------
// What framing promises

/// What comes of reading from `stream`, which holds all that the peer will ever send: the next
/// message and what follows its frame, or nothing if the stream ends before.
pub open spec fn read_from(order: ByteOrder, receiving: Receiving, stream: Seq<u8>) -> Option<
    (Seq<u8>, Seq<u8>),
>
    decreases (if receiving is Header { 1int } else { 0int }),
{
    let wanted = receiving.wanted() as int;
    if stream.len() < wanted {
        None
    } else {
        match receiving.progress(order, stream.take(wanted)) {
            Progress::Message(message) => Some((message, stream.skip(wanted))),
            Progress::More(next) => read_from(order, next, stream.skip(wanted)),
        }
    }
}

/// All the messages that can be read from `stream`, in order.
pub open spec fn messages_in(order: ByteOrder, stream: Seq<u8>) -> Seq<Seq<u8>>
    decreases stream.len(),
{
    match read_from(order, Receiving::Header, stream) {
        Some((message, rest)) if rest.len() < stream.len() => seq![message] + messages_in(
            order,
            rest,
        ),
        _ => Seq::empty(),
    }
}

/// The operations that are tried, and the result if there is one yet, when the operations of
/// writing a frame turn out as `outcomes` says.
pub open spec fn write_run(
    writing: WritingView,
    step: WriteStepView,
    outcomes: Seq<Result<(), Error>>,
) -> (Seq<WriteStepView>, Option<Result<(), Error>>)
    decreases outcomes.len(),
{
    match step {
        WriteStepView::Done(result) => (Seq::empty(), Some(result)),
        _ => if outcomes.len() == 0 {
            (seq![step], None)
        } else {
            let (next, next_step) = writing.after(outcomes.first());
            let (tried, result) = write_run(next, next_step, outcomes.drop_first());
            (seq![step] + tried, result)
        },
    }
}

/// A message can be framed so that its length is not cut short.
pub open spec fn fits(message: Seq<u8>) -> bool {
    message.len() <= u32::MAX
}

/// How a frame is read: its length first, and then as many bytes as it says, which are the
/// message.
pub proof fn lemma_frame_parts(order: ByteOrder, message: Seq<u8>, rest: Seq<u8>)
    requires
        fits(message),
    ensures
        ({
            let stream = frame(order, message) + rest;
            let body = stream.skip(HEADER_LEN as int);
            &&& stream.len() == HEADER_LEN + message.len() + rest.len()
            &&& Receiving::Header.progress(order, stream.take(HEADER_LEN as int)) == (
            if message.len() == 0 {
                Progress::Message(message)
            } else {
                Progress::More(Receiving::Body(message.len() as u32))
            })
            &&& body == message + rest
            &&& body.take(message.len() as int) == message
            &&& body.skip(message.len() as int) == rest
        }),
{
    let len = wire_len(message);
    let stream = frame(order, message) + rest;
    lemma_image_value(order, len, Seq::empty());
    assert(stream.take(4) =~= order.image(len));
    assert(stream.skip(4) =~= message + rest);
    assert((message + rest).take(message.len() as int) =~= message);
    assert((message + rest).skip(message.len() as int) =~= rest);
    if message.len() == 0 {
        assert(message =~= Seq::empty());
    }
}

/// A frame that is cut short ends before its length does, or before the message does.
pub proof fn lemma_truncated_parts(order: ByteOrder, message: Seq<u8>, kept: int)
    requires
        fits(message),
        0 <= kept < frame(order, message).len(),
    ensures
        ({
            let stream = frame(order, message).take(kept);
            stream.len() >= HEADER_LEN ==> {
                &&& Receiving::Header.progress(order, stream.take(HEADER_LEN as int))
                    == Progress::More(Receiving::Body(message.len() as u32))
                &&& stream.skip(HEADER_LEN as int).len() < message.len()
            }
        }),
{
    let len = wire_len(message);
    lemma_image_value(order, len, Seq::empty());
    if kept >= 4 {
        assert(frame(order, message).take(kept).take(4) =~= order.image(len));
    }
}

/// Reading gives back what was written: from the frame of a message, the reader gets that message
/// and is left with what follows the frame.
pub proof fn lemma_read_back(order: ByteOrder, message: Seq<u8>, rest: Seq<u8>)
    requires
        fits(message),
    ensures
        read_from(order, Receiving::Header, frame(order, message) + rest) == Some((message, rest)),
{
    reveal_with_fuel(read_from, 2);
    lemma_frame_parts(order, message, rest);
    if message.len() == 0 {
        assert(message + rest =~= rest);
    }
}

/// A frame that is cut short yields no message.
pub proof fn lemma_truncated_frame(order: ByteOrder, message: Seq<u8>, kept: int)
    requires
        fits(message),
        0 <= kept < frame(order, message).len(),
    ensures
        read_from(order, Receiving::Header, frame(order, message).take(kept)) is None,
{
    reveal_with_fuel(read_from, 2);
    lemma_truncated_parts(order, message, kept);
}

/// What the reader takes for a message was framed as that message: no two messages, and no two
/// ways to split a stream, share their bytes.
pub proof fn lemma_read_is_frame(order: ByteOrder, stream: Seq<u8>)
    ensures
        read_from(order, Receiving::Header, stream) matches Some((message, rest)) ==> {
            &&& fits(message)
            &&& stream == frame(order, message) + rest
        },
{
    reveal_with_fuel(read_from, 2);
    if read_from(order, Receiving::Header, stream) is Some {
        let (message, rest) = read_from(order, Receiving::Header, stream).unwrap();
        let header = stream.take(4);
        let len = order.value(header);
        lemma_image_value(order, len, header);
        assert(message.len() == len);
        assert(wire_len(message) == len);
        assert(stream =~= header + stream.skip(4));
        if len == 0 {
            assert(stream.skip(4) == rest);
            assert(stream =~= (header + message) + rest);
        } else {
            assert(stream.skip(4) =~= message + rest);
            assert(stream =~= (header + message) + rest);
        }
    }
}

/// A whole conversation arrives: the messages of a stream of frames are the messages that were
/// framed, in the same order, and a last frame that is cut short adds nothing.
pub proof fn lemma_messages_read_back(
    order: ByteOrder,
    messages: Seq<Seq<u8>>,
    last: Seq<u8>,
    kept: int,
)
    requires
        forall|i: int| 0 <= i < messages.len() ==> fits(#[trigger] messages[i]),
        fits(last),
        0 <= kept < frame(order, last).len(),
    ensures
        messages_in(order, frames(order, messages) + frame(order, last).take(kept)) == messages,
    decreases messages.len(),
{
    let tail = frame(order, last).take(kept);
    let stream = frames(order, messages) + tail;
    if messages.len() == 0 {
        lemma_truncated_frame(order, last, kept);
        assert(stream =~= tail);
        assert(messages =~= Seq::empty());
    } else {
        let first = messages.first();
        let others = messages.drop_first();
        let rest = frames(order, others) + tail;
        assert(stream =~= frame(order, first) + rest);
        assert(fits(messages[0]));
        assert forall|i: int| 0 <= i < others.len() implies fits(#[trigger] others[i]) by {
            assert(fits(messages[i + 1]));
        }
        lemma_read_back(order, first, rest);
        lemma_messages_read_back(order, others, last, kept);
        assert(messages =~= seq![first] + others);
    }
}

/// Writing a frame is writing its length, writing the message and flushing, in this order. The
/// bytes are those of the frame, the first failure ends the attempt and is its result, and the
/// result is `Ok` exactly if all three went well.
pub proof fn lemma_write_run(order: ByteOrder, message: Seq<u8>, outcomes: Seq<Result<(), Error>>)
    requires
        outcomes.len() == 3,
    ensures
        ({
            let header = order.image(wire_len(message));
            let all = seq![
                WriteStepView::WriteAll(header),
                WriteStepView::WriteAll(message),
                WriteStepView::Flush,
            ];
            let (writing, step) = write_start(order, message);
            let (tried, result) = write_run(writing, step, outcomes);
            &&& header + message == frame(order, message)
            &&& outcomes[0] is Err ==> tried == all.take(1) && result == Some(outcomes[0])
            &&& outcomes[0] is Ok && outcomes[1] is Err ==> tried == all.take(2) && result == Some(
                outcomes[1],
            )
            &&& outcomes[0] is Ok && outcomes[1] is Ok ==> tried == all && result == Some(
                outcomes[2],
            )
        }),
{
    reveal_with_fuel(write_run, 4);
    let header = order.image(wire_len(message));
    let all = seq![
        WriteStepView::WriteAll(header),
        WriteStepView::WriteAll(message),
        WriteStepView::Flush,
    ];
    let (writing, step) = write_start(order, message);
    let (tried, result) = write_run(writing, step, outcomes);
    assert(outcomes.drop_first().first() == outcomes[1]);
    assert(outcomes.drop_first().drop_first().first() == outcomes[2]);
    if outcomes[0] is Err {
        assert(tried =~= all.take(1));
    } else if outcomes[1] is Err {
        assert(tried =~= all.take(2));
    } else {
        if let Ok(unit) = outcomes[2] {
            assert(unit == ());
        }
        assert(tried =~= all);
    }
}

/// The bytes that operations write.
pub open spec fn bytes_of(steps: Seq<WriteStepView>) -> Seq<u8>
    decreases steps.len(),
{
    if steps.len() == 0 {
        Seq::empty()
    } else {
        let bytes = match steps.first() {
            WriteStepView::WriteAll(bytes) => bytes,
            _ => Seq::empty(),
        };
        bytes + bytes_of(steps.drop_first())
    }
}

/// The bytes that are written for several messages, one after the other, if nothing fails.
pub open spec fn written(order: ByteOrder, messages: Seq<Seq<u8>>) -> Seq<u8>
    decreases messages.len(),
{
    if messages.len() == 0 {
        Seq::empty()
    } else {
        let (writing, step) = write_start(order, messages.first());
        let fine = Ok::<(), Error>(());
        let (tried, _) = write_run(writing, step, seq![fine, fine, fine]);
        bytes_of(tried) + written(order, messages.drop_first())
    }
}

/// Writing messages puts their frames on the wire, in order and with nothing in between.
pub proof fn lemma_written(order: ByteOrder, messages: Seq<Seq<u8>>)
    ensures
        written(order, messages) == frames(order, messages),
    decreases messages.len(),
{
    if messages.len() > 0 {
        let message = messages.first();
        let fine = Ok::<(), Error>(());
        let (writing, step) = write_start(order, message);
        let (tried, _) = write_run(writing, step, seq![fine, fine, fine]);
        lemma_write_run(order, message, seq![fine, fine, fine]);
        reveal_with_fuel(bytes_of, 4);
        assert(bytes_of(tried) =~= frame(order, message));
        lemma_written(order, messages.drop_first());
    }
}

// ---------------------------------------------------------------------------------------------
// What the calls do

/// A frame is four bytes that spell the length of the message, and then the message.
pub proof fn lemma_frame_layout(order: ByteOrder, message: Seq<u8>)
    ensures
        frame(order, message).len() == 4 + message.len(),
        order.value(frame(order, message).take(4)) == message.len() % 0x1_0000_0000,
        frame(order, message).skip(4) == message,
        fits(message) <==> message.len() < 0x1_0000_0000,
        fits(message) ==> order.value(frame(order, message).take(4)) == message.len(),
{
    lemma_image_value(order, wire_len(message), Seq::empty());
    assert(frame(order, message).take(4) =~= order.image(wire_len(message)));
    assert(frame(order, message).skip(4) =~= message);
}

/// The bytes of several messages are those of the first ones followed by those of the others, down
/// to single messages, which are frames.
pub proof fn lemma_frames_joined(order: ByteOrder, first: Seq<Seq<u8>>, others: Seq<Seq<u8>>)
    ensures
        frames(order, first + others) == frames(order, first) + frames(order, others),
        first.len() == 0 ==> frames(order, first) == Seq::<u8>::empty(),
        first.len() == 1 ==> frames(order, first) == frame(order, first[0]),
    decreases first.len(),
{
    if first.len() == 0 {
        assert(first + others =~= others);
        assert(frames(order, first) + frames(order, others) =~= frames(order, others));
    } else {
        let tail = first.drop_first();
        lemma_frames_joined(order, tail, others);
        assert((first + others).drop_first() =~= tail + others);
        assert((first + others).first() == first.first());
        assert(frames(order, first + others) =~= frames(order, first) + frames(order, others));
        if first.len() == 1 {
            assert(frames(order, first) =~= frame(order, first[0]));
        }
    }
}

/// Four bytes are wanted for a length, and for a message as many as its length says.
pub proof fn lemma_wanted(len: u32)
    ensures
        Receiving::Header.wanted() == 4,
        Receiving::Body(len).wanted() == len,
{
}

/// Reading a message starts with its length. Four bytes that spell a length other than zero lead
/// to as many more; four that spell zero are a message without bytes; and once the bytes of a
/// message have been read, they are the message. A failure ends the attempt, and is its result.
pub proof fn lemma_read_step(
    receiving: Receiving,
    order: ByteOrder,
    outcome: Result<Vec<u8>, Error>,
    step: ReadStep,
    start: Receiving,
)
    requires
        call_ensures(Receiving::on_read, (receiving, order, outcome), step),
        call_ensures(receive_next, (), start),
    ensures
        start == Receiving::Header,
        outcome matches Err(error) ==> step == ReadStep::Done(Err(error)),
        outcome matches Ok(bytes) ==> {
            &&& receiving is Header && order.value(bytes@) > 0 ==> step == ReadStep::More(
                Receiving::Body(order.value(bytes@)),
            )
            &&& receiving is Header && order.value(bytes@) == 0 ==> (step matches ReadStep::Done(
                Ok(message),
            ) && message@.len() == 0)
            &&& receiving is Body ==> (step matches ReadStep::Done(Ok(message)) && message@
                == bytes@)
        },
{
}

/// Writing a message hands over four bytes that spell its length, then the message itself, then a
/// flush, and is done.
pub proof fn lemma_write_calls(
    order: ByteOrder,
    message: Vec<u8>,
    first: (Writing, WriteStep),
    second: (Writing, WriteStep),
    third: (Writing, WriteStep),
    last: (Writing, WriteStep),
)
    requires
        call_ensures(write, (order, message), first),
        call_ensures(Writing::on_written, (first.0, Ok::<(), Error>(())), second),
        call_ensures(Writing::on_written, (second.0, Ok::<(), Error>(())), third),
        call_ensures(Writing::on_written, (third.0, Ok::<(), Error>(())), last),
    ensures
        first.1 matches WriteStep::WriteAll(header) && {
            &&& header@.len() == 4
            &&& order.value(header@) == message@.len() % 0x1_0000_0000
            &&& header@ + message@ == frame(order, message@)
        },
        second.1 matches WriteStep::WriteAll(body) && body@ == message@,
        third.1 is Flush,
        last.1 == WriteStep::Done(Ok(())),
{
    lemma_image_value(order, wire_len(message@), Seq::empty());
}

/// Whatever is under way, a failure to write ends the attempt, and is its result.
pub proof fn lemma_write_failure(writing: Writing, error: Error, next: (Writing, WriteStep))
    requires
        call_ensures(Writing::on_written, (writing, Err::<(), Error>(error)), next),
    ensures
        next.1 == WriteStep::Done(Err(error)),
{
}

/// What one end writes for a message, the other end reads as that message, whatever its length:
/// the four bytes make it ask for as many bytes as the message has, and these are the message.
pub proof fn lemma_written_is_read(
    order: ByteOrder,
    message: Vec<u8>,
    first: (Writing, WriteStep),
    header: Vec<u8>,
    second: (Writing, WriteStep),
    body: Vec<u8>,
    step: ReadStep,
    done: ReadStep,
)
    requires
        0 < message@.len() < 0x1_0000_0000,
        call_ensures(write, (order, message), first),
        first.1 == WriteStep::WriteAll(header),
        call_ensures(Writing::on_written, (first.0, Ok::<(), Error>(())), second),
        second.1 == WriteStep::WriteAll(body),
        call_ensures(
            Receiving::on_read,
            (Receiving::Header, order, Ok::<Vec<u8>, Error>(header)),
            step,
        ),
        call_ensures(
            Receiving::on_read,
            (step->More_0, order, Ok::<Vec<u8>, Error>(body)),
            done,
        ),
    ensures
        step matches ReadStep::More(receiving) && receiving.wanted() == message@.len(),
        done matches ReadStep::Done(Ok(read)) && read@ == message@,
{
    lemma_image_value(order, wire_len(message@), Seq::empty());
}

} // verus!
