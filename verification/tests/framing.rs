//! Byte order, frames, and how they are read and written.
use std::io::{Error, ErrorKind};

use ez_api::read_write::{receive_next, ReadStep, Receiving, WriteStep, Writing};
use ez_api::{Addr, ByteOrder, Client, Codec, Continue, Server};

#[derive(Clone)]
struct RawCodec;

impl Codec<Vec<u8>, Vec<u8>> for RawCodec {
    type TErr = String;
    fn encode(&self, outgoing: Vec<u8>) -> Vec<u8> {
        outgoing
    }
    fn decode(&self, incoming: Vec<u8>) -> Result<Vec<u8>, (String, Continue)> {
        Ok(incoming)
    }
}

const HERE: Addr = Addr::V6 { ip6: 1, port: 7000, flowinfo: 0, scope_id: 0 };
const THERE: Addr = Addr::V6 { ip6: 1, port: 7001, flowinfo: 0, scope_id: 0 };

/// The bytes that are written for a message, with every operation going well.
fn written(order: ByteOrder, message: &[u8]) -> Vec<u8> {
    let mut bytes = Vec::new();
    let mut flushed = false;
    let (mut writing, mut step): (Writing, WriteStep) =
        ez_api::read_write::write(order, message.to_vec());
    loop {
        match step {
            WriteStep::WriteAll(more) => {
                assert!(!flushed);
                bytes.extend(more);
            }
            WriteStep::Flush => flushed = true,
            WriteStep::Done(result) => {
                result.unwrap();
                assert!(flushed);
                return bytes;
            }
        }
        (writing, step) = writing.on_written(Ok(()));
    }
}

/// The first message in a stream and what follows it, or nothing if the stream ends before.
fn read(order: ByteOrder, stream: &[u8]) -> Option<(Vec<u8>, Vec<u8>)> {
    let mut receiving = receive_next();
    let mut rest = stream.to_vec();
    loop {
        let wanted = receiving.wanted();
        if rest.len() < wanted {
            return None;
        }
        let left = rest.split_off(wanted);
        let step = receiving.on_read(order, Ok(rest));
        rest = left;
        match step {
            ReadStep::More(next) => receiving = next,
            ReadStep::Done(message) => return Some((message.unwrap(), rest)),
        }
    }
}

#[test]
fn encoded_lengths() {
    assert_eq!(vec![4, 3, 2, 1], ByteOrder::Little.encode(0x0102_0304));
    assert_eq!(vec![1, 2, 3, 4], ByteOrder::Big.encode(0x0102_0304));
    assert_eq!(vec![255, 255, 255, 255], ByteOrder::Big.encode(u32::MAX));
    assert_eq!(0x0102_0304, ByteOrder::Little.decode(&vec![4, 3, 2, 1]));
    assert_eq!(0x0102_0304, ByteOrder::Big.decode(&vec![1, 2, 3, 4]));
}

#[test]
fn encode_and_decode_undo_each_other() {
    for order in [ByteOrder::Little, ByteOrder::Big] {
        for value in [0, 1, 255, 256, 65535, 65536, 0xdead_beef, u32::MAX] {
            assert_eq!(value, order.decode(&order.encode(value)));
        }
    }
}

#[test]
fn order_of_an_image() {
    assert_eq!(Some(ByteOrder::Little), ByteOrder::of_image([1, 0, 0, 0]));
    assert_eq!(Some(ByteOrder::Big), ByteOrder::of_image([0, 0, 0, 1]));
    assert_eq!(None, ByteOrder::of_image([0, 1, 0, 0]));
    assert_eq!(None, ByteOrder::of_image([1, 0, 0, 1]));
}

#[test]
fn lengths_travel_in_the_order_of_the_machine() {
    let server: Server<Vec<u8>, Vec<u8>, RawCodec, u64> =
        Server::bind(Ok(HERE), RawCodec {}).unwrap();
    let client: Client<Vec<u8>, Vec<u8>, RawCodec> =
        Client::connect(Ok((THERE, HERE)), RawCodec {}).unwrap();
    let value: u32 = 0x0102_0304;
    assert_eq!(value.to_ne_bytes().to_vec(), ByteOrder::native().encode(value));
    assert_eq!(u32::from_ne_bytes([1, 2, 3, 4]), ByteOrder::native().decode(&vec![1, 2, 3, 4]));
    assert_eq!(value.to_ne_bytes().to_vec(), server.byte_order().encode(value));
    assert_eq!(value.to_ne_bytes().to_vec(), client.byte_order().encode(value));
    let Ok((_, WriteStep::WriteAll(header))) = client.send(vec![7; 300]) else {
        panic!("not sent")
    };
    assert_eq!(300u32.to_ne_bytes().to_vec(), header);
}

#[test]
fn frames_of_messages() {
    assert_eq!(vec![0, 0, 0, 0], written(ByteOrder::Little, &[]));
    assert_eq!(vec![3, 0, 0, 0, 7, 8, 9], written(ByteOrder::Little, &[7, 8, 9]));
    assert_eq!(vec![0, 0, 0, 3, 7, 8, 9], written(ByteOrder::Big, &[7, 8, 9]));
    assert_eq!(vec![0, 0, 1, 44], written(ByteOrder::Big, &[5; 300])[..4].to_vec());
}

#[test]
fn reading_gives_back_what_was_written() {
    for order in [ByteOrder::Little, ByteOrder::Big] {
        for message in [vec![], vec![1], vec![1, 2, 3], vec![9; 70000]] {
            let mut stream = written(order, &message);
            stream.extend([42, 43]);
            assert_eq!(Some((message, vec![42, 43])), read(order, &stream));
        }
    }
}

#[test]
fn truncated_frame_yields_nothing() {
    let frame = written(ByteOrder::Little, &[7, 8, 9]);
    for kept in 0..frame.len() {
        assert_eq!(None, read(ByteOrder::Little, &frame[..kept]));
    }
}

#[test]
fn steps_of_reading() {
    let receiving = receive_next();
    assert_eq!(Receiving::Header, receiving);
    assert_eq!(4, receiving.wanted());
    let ReadStep::More(receiving) = receiving.on_read(ByteOrder::Big, Ok(vec![0, 0, 1, 0])) else {
        panic!("complete")
    };
    assert_eq!(Receiving::Body(256), receiving);
    assert_eq!(256, receiving.wanted());
    let failure = Error::from(ErrorKind::UnexpectedEof);
    let ReadStep::Done(Err(error)) = receiving.on_read(ByteOrder::Big, Err(failure)) else {
        panic!("did not fail")
    };
    assert_eq!(ErrorKind::UnexpectedEof, error.kind());
}

#[test]
fn first_failure_ends_writing() {
    for good in 0..3 {
        let (mut writing, mut step): (Writing, WriteStep) =
            ez_api::read_write::write(ByteOrder::Little, vec![1, 2]);
        for _ in 0..good {
            assert!(!matches!(step, WriteStep::Done(_)));
            (writing, step) = writing.on_written(Ok(()));
        }
        assert!(!matches!(step, WriteStep::Done(_)));
        (writing, step) = writing.on_written(Err(Error::from(ErrorKind::BrokenPipe)));
        let WriteStep::Done(Err(error)) = step else {
            panic!("went on")
        };
        assert_eq!(ErrorKind::BrokenPipe, error.kind());
        assert!(matches!(writing, Writing::Done));
    }
}

#[test]
fn client_and_server_frame_alike() {
    let client: Client<Vec<u8>, Vec<u8>, RawCodec> =
        Client::connect_with(Ok((THERE, HERE)), RawCodec {}, ByteOrder::Big).unwrap();
    let Ok((writing, WriteStep::WriteAll(header))) = client.send(vec![6, 7]) else {
        panic!("not sent")
    };
    assert_eq!(vec![0, 0, 0, 2], header);
    let (_, WriteStep::WriteAll(body)) = writing.on_written(Ok(())) else {
        panic!("no message")
    };
    assert_eq!(vec![6, 7], body);
}
