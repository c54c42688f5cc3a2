//! The decisions of a server, one at a time.
use std::io::{Error, ErrorKind};

use ez_api::connections::Connections;
use ez_api::server::{
    on_enqueued, on_reply, AcceptAction, Enqueued, HandleAction, HandleConnection, HandlePhase,
    ReadAction, SendAction, SendError, SendStart,
};
use ez_api::{Addr, ByteOrder, Codec, Continue, Event, Server};

#[derive(Clone)]
struct ByteCodec;

impl Codec<u8, u8> for ByteCodec {
    type TErr = usize;
    fn encode(&self, outgoing: u8) -> Vec<u8> {
        vec![outgoing]
    }
    fn decode(&self, incoming: Vec<u8>) -> Result<u8, (usize, Continue)> {
        if incoming.len() == 1 {
            Ok(incoming[0])
        } else {
            Err((incoming.len(), Continue(true)))
        }
    }
}

type ByteServer = Server<u8, u8, ByteCodec, u64>;

fn addr(port: u16) -> Addr {
    Addr::V4 { ip4: 0x7f00_0001, port }
}

fn server() -> ByteServer {
    ByteServer::bind_with(Ok(addr(1)), ByteCodec {}, ByteOrder::Little).unwrap()
}

#[test]
fn binding_passes_errors_on() {
    let failure = Error::from(ErrorKind::AddrInUse);
    let Err(error) = ByteServer::bind(Err(failure), ByteCodec {}) else {
        panic!("bound")
    };
    assert_eq!(ErrorKind::AddrInUse, error.kind());
    let server = ByteServer::bind(Ok(addr(1)), ByteCodec {}).unwrap();
    assert_eq!(addr(1), server.local_addr());
}

#[test]
fn accepting() {
    let mut server = server();
    assert_eq!(AcceptAction::Serve(addr(2)), server.accept_connections(Ok(addr(2))));
    let would_block = Err(ez_api::ErrorKind::WouldBlock);
    assert_eq!(AcceptAction::Retry, server.accept_connections(would_block));
    let other = Err(ez_api::ErrorKind::Other);
    assert_eq!(AcceptAction::Panic, server.accept_connections(other));
    let not_connected = Err(ez_api::ErrorKind::NotConnected);
    assert_eq!(AcceptAction::Panic, server.accept_connections(not_connected));

    server.shut_down();
    assert_eq!(AcceptAction::Serve(addr(2)), server.accept_connections(Ok(addr(2))));
    assert_eq!(AcceptAction::Stop, server.accept_connections(would_block));
    assert_eq!(AcceptAction::Panic, server.accept_connections(other));
}

#[test]
fn life_of_a_connection() {
    let mut server = server();
    let (handling, action) = server.handle_connection(addr(2), 20);
    assert!(matches!(action, HandleAction::Deliver(to, Event::Connect) if to == addr(2)));
    assert!(matches!(server.send(addr(2), 5), SendStart::Enqueue(&20, 5)));
    let (handling, action): (HandleConnection, HandleAction<u8, usize>) =
        handling.on_delivered(true);
    assert!(matches!(action, HandleAction::Serve));
    let (handling, action) = handling.on_served(&mut server);
    assert!(matches!(action, HandleAction::Shutdown));
    assert!(matches!(
        server.send(addr(2), 5),
        SendStart::Done(Err(SendError::AddrNotFound))
    ));
    let (handling, action): (HandleConnection, HandleAction<u8, usize>) =
        handling.on_shutdown(Ok(()));
    assert!(matches!(action, HandleAction::Deliver(to, Event::Disconnect) if to == addr(2)));
    let (handling, action): (HandleConnection, HandleAction<u8, usize>) =
        handling.on_delivered(true);
    assert!(matches!(action, HandleAction::Finish));
    assert_eq!(HandlePhase::Finished, handling.phase);
}

#[test]
fn connection_panics_without_a_sink() {
    let mut server = server();
    let (handling, _) = server.handle_connection(addr(2), 20);
    let (_, action): (HandleConnection, HandleAction<u8, usize>) = handling.on_delivered(false);
    assert!(matches!(action, HandleAction::Panic));
    // the client stays registered
    assert!(matches!(server.send(addr(2), 5), SendStart::Enqueue(&20, 5)));
}

#[test]
fn connection_panics_if_the_socket_cannot_be_shut_down() {
    let handling = HandleConnection { addr: addr(2), phase: HandlePhase::ShuttingDown };
    let (_, action): (HandleConnection, HandleAction<u8, usize>) =
        handling.on_shutdown(Err(ez_api::ErrorKind::NotConnected));
    assert!(matches!(action, HandleAction::Panic));
}

#[test]
fn broadcast_reaches_every_client_once() {
    let mut server = server();
    assert!(server.broadcast(9).is_empty());
    for port in 2..6 {
        server.handle_connection(addr(port), port as u64);
    }
    server.handle_connection(addr(3), 33);
    let mut sends = server.broadcast(9);
    sends.sort_by_key(|(to, _)| match to {
        Addr::V4 { port, .. } => *port,
        Addr::V6 { port, .. } => *port,
    });
    assert_eq!(vec![(addr(2), 9), (addr(3), 9), (addr(4), 9), (addr(5), 9)], sends);
}

#[test]
fn closing_takes_out_all_connections() {
    let mut server = server();
    server.handle_connection(addr(2), 20);
    server.handle_connection(addr(3), 30);
    let mut closed = server.close_all();
    closed.sort_by_key(|(_, queue)| *queue);
    assert_eq!(vec![(addr(2), 20), (addr(3), 30)], closed);
    assert!(server.close_all().is_empty());
    assert!(server.broadcast(1).is_empty());
}

#[test]
fn results_of_sending() {
    assert!(matches!(on_enqueued(true), Enqueued::AwaitReply));
    assert!(matches!(
        on_enqueued(false),
        Enqueued::Done(Err(SendError::BrokenChannel))
    ));
    assert!(matches!(on_reply(None), Err(SendError::BrokenChannel)));
    assert!(on_reply(Some(Ok(()))).is_ok());
    let failure = SendError::IoError(Error::from(ErrorKind::BrokenPipe));
    assert!(matches!(on_reply(Some(Err(failure))), Err(SendError::IoError(_))));
}

#[test]
fn sending_messages() {
    let server = server();
    let (sending, action) = server.send_messages(&server.read_messages(addr(2)).0);
    assert!(matches!(action, SendAction::Receive));
    let (sending, action) = sending.on_request(Some(200));
    assert!(matches!(action, SendAction::WriteAll(bytes) if bytes == vec![1, 0, 0, 0]));
    let (sending, action) = sending.on_written(Ok(()));
    assert!(matches!(action, SendAction::WriteAll(bytes) if bytes == vec![200]));
    let (sending, action) = sending.on_written(Ok(()));
    assert!(matches!(action, SendAction::Flush));
    let (sending, action) = sending.on_written(Ok(()));
    assert!(matches!(action, SendAction::Reply(Ok(()))));
    let (sending, action) = sending.on_replied();
    assert!(matches!(action, SendAction::Receive));

    // a failure is answered, and the next message is sent all the same
    let (sending, _) = sending.on_encoded(vec![1, 2]);
    let (sending, action) = sending.on_written(Err(Error::from(ErrorKind::BrokenPipe)));
    assert!(matches!(action, SendAction::Reply(Err(SendError::IoError(_)))));
    let (sending, action) = sending.on_replied();
    assert!(matches!(action, SendAction::Receive));
    let (sending, action) = sending.on_request(Some(7));
    assert!(matches!(action, SendAction::WriteAll(_)));
    let (sending, _) = sending.on_written(Err(Error::from(ErrorKind::BrokenPipe)));
    let (sending, _) = sending.on_replied();
    let (_, action) = sending.on_request(None);
    assert!(matches!(action, SendAction::Return(Ok(()))));
}

#[test]
fn reading_messages() {
    let (reading, action) = server().read_messages(addr(2));
    assert!(matches!(action, ReadAction::Read(4)));
    let (reading, action) = reading.on_read(Ok(vec![1, 0, 0, 0]));
    assert!(matches!(action, ReadAction::Read(1)));
    let (reading, action) = reading.on_read(Ok(vec![77]));
    assert!(matches!(action, ReadAction::Deliver(from, Event::Data(77)) if from == addr(2)));
    let (reading, action) = reading.on_delivered(true);
    assert!(matches!(action, ReadAction::Read(4)));
    // an empty message is the last one, even if the codec would go on
    let (reading, action) = reading.on_read(Ok(vec![0, 0, 0, 0]));
    assert!(matches!(action, ReadAction::Deliver(_, Event::Error(_))));
    let (_, action) = reading.on_delivered(true);
    assert!(matches!(action, ReadAction::Return));
}

#[test]
fn decoded_messages() {
    let read = || server().read_messages(addr(2)).0;
    let (reading, _) = read().on_decoded(false, Ok(1));
    assert!(matches!(reading.on_delivered(true).1, ReadAction::Read(4)));
    let (reading, _) = read().on_decoded(false, Ok(1));
    assert!(matches!(reading.on_delivered(false).1, ReadAction::Return));
    let (reading, _) = read().on_decoded(true, Ok(1));
    assert!(matches!(reading.on_delivered(true).1, ReadAction::Return));
    let (reading, _) = read().on_decoded(false, Err((2, Continue(true))));
    assert!(matches!(reading.on_delivered(true).1, ReadAction::Read(4)));
    let (reading, _) = read().on_decoded(false, Err((2, Continue(false))));
    assert!(matches!(reading.on_delivered(true).1, ReadAction::Return));
}

/// Shifts every byte by a number of its own.
#[derive(Clone)]
struct ShiftCodec(u8);

impl Codec<u8, u8> for ShiftCodec {
    type TErr = usize;
    fn encode(&self, outgoing: u8) -> Vec<u8> {
        vec![outgoing + self.0]
    }
    fn decode(&self, incoming: Vec<u8>) -> Result<u8, (usize, Continue)> {
        Ok(incoming[0] - self.0)
    }
}

#[test]
fn connections_are_served_with_the_codec_of_the_server() {
    for shift in [3, 40] {
        let server: Server<u8, u8, ShiftCodec, u64> =
            Server::bind_with(Ok(addr(1)), ShiftCodec(shift), ByteOrder::Little).unwrap();
        let (reading, _) = server.read_messages(addr(2));
        let (sending, _) = server.send_messages(&reading);
        let (reading, _) = reading.on_read(Ok(vec![1, 0, 0, 0]));
        let (_, action) = reading.on_read(Ok(vec![100 + shift]));
        assert!(matches!(action, ReadAction::Deliver(_, Event::Data(100))));
        let (sending, _) = sending.on_request(Some(100));
        let (_, action) = sending.on_written(Ok(()));
        assert!(matches!(action, SendAction::WriteAll(bytes) if bytes == vec![100 + shift]));
    }
}

/// A codec that knows how many times it was cloned, and puts this into every message.
struct CountingCodec(u8);

impl Clone for CountingCodec {
    fn clone(&self) -> Self {
        CountingCodec(self.0 + 1)
    }
}

impl Codec<u8, u8> for CountingCodec {
    type TErr = usize;
    fn encode(&self, _outgoing: u8) -> Vec<u8> {
        vec![self.0]
    }
    fn decode(&self, _incoming: Vec<u8>) -> Result<u8, (usize, Continue)> {
        Ok(self.0)
    }
}

#[test]
fn writer_has_a_clone_of_the_codec_of_its_connection() {
    let server: Server<u8, u8, CountingCodec, u64> =
        Server::bind_with(Ok(addr(1)), CountingCodec(0), ByteOrder::Little).unwrap();
    for _ in 0..2 {
        let (reading, _) = server.read_messages(addr(2));
        let (sending, _) = server.send_messages(&reading);
        let (_, action) = reading.on_read(Ok(vec![0, 0, 0, 0]));
        assert!(matches!(action, ReadAction::Deliver(_, Event::Data(1))));
        let (sending, _) = sending.on_request(Some(0));
        let (_, action) = sending.on_written(Ok(()));
        assert!(matches!(action, SendAction::WriteAll(bytes) if bytes == vec![2]));
    }
}

/// All that is written to each client, by its queue, when `value` is sent to all of them.
fn written_to_all(server: &ByteServer, value: u8) -> Vec<(u64, Vec<u8>)> {
    let mut all: Vec<(u64, Vec<u8>)> = Vec::new();
    for (who, message) in server.broadcast(value) {
        let SendStart::Enqueue(queue, message) = server.send(who, message) else {
            panic!("no queue")
        };
        let (sending, _) = server.send_messages(&server.read_messages(who).0);
        let mut step = sending.on_request(Some(message));
        let mut bytes: Vec<u8> = Vec::new();
        let mut flushed = false;
        loop {
            let (sending, action) = step;
            match action {
                SendAction::WriteAll(part) => bytes.extend(part),
                SendAction::Flush => flushed = true,
                SendAction::Reply(result) => {
                    assert!(result.is_ok());
                    break;
                }
                _ => panic!("neither written nor answered"),
            }
            step = sending.on_written(Ok(()));
        }
        assert!(flushed);
        all.push((*queue, bytes));
    }
    all.sort();
    all
}

#[test]
fn message_to_all_is_one_frame_to_each() {
    let mut server = server();
    assert!(written_to_all(&server, 9).is_empty());
    let _ = server.handle_connection(addr(2), 20);
    let (leaving, _) = server.handle_connection(addr(3), 30);
    let _ = server.handle_connection(addr(4), 40);
    let frame: Vec<u8> = vec![1, 0, 0, 0, 9];
    assert_eq!(
        vec![(20, frame.clone()), (30, frame.clone()), (40, frame.clone())],
        written_to_all(&server, 9)
    );
    let (leaving, _) = leaving.on_delivered::<u8, usize>(true);
    let _ = leaving.on_served(&mut server);
    assert_eq!(vec![(20, frame.clone()), (40, frame)], written_to_all(&server, 9));
}

#[test]
fn table_of_connections() {
    let mut connections: Connections<u64> = Connections::new();
    assert_eq!(None, connections.get(addr(2)));
    assert_eq!(None, connections.insert(addr(2), 20));
    assert_eq!(None, connections.insert(addr(3), 30));
    assert_eq!(Some(20), connections.insert(addr(2), 21));
    assert_eq!(Some(&21), connections.get(addr(2)));
    assert_eq!(2, connections.addrs().len());
    assert_eq!(Some(30), connections.remove(addr(3)));
    assert_eq!(None, connections.remove(addr(3)));
    assert_eq!(vec![addr(2)], connections.addrs());
    assert_eq!(vec![(addr(2), 21)], connections.take_all());
    assert_eq!(None, connections.get(addr(2)));
}
