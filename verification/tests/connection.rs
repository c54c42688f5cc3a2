//! A client and a server, joined by two byte streams in memory.
use std::collections::VecDeque;
use std::io::{Error, ErrorKind};

use ez_api::client::{ReceiveAction, ReceiveMessages};
use ez_api::read_write::{WriteStep, Writing};
use ez_api::server::{
    on_enqueued, on_reply, AcceptAction, Enqueued, HandleAction, HandleConnection, ReadAction,
    ReadMessages, ReceiveError, SendAction, SendMessages, SendStart,
};
use ez_api::{client, server, Addr, Client, Codec, Continue, Event, Server};

#[derive(Clone)]
struct StringCodec;

impl Codec<String, String> for StringCodec {
    type TErr = String;
    fn encode(&self, outgoing: String) -> Vec<u8> {
        outgoing.into_bytes()
    }
    fn decode(&self, incoming: Vec<u8>) -> Result<String, (String, Continue)> {
        Ok(String::from_utf8(incoming).unwrap())
    }
}

#[derive(Clone)]
struct RawCodec;

impl Codec<Vec<u8>, Vec<u8>> for RawCodec {
    type TErr = String;
    fn encode(&self, outgoing: Vec<u8>) -> Vec<u8> {
        outgoing
    }
    fn decode(&self, incoming: Vec<u8>) -> Result<Vec<u8>, (String, Continue)> {
        Ok(incoming)
    }
}

/// A codec that rejects messages which begin with `!` and ends the connection at `!!`.
#[derive(Clone)]
struct PickyCodec;

impl Codec<String, String> for PickyCodec {
    type TErr = String;
    fn encode(&self, outgoing: String) -> Vec<u8> {
        outgoing.into_bytes()
    }
    fn decode(&self, incoming: Vec<u8>) -> Result<String, (String, Continue)> {
        let text = String::from_utf8(incoming).unwrap();
        if text.starts_with("!!") {
            Err((text, Continue(false)))
        } else if text.starts_with('!') {
            Err((text, Continue(true)))
        } else {
            Ok(text)
        }
    }
}

const SERVER: Addr = Addr::V4 { ip4: 0x7f00_0001, port: 7000 };
const CLIENT: Addr = Addr::V4 { ip4: 0x7f00_0001, port: 7001 };

/// One direction of a connection.
struct Stream {
    bytes: VecDeque<u8>,
    closed: bool,
}

impl Stream {
    fn new() -> Self {
        Stream { bytes: VecDeque::new(), closed: false }
    }

    /// The next bytes, the end of the stream, or nothing yet.
    fn read_exact(&mut self, len: usize) -> Option<Result<Vec<u8>, Error>> {
        if self.bytes.len() >= len {
            Some(Ok(self.bytes.drain(..len).collect()))
        } else if self.closed {
            Some(Err(Error::from(ErrorKind::UnexpectedEof)))
        } else {
            None
        }
    }

    fn write_all(&mut self, bytes: Vec<u8>) -> Result<(), Error> {
        if self.closed {
            Err(Error::from(ErrorKind::BrokenPipe))
        } else {
            self.bytes.extend(bytes);
            Ok(())
        }
    }
}

/// The receiving end of what a server or a client reports.
struct Sink<T> {
    items: VecDeque<T>,
    open: bool,
}

impl<T> Sink<T> {
    fn new() -> Self {
        Sink { items: VecDeque::new(), open: true }
    }

    fn send(&mut self, item: T) -> bool {
        if self.open {
            self.items.push_back(item);
        }
        self.open
    }
}

type ClientItem<Tin, TErr> = Result<Tin, client::ReceiveError<TErr>>;

struct World<Tin, Tout, C: Codec<Tin, Tout>> {
    server: Server<Tin, Tout, C, u64>,
    server_sink: Sink<(Addr, Event<Tin, C::TErr>)>,
    handling: Option<(HandleConnection, HandleAction<Tin, C::TErr>)>,
    reading: Option<(ReadMessages<C>, ReadAction<Tin, C::TErr>)>,
    sending: Option<SendMessages<C>>,
    server_panicked: bool,
    client: Client<Tin, Tout, C>,
    client_sink: Sink<ClientItem<Tin, C::TErr>>,
    receiving: Option<(ReceiveMessages<C>, ReceiveAction<Tin, C::TErr>)>,
    to_server: Stream,
    to_client: Stream,
}

impl<Tin, Tout, C: Codec<Tin, Tout>> World<Tin, Tout, C> {
    /// A server, and a client that has just connected to it.
    fn new(codec: C) -> Self {
        let mut server: Server<Tin, Tout, C, u64> =
            Server::bind(Ok(SERVER), codec.clone()).unwrap();
        let client: Client<Tin, Tout, C> =
            Client::connect(Ok((CLIENT, server.local_addr())), codec).unwrap();
        let AcceptAction::Serve(addr) = server.accept_connections(Ok(CLIENT)) else {
            panic!("not accepted")
        };
        let receiving = client.receive_messages();
        let handling = server.handle_connection(addr, 1);
        let mut world = World {
            server,
            server_sink: Sink::new(),
            handling: Some(handling),
            reading: None,
            sending: None,
            server_panicked: false,
            client,
            client_sink: Sink::new(),
            receiving: Some(receiving),
            to_server: Stream::new(),
            to_client: Stream::new(),
        };
        world.run();
        world
    }

    /// Lets both sides go on until both wait for bytes.
    fn run(&mut self) {
        while self.run_server() || self.run_reader() || self.run_client() {}
    }

    fn run_server(&mut self) -> bool {
        let Some((handling, action)) = self.handling.take() else {
            return false;
        };
        match action {
            HandleAction::Deliver(addr, event) => {
                let accepted = self.server_sink.send((addr, event));
                self.handling = Some(handling.on_delivered(accepted));
            }
            HandleAction::Serve => {
                if self.reading.is_none() && self.sending.is_none() {
                    let reading = self.server.read_messages(handling.addr);
                    self.sending = Some(self.server.send_messages(&reading.0).0);
                    self.reading = Some(reading);
                    self.handling = Some((handling, HandleAction::Serve));
                } else if self.reading.is_none() {
                    self.handling = Some(handling.on_served(&mut self.server));
                } else {
                    self.handling = Some((handling, HandleAction::Serve));
                    return false;
                }
            }
            HandleAction::Shutdown => {
                self.to_server.closed = true;
                self.to_client.closed = true;
                self.handling = Some(handling.on_shutdown(Ok(())));
            }
            HandleAction::Finish => {}
            HandleAction::Panic => self.server_panicked = true,
        }
        true
    }

    fn run_reader(&mut self) -> bool {
        let Some((reading, action)) = self.reading.take() else {
            return false;
        };
        match action {
            ReadAction::Read(len) => match self.to_server.read_exact(len) {
                Some(outcome) => self.reading = Some(reading.on_read(outcome)),
                None => {
                    self.reading = Some((reading, ReadAction::Read(len)));
                    return false;
                }
            },
            ReadAction::Deliver(addr, event) => {
                let accepted = self.server_sink.send((addr, event));
                self.reading = Some(reading.on_delivered(accepted));
            }
            ReadAction::Return => {}
        }
        true
    }

    fn run_client(&mut self) -> bool {
        let Some((receiving, action)) = self.receiving.take() else {
            return false;
        };
        self.client.observe(receiving.phase());
        match action {
            ReceiveAction::Read(len) => match self.to_client.read_exact(len) {
                Some(outcome) => self.receiving = Some(receiving.on_read(outcome)),
                None => {
                    self.receiving = Some((receiving, ReceiveAction::Read(len)));
                    return false;
                }
            },
            ReceiveAction::Deliver(item) => {
                if matches!(item, Err(client::ReceiveError::IoError(_))) {
                    assert!(!self.client.online());
                }
                let accepted = self.client_sink.send(item);
                self.receiving = Some(receiving.on_delivered(accepted));
            }
            ReceiveAction::Shutdown => {
                self.to_server.closed = true;
                self.to_client.closed = true;
                self.receiving = Some(receiving.on_shutdown(Err(ez_api::ErrorKind::NotConnected)));
            }
            ReceiveAction::Finish => {}
            ReceiveAction::Panic => panic!("receiving panicked"),
        }
        true
    }

    fn client_send(&mut self, message: Tout) -> Result<(), client::SendError> {
        let (mut writing, mut step): (Writing, WriteStep) = self.client.send(message)?;
        let written = loop {
            let outcome = match step {
                WriteStep::WriteAll(bytes) => self.to_server.write_all(bytes),
                WriteStep::Flush => Ok(()),
                WriteStep::Done(result) => break result,
            };
            (writing, step) = writing.on_written(outcome);
        };
        let result = Client::<Tin, Tout, C>::sent(written);
        self.run();
        result
    }

    fn server_send(&mut self, who: Addr, value: Tout) -> Result<(), server::SendError> {
        let message = match self.server.send(who, value) {
            SendStart::Enqueue(queue, message) => {
                assert_eq!(1, *queue);
                message
            }
            SendStart::Done(result) => return result,
        };
        let sending = match self.sending.take() {
            Some(sending) => sending,
            None => match on_enqueued(false) {
                Enqueued::AwaitReply => panic!("awaits a reply"),
                Enqueued::Done(result) => return result,
            },
        };
        assert!(matches!(on_enqueued(true), Enqueued::AwaitReply));
        let (mut sending, mut action) = sending.on_request(Some(message));
        let result = loop {
            let outcome = match action {
                SendAction::WriteAll(bytes) => self.to_client.write_all(bytes),
                SendAction::Flush => Ok(()),
                SendAction::Reply(result) => break on_reply(Some(result)),
                _ => panic!("unexpected action"),
            };
            (sending, action) = sending.on_written(outcome);
        };
        let (sending, action) = sending.on_replied();
        assert!(matches!(action, SendAction::Receive));
        self.sending = Some(sending);
        self.run();
        result
    }

    fn drop_client(&mut self) {
        self.to_server.closed = true;
        self.to_client.closed = true;
        self.run();
    }

    fn drop_server(&mut self) {
        self.server.shut_down();
        let idle = Err(ez_api::ErrorKind::WouldBlock);
        assert_eq!(AcceptAction::Stop, self.server.accept_connections(idle));
        for (addr, queue) in self.server.close_all() {
            assert_eq!((CLIENT, 1), (addr, queue));
            let sending = self.sending.take().unwrap();
            let (_, action) = sending.on_request(None);
            assert!(matches!(action, SendAction::Return(Ok(()))));
            self.to_server.closed = true;
            self.to_client.closed = true;
        }
        self.run();
    }

    fn server_event(&mut self) -> Option<(Addr, Event<Tin, C::TErr>)> {
        self.server_sink.items.pop_front()
    }

    fn client_item(&mut self) -> Option<ClientItem<Tin, C::TErr>> {
        self.client_sink.items.pop_front()
    }
}

#[test]
fn test_connect_disconnect_1() {
    // establish connection and drop client
    let mut world = World::new(StringCodec {});
    assert!(matches!(world.server_event(), Some((_, Event::Connect))));

    world.drop_client();
    assert!(matches!(
        world.server_event(),
        Some((_, Event::Error(ReceiveError::IoError(_))))
    ));
    assert!(matches!(world.server_event(), Some((_, Event::Disconnect))));
}

#[test]
fn test_connect_disconnect_2() {
    // establish connection and drop server
    let mut world = World::new(StringCodec {});
    assert!(matches!(world.server_event(), Some((_, Event::Connect))));

    world.drop_server();
    assert!(matches!(
        world.client_item().unwrap(),
        Err(client::ReceiveError::IoError(_))
    ));
    assert!(!world.client.online());
}

#[test]
fn test_connect_disconnect_3() {
    // establish connection and drop server main data channel
    let mut world = World::new(StringCodec {});
    assert!(matches!(world.server_event(), Some((_, Event::Connect))));

    world.server_sink.open = false;

    // sending data makes the server offer it to the closed sink, which ends the connection
    world.client_send("hello".into()).unwrap();
    assert!(matches!(
        world.client_item().unwrap(),
        Err(client::ReceiveError::IoError(_))
    ));
    assert!(!world.client.online());
    assert!(world.server_panicked);
}

#[test]
fn test_connect_no_server() {
    // try connecting to a port without server
    let refused = Error::from(ErrorKind::ConnectionRefused);
    let result: Result<Client<String, String, StringCodec>, Error> =
        Client::connect(Err(refused), StringCodec {});

    let Err(e) = result else {
        panic!("did not return Err(_)")
    };
    assert_eq!(ErrorKind::ConnectionRefused, e.kind());
}

#[test]
fn test_connect_cancel_message() {
    let mut world = World::new(RawCodec {});
    // send empty message
    world.client_send(vec![]).unwrap();
    assert!(!world.client.online());
}

#[test]
fn test_send_recv_1() {
    let mut world = World::new(StringCodec {});
    assert!(matches!(world.server_event(), Some((_, Event::Connect))));

    world.client_send("hello".into()).unwrap();
    let Some((_, Event::Data(data))) = world.server_event() else {
        panic!("recv failed")
    };
    assert_eq!("hello", &data);

    let addr = world.client.local_addr();
    world.server_send(addr, "hello".into()).unwrap();
    let Some(Ok(msg)) = world.client_item() else {
        panic!("recv failed")
    };
    assert_eq!("hello", &msg);
}

#[test]
fn test_send_recv_2() {
    let mut world = World::new(StringCodec {});
    assert!(matches!(world.server_event(), Some((_, Event::Connect))));

    for _ in 0..100 {
        world.client_send("hello".into()).unwrap();
    }

    for _ in 0..100 {
        let Some((_, Event::Data(data))) = world.server_event() else {
            panic!("recv failed")
        };
        assert_eq!("hello", &data);
    }

    let addr = world.client.local_addr();
    for _ in 0..100 {
        world.server_send(addr, "hello".into()).unwrap();
    }

    for _ in 0..100 {
        let Some(Ok(msg)) = world.client_item() else {
            panic!("recv failed")
        };
        assert_eq!("hello", &msg);
    }
}

#[test]
fn ping_pong() {
    let mut world = World::new(StringCodec {});
    let Some((addr, Event::Connect)) = world.server_event() else {
        panic!("client did not connect")
    };
    assert_eq!(addr, world.client.local_addr());
    assert_eq!(world.server.local_addr(), world.client.peer_addr());

    world.client_send("ping".into()).unwrap();
    let Some((addr, Event::Data(msg))) = world.server_event() else {
        panic!("client did not send")
    };
    assert_eq!(&msg, "ping");

    world.server_send(addr, "pong".into()).unwrap();
    let Some(Ok(msg)) = world.client_item() else {
        panic!("server did not send")
    };
    assert_eq!(&msg, "pong");
}

#[test]
fn messages_arrive_in_order() {
    let mut world = World::new(StringCodec {});
    world.server_event();
    for i in 0..20 {
        world.client_send(format!("message {}", i)).unwrap();
    }
    for i in 0..20 {
        let Some((from, Event::Data(data))) = world.server_event() else {
            panic!("recv failed")
        };
        assert_eq!(CLIENT, from);
        assert_eq!(format!("message {}", i), data);
    }
    assert!(world.server_event().is_none());
}

#[test]
fn empty_message_is_the_last_one_from_a_client() {
    let mut world = World::new(RawCodec {});
    world.server_event();
    world.client_send(vec![1, 2]).unwrap();
    world.client_send(vec![]).unwrap();
    assert!(matches!(world.client_send(vec![3]), Err(client::SendError::Offline)));
    let Some((_, Event::Data(first))) = world.server_event() else {
        panic!("recv failed")
    };
    assert_eq!(vec![1, 2], first);
    let Some((_, Event::Data(last))) = world.server_event() else {
        panic!("recv failed")
    };
    assert!(last.is_empty());
    assert!(matches!(world.server_event(), Some((_, Event::Disconnect))));
    assert!(world.server_event().is_none());
}

#[test]
fn empty_message_from_the_server_is_a_message() {
    let mut world = World::new(RawCodec {});
    world.server_send(CLIENT, vec![]).unwrap();
    world.server_send(CLIENT, vec![9]).unwrap();
    assert!(matches!(world.client_item(), Some(Ok(message)) if message.is_empty()));
    assert!(matches!(world.client_item(), Some(Ok(message)) if message == vec![9]));
    assert!(world.client.online());
}

#[test]
fn rejected_message_is_reported_and_the_connection_goes_on() {
    let mut world = World::new(PickyCodec {});
    world.server_event();
    world.client_send("!oops".into()).unwrap();
    world.client_send("fine".into()).unwrap();
    let Some((_, Event::Error(ReceiveError::Codec(error)))) = world.server_event() else {
        panic!("not reported")
    };
    assert_eq!("!oops", error);
    assert!(matches!(world.server_event(), Some((_, Event::Data(data))) if data == "fine"));

    world.server_send(CLIENT, "!oops".into()).unwrap();
    world.server_send(CLIENT, "fine".into()).unwrap();
    let Some(Err(client::ReceiveError::Codec(error))) = world.client_item() else {
        panic!("not reported")
    };
    assert_eq!("!oops", error);
    assert!(matches!(world.client_item(), Some(Ok(data)) if data == "fine"));
    assert!(world.client.online());
}

#[test]
fn rejected_message_ends_the_connection_if_the_codec_says_so() {
    let mut world = World::new(PickyCodec {});
    world.server_event();
    world.client_send("!!stop".into()).unwrap();
    let Some((_, Event::Error(ReceiveError::Codec(error)))) = world.server_event() else {
        panic!("not reported")
    };
    assert_eq!("!!stop", error);
    assert!(matches!(world.server_event(), Some((_, Event::Disconnect))));
    assert!(!world.client.online());

    let mut world = World::new(PickyCodec {});
    world.server_send(CLIENT, "!!stop".into()).unwrap();
    assert!(matches!(
        world.client_item(),
        Some(Err(client::ReceiveError::Codec(_)))
    ));
    assert!(world.client_item().is_none());
    assert!(!world.client.online());
}

#[test]
fn client_goes_offline_when_its_sink_is_gone() {
    let mut world = World::new(StringCodec {});
    world.client_sink.open = false;
    assert!(world.client.online());
    world.server_send(CLIENT, "hello".into()).unwrap();
    assert!(!world.client.online());
    assert!(matches!(
        world.client_send("hello".into()),
        Err(client::SendError::Offline)
    ));
}

#[test]
fn nobody_is_found_after_a_disconnect() {
    let mut world = World::new(StringCodec {});
    world.drop_client();
    assert!(matches!(
        world.server_send(CLIENT, "hello".into()),
        Err(server::SendError::AddrNotFound)
    ));
}

#[test]
fn nobody_is_found_after_the_server_was_stopped() {
    let mut world = World::new(StringCodec {});
    world.drop_server();
    assert!(matches!(
        world.server_send(CLIENT, "hello".into()),
        Err(server::SendError::AddrNotFound)
    ));
}

#[test]
fn failed_write_is_the_result_of_sending() {
    let mut world = World::new(StringCodec {});
    world.to_client.closed = true;
    let Err(server::SendError::IoError(error)) = world.server_send(CLIENT, "hello".into()) else {
        panic!("did not fail")
    };
    assert_eq!(ErrorKind::BrokenPipe, error.kind());

    let mut world = World::new(StringCodec {});
    world.to_server.closed = true;
    let Err(client::SendError::IoError(error)) = world.client_send("hello".into()) else {
        panic!("did not fail")
    };
    assert_eq!(ErrorKind::BrokenPipe, error.kind());
}

#[test]
fn message_without_a_writer_breaks_the_channel() {
    let mut world = World::new(StringCodec {});
    world.sending = None;
    assert!(matches!(
        world.server_send(CLIENT, "hello".into()),
        Err(server::SendError::BrokenChannel)
    ));
}

/// What a client delivers and what a server reports of the same bytes, with the end of the stream
/// left out.
fn understood(bytes: &[u8]) -> (Vec<Result<String, String>>, Vec<Result<String, String>>) {
    let mut world = World::new(PickyCodec {});
    world.server_sink.items.clear();
    world.to_client.bytes.extend(bytes);
    world.to_client.closed = true;
    world.to_server.bytes.extend(bytes);
    world.to_server.closed = true;
    world.run();
    let delivered = world.client_sink.items.drain(..).filter_map(|item| match item {
        Ok(message) => Some(Ok(message)),
        Err(client::ReceiveError::Codec(error)) => Some(Err(error)),
        Err(client::ReceiveError::IoError(_)) => None,
    });
    let reported = world.server_sink.items.drain(..).filter_map(|(_, event)| match event {
        Event::Data(message) => Some(Ok(message)),
        Event::Error(ReceiveError::Codec(error)) => Some(Err(error)),
        _ => None,
    });
    (delivered.collect(), reported.collect())
}

#[test]
fn both_ends_understand_a_stream_alike() {
    let framed = |messages: &[&str]| -> Vec<u8> {
        let mut bytes: Vec<u8> = Vec::new();
        for message in messages {
            let len: u32 = message.len().try_into().unwrap();
            bytes.extend(len.to_ne_bytes());
            bytes.extend(message.as_bytes());
        }
        bytes
    };
    let ok = |text: &str| -> Result<String, String> { Ok(text.to_string()) };
    let err = |text: &str| -> Result<String, String> { Err(text.to_string()) };

    let (delivered, reported) = understood(&framed(&["a", "!b", "c", "!!d", "e"]));
    assert_eq!(vec![ok("a"), err("!b"), ok("c"), err("!!d")], delivered);
    assert_eq!(delivered, reported);

    let whole = framed(&["a", "bcd"]);
    let (delivered, reported) = understood(&whole[..whole.len() - 1]);
    assert_eq!(vec![ok("a")], delivered);
    assert_eq!(delivered, reported);

    // only the server takes a message without bytes for the last one
    let (delivered, reported) = understood(&framed(&["a", "", "b"]));
    assert_eq!(vec![ok("a"), ok(""), ok("b")], delivered);
    assert_eq!(vec![ok("a"), ok("")], reported);
}
