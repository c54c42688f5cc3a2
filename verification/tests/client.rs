//! The decisions of a client, one at a time.
use std::io::{Error, ErrorKind};

use ez_api::client::{
    shutdown_harmless, ReceiveAction, ReceiveError, ReceivePhase, SendError,
};
use ez_api::{Addr, ByteOrder, Client, Codec, Continue};

#[derive(Clone)]
struct ByteCodec;

impl Codec<u8, u8> for ByteCodec {
    type TErr = usize;
    fn encode(&self, outgoing: u8) -> Vec<u8> {
        vec![outgoing]
    }
    fn decode(&self, incoming: Vec<u8>) -> Result<u8, (usize, Continue)> {
        if incoming.len() == 1 {
            Ok(incoming[0])
        } else {
            Err((incoming.len(), Continue(incoming.len() == 2)))
        }
    }
}

const HERE: Addr = Addr::V4 { ip4: 0x7f00_0001, port: 1 };
const THERE: Addr = Addr::V4 { ip4: 0x7f00_0001, port: 2 };

fn client() -> Client<u8, u8, ByteCodec> {
    Client::connect_with(Ok((HERE, THERE)), ByteCodec {}, ByteOrder::Little).unwrap()
}

#[test]
fn fresh_client() {
    let client = client();
    assert!(client.online());
    assert_eq!(HERE, client.local_addr());
    assert_eq!(THERE, client.peer_addr());
    assert_eq!(ByteOrder::Little, client.byte_order());
    assert!(client.send(1).is_ok());
}

#[test]
fn receiving_messages() {
    let (receiving, action) = client().receive_messages();
    assert!(matches!(action, ReceiveAction::Read(4)));
    let (receiving, action) = receiving.on_read(Ok(vec![1, 0, 0, 0]));
    assert!(matches!(action, ReceiveAction::Read(1)));
    let (receiving, action) = receiving.on_read(Ok(vec![77]));
    assert!(matches!(action, ReceiveAction::Deliver(Ok(77))));
    let (receiving, action) = receiving.on_delivered(true);
    assert!(matches!(action, ReceiveAction::Read(4)));
    let (receiving, _) = receiving.on_read(Ok(vec![2, 0, 0, 0]));
    let (receiving, action) = receiving.on_read(Ok(vec![1, 1]));
    assert!(matches!(action, ReceiveAction::Deliver(Err(ReceiveError::Codec(2)))));
    let (receiving, action) = receiving.on_delivered(true);
    assert!(matches!(action, ReceiveAction::Read(4)));
    let (receiving, _) = receiving.on_read(Ok(vec![3, 0, 0, 0]));
    let (receiving, action) = receiving.on_read(Ok(vec![1, 1, 1]));
    assert!(matches!(action, ReceiveAction::Deliver(Err(ReceiveError::Codec(3)))));
    assert!(!receiving.phase().online());
    let (receiving, action) = receiving.on_delivered(true);
    assert!(matches!(action, ReceiveAction::Shutdown));
    let (receiving, action) = receiving.on_shutdown(Ok(()));
    assert!(matches!(action, ReceiveAction::Finish));
    assert_eq!(ReceivePhase::Finished, receiving.phase());
}

#[test]
fn offline_before_the_error_is_reported_and_for_good() {
    let mut client = client();
    let (fresh, _) = client.receive_messages();
    let (receiving, _) = client.receive_messages();
    let (receiving, action) =
        receiving.on_read(Err(Error::from(ErrorKind::ConnectionReset)));
    client.observe(receiving.phase());
    assert!(matches!(action, ReceiveAction::Deliver(Err(ReceiveError::IoError(_)))));
    assert!(!client.online());
    assert!(matches!(client.send(1), Err(SendError::Offline)));
    client.observe(fresh.phase());
    assert!(!client.online());
}

#[test]
fn refused_delivery_ends_receiving() {
    let (receiving, _) = client().receive_messages();
    let (receiving, _) = receiving.on_decoded(Ok(1));
    assert!(receiving.phase().online());
    let (receiving, action) = receiving.on_delivered(false);
    assert!(matches!(action, ReceiveAction::Shutdown));
    assert!(!receiving.phase().online());
}

#[test]
fn shutting_down() {
    assert!(shutdown_harmless(Ok(())));
    assert!(shutdown_harmless(Err(ez_api::ErrorKind::NotConnected)));
    assert!(!shutdown_harmless(Err(ez_api::ErrorKind::WouldBlock)));
    assert!(!shutdown_harmless(Err(ez_api::ErrorKind::Other)));

    let ended = || {
        let (receiving, _) = client().receive_messages();
        let (receiving, _) = receiving.on_decoded(Err((1, Continue(false))));
        receiving.on_delivered(true).0
    };
    let not_connected = Err(ez_api::ErrorKind::NotConnected);
    assert!(matches!(ended().on_shutdown(not_connected).1, ReceiveAction::Finish));
    let other = Err(ez_api::ErrorKind::Other);
    assert!(matches!(ended().on_shutdown(other).1, ReceiveAction::Panic));
}

#[test]
fn results_of_client_sending() {
    assert!(Client::<u8, u8, ByteCodec>::sent(Ok(())).is_ok());
    let failure = Error::from(ErrorKind::BrokenPipe);
    let Err(SendError::IoError(error)) = Client::<u8, u8, ByteCodec>::sent(Err(failure)) else {
        panic!("did not fail")
    };
    assert_eq!(ErrorKind::BrokenPipe, error.kind());
}
