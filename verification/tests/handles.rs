use junctions::channels::{BidirChannel, RecvChannel, SendChannel};
use junctions::ids::{ChannelId, JunctionId};
use junctions::message::{Envelope, Message};
use junctions::reply::RecvError;
use std::sync::mpsc::channel;

#[test]
fn send_queues_one_envelope_with_the_value() {
    let (tx, rx) = channel::<Envelope<i64, i64>>();
    let a = SendChannel::new(ChannelId(1), JunctionId(7), tx);
    assert!(a.send(5).is_ok());
    let got = rx.try_recv().unwrap();
    assert_eq!(got.channel_id, ChannelId(1));
    assert!(matches!(got.msg, Message::Value(5)));
    assert!(rx.try_recv().is_err());
}

#[test]
fn recv_after_teardown_fails_instead_of_hanging() {
    let (tx, rx) = channel::<Envelope<i64, i64>>();
    let b: RecvChannel<i64, i64> = RecvChannel::new(ChannelId(2), JunctionId(7), tx);
    drop(rx);
    assert_eq!(b.recv(), Err(RecvError::TransportClosed));
}

#[test]
fn send_recv_after_teardown_fails_instead_of_hanging() {
    let (tx, rx) = channel::<Envelope<String, usize>>();
    let c: BidirChannel<String, usize> = BidirChannel::new(ChannelId(3), JunctionId(7), tx);
    drop(rx);
    assert_eq!(c.send_recv(String::from("hello")), Err(RecvError::TransportClosed));
}
