use junctions::channels::{BidirChannel, RecvChannel, SendChannel};
use junctions::ids::{ChannelId, JunctionId};
use junctions::junction::{Dispatcher, Report, Step};
use junctions::message::{ChannelKind, Envelope};
use junctions::pattern::{Member, Pattern, PatternTable};
use junctions::reply::RecvError;
use std::sync::mpsc::Sender;

type Reaction<V, R> = fn(Vec<V>) -> Vec<R>;

const HOME: JunctionId = JunctionId(1);

fn send(raw: u64) -> Member {
    Member { channel: ChannelId(raw), junction: HOME, kind: ChannelKind::Send }
}

fn recv(raw: u64) -> Member {
    Member { channel: ChannelId(raw), junction: HOME, kind: ChannelKind::Recv }
}

fn bidir(raw: u64) -> Member {
    Member { channel: ChannelId(raw), junction: HOME, kind: ChannelKind::Bidir }
}

fn identity(values: Vec<i64>) -> Vec<i64> {
    values
}

fn length(values: Vec<String>) -> Vec<usize> {
    values.iter().map(|text| text.len()).collect()
}

fn first_plus_100(values: Vec<i64>) -> Vec<i64> {
    vec![values[0] + 100]
}

fn first_plus_200(values: Vec<i64>) -> Vec<i64> {
    vec![values[0] + 200]
}

fn start<V, R>(
    declared: Vec<(Vec<Member>, Reaction<V, R>)>,
) -> (Dispatcher<V, R, Reaction<V, R>>, Sender<Envelope<V, R>>) {
    let mut table = PatternTable::new(HOME);
    for (members, reaction) in declared {
        let pattern = Pattern::new(HOME, members, reaction).unwrap();
        table.register(pattern).unwrap();
    }
    Dispatcher::new(table)
}

fn handled<V, R>(step: Step<V, R>) -> Vec<Report> {
    match step {
        Step::Handled(reports) => reports,
        Step::Refused(_) => panic!("the envelope was refused"),
        Step::Closed => panic!("the intake was closed"),
    }
}

fn fired_once<V, R>(step: Step<V, R>, pattern: usize) -> Report {
    let reports = handled(step);
    assert_eq!(reports.len(), 1);
    assert_eq!(reports[0].pattern, pattern);
    reports[0]
}

fn fired_nothing<V, R>(step: Step<V, R>) {
    assert_eq!(handled(step).len(), 0);
}

#[test]
fn scenario_a_send_then_recv_returns_the_value() {
    let (mut dispatcher, intake) = start(vec![(vec![send(1), recv(2)], identity as Reaction<i64, i64>)]);
    let a: SendChannel<i64, i64> = SendChannel::new(ChannelId(1), HOME, intake.clone());
    let b: RecvChannel<i64, i64> = RecvChannel::new(ChannelId(2), HOME, intake.clone());

    assert!(a.send(5).is_ok());
    let waiting = b.request().unwrap();
    fired_nothing(dispatcher.step());
    let report = fired_once(dispatcher.step(), 0);
    assert_eq!(
        report,
        Report { pattern: 0, consumed: 2, owed: 1, returned: 1, delivered: 1 }
    );
    assert!(report.arity_respected());
    assert_eq!(waiting.wait(), Ok(5));
}

#[test]
fn scenario_a_recv_then_send_returns_the_value() {
    let (mut dispatcher, intake) = start(vec![(vec![send(1), recv(2)], identity as Reaction<i64, i64>)]);
    let a: SendChannel<i64, i64> = SendChannel::new(ChannelId(1), HOME, intake.clone());
    let b: RecvChannel<i64, i64> = RecvChannel::new(ChannelId(2), HOME, intake.clone());

    let waiting = b.request().unwrap();
    assert!(a.send(5).is_ok());
    fired_nothing(dispatcher.step());
    fired_once(dispatcher.step(), 0);
    assert_eq!(waiting.wait(), Ok(5));
}

#[test]
fn scenario_b_send_recv_returns_the_length() {
    let (mut dispatcher, intake) =
        start(vec![(vec![bidir(7)], length as Reaction<String, usize>)]);
    let c: BidirChannel<String, usize> = BidirChannel::new(ChannelId(7), HOME, intake.clone());

    let waiting = c.submit(String::from("hello")).unwrap();
    let report = fired_once(dispatcher.step(), 0);
    assert_eq!(
        report,
        Report { pattern: 0, consumed: 1, owed: 1, returned: 1, delivered: 1 }
    );
    assert_eq!(waiting.wait(), Ok(5));
}

#[test]
fn scenario_c_one_message_fires_the_earlier_pattern_only() {
    let (mut dispatcher, intake) = start(vec![
        (vec![bidir(1)], first_plus_100 as Reaction<i64, i64>),
        (vec![bidir(1)], first_plus_200 as Reaction<i64, i64>),
    ]);
    let x: BidirChannel<i64, i64> = BidirChannel::new(ChannelId(1), HOME, intake.clone());

    let waiting = x.submit(1).unwrap();
    fired_once(dispatcher.step(), 0);
    assert_eq!(waiting.wait(), Ok(101));
    assert_eq!(dispatcher.junction().pending_on(ChannelId(1)), 0);
}

#[test]
fn scenario_c_shared_channel_prefers_registration_order() {
    let (mut dispatcher, intake) = start(vec![
        (vec![send(1), recv(2)], first_plus_100 as Reaction<i64, i64>),
        (vec![send(1), recv(3)], first_plus_200 as Reaction<i64, i64>),
    ]);
    let x: SendChannel<i64, i64> = SendChannel::new(ChannelId(1), HOME, intake.clone());
    let y: RecvChannel<i64, i64> = RecvChannel::new(ChannelId(2), HOME, intake.clone());
    let z: RecvChannel<i64, i64> = RecvChannel::new(ChannelId(3), HOME, intake.clone());

    let on_z = z.request().unwrap();
    let on_y = y.request().unwrap();
    fired_nothing(dispatcher.step());
    fired_nothing(dispatcher.step());
    x.send(1).unwrap();
    fired_once(dispatcher.step(), 0);
    assert_eq!(on_y.wait(), Ok(101));
    assert_eq!(dispatcher.junction().pending_on(ChannelId(3)), 1);
    x.send(2).unwrap();
    fired_once(dispatcher.step(), 1);
    assert_eq!(on_z.wait(), Ok(202));
}

#[test]
fn scenario_d_teardown_fails_the_blocked_receiver() {
    let (mut dispatcher, intake) = start(vec![(vec![send(1), recv(2)], identity as Reaction<i64, i64>)]);
    let b: RecvChannel<i64, i64> = RecvChannel::new(ChannelId(2), HOME, intake.clone());

    let waiting = b.request().unwrap();
    fired_nothing(dispatcher.step());
    assert_eq!(dispatcher.junction().pending_on(ChannelId(2)), 1);
    drop(dispatcher);
    assert_eq!(waiting.wait(), Err(RecvError::ReplyNeverArrived));
    assert_eq!(b.recv(), Err(RecvError::TransportClosed));
}

#[test]
fn teardown_before_the_envelope_is_taken_fails_the_receiver() {
    let (dispatcher, intake) = start(vec![(vec![send(1), recv(2)], identity as Reaction<i64, i64>)]);
    let b: RecvChannel<i64, i64> = RecvChannel::new(ChannelId(2), HOME, intake.clone());

    let waiting = b.request().unwrap();
    drop(dispatcher);
    assert_eq!(waiting.wait(), Err(RecvError::ReplyNeverArrived));
}

#[test]
fn step_ends_when_every_handle_is_gone() {
    let (mut dispatcher, intake) = start(vec![(vec![send(1)], identity as Reaction<i64, i64>)]);
    let a: SendChannel<i64, i64> = SendChannel::new(ChannelId(1), HOME, intake);
    a.send(3).unwrap();
    drop(a);
    fired_once(dispatcher.step(), 0);
    assert!(matches!(dispatcher.step(), Step::Closed));
}

#[test]
fn messages_of_one_channel_are_consumed_in_send_order() {
    let (mut dispatcher, intake) = start(vec![(vec![send(1), recv(2)], identity as Reaction<i64, i64>)]);
    let a: SendChannel<i64, i64> = SendChannel::new(ChannelId(1), HOME, intake.clone());
    let b: RecvChannel<i64, i64> = RecvChannel::new(ChannelId(2), HOME, intake.clone());

    for value in [10, 20, 30] {
        a.send(value).unwrap();
        fired_nothing(dispatcher.step());
    }
    assert_eq!(dispatcher.junction().pending_on(ChannelId(1)), 3);
    let first = b.request().unwrap();
    let second = b.request().unwrap();
    let third = b.request().unwrap();
    for left in [2, 1, 0] {
        fired_once(dispatcher.step(), 0);
        assert_eq!(dispatcher.junction().pending_on(ChannelId(1)), left);
    }
    assert_eq!(first.wait(), Ok(10));
    assert_eq!(second.wait(), Ok(20));
    assert_eq!(third.wait(), Ok(30));
}

#[test]
fn replies_are_routed_in_send_order_of_the_requests() {
    let (mut dispatcher, intake) = start(vec![(vec![send(1), recv(2)], identity as Reaction<i64, i64>)]);
    let a: SendChannel<i64, i64> = SendChannel::new(ChannelId(1), HOME, intake.clone());
    let b: RecvChannel<i64, i64> = RecvChannel::new(ChannelId(2), HOME, intake.clone());

    let first = b.request().unwrap();
    let second = b.request().unwrap();
    fired_nothing(dispatcher.step());
    fired_nothing(dispatcher.step());
    a.send(1).unwrap();
    a.send(2).unwrap();
    fired_once(dispatcher.step(), 0);
    fired_once(dispatcher.step(), 0);
    assert_eq!(first.wait(), Ok(1));
    assert_eq!(second.wait(), Ok(2));
}

#[test]
fn an_abandoned_caller_does_not_stop_the_junction() {
    let (mut dispatcher, intake) = start(vec![(vec![send(1), recv(2)], identity as Reaction<i64, i64>)]);
    let a: SendChannel<i64, i64> = SendChannel::new(ChannelId(1), HOME, intake.clone());
    let b: RecvChannel<i64, i64> = RecvChannel::new(ChannelId(2), HOME, intake.clone());

    let gone = b.request().unwrap();
    drop(gone);
    let waiting = b.request().unwrap();
    a.send(1).unwrap();
    a.send(2).unwrap();
    fired_nothing(dispatcher.step());
    fired_nothing(dispatcher.step());
    let report = fired_once(dispatcher.step(), 0);
    assert_eq!(
        report,
        Report { pattern: 0, consumed: 2, owed: 1, returned: 1, delivered: 0 }
    );
    let report = fired_once(dispatcher.step(), 0);
    assert_eq!(report.delivered, 1);
    assert_eq!(waiting.wait(), Ok(2));
}

fn nothing(_values: Vec<i64>) -> Vec<i64> {
    Vec::new()
}

fn twice(values: Vec<i64>) -> Vec<i64> {
    vec![values[0], values[0]]
}

#[test]
fn a_reaction_that_returns_too_little_leaves_the_caller_without_reply() {
    let (mut dispatcher, intake) = start(vec![(vec![bidir(1)], nothing as Reaction<i64, i64>)]);
    let x: BidirChannel<i64, i64> = BidirChannel::new(ChannelId(1), HOME, intake.clone());

    let waiting = x.submit(9).unwrap();
    let report = fired_once(dispatcher.step(), 0);
    assert_eq!(
        report,
        Report { pattern: 0, consumed: 1, owed: 1, returned: 0, delivered: 0 }
    );
    assert!(!report.arity_respected());
    assert_eq!(waiting.wait(), Err(RecvError::ReplyNeverArrived));
}

#[test]
fn a_reaction_that_returns_too_much_has_the_surplus_discarded() {
    let (mut dispatcher, intake) = start(vec![(vec![bidir(1)], twice as Reaction<i64, i64>)]);
    let x: BidirChannel<i64, i64> = BidirChannel::new(ChannelId(1), HOME, intake.clone());

    let waiting = x.submit(9).unwrap();
    let report = fired_once(dispatcher.step(), 0);
    assert_eq!(
        report,
        Report { pattern: 0, consumed: 1, owed: 1, returned: 2, delivered: 1 }
    );
    assert!(!report.arity_respected());
    assert_eq!(waiting.wait(), Ok(9));
}

#[test]
fn fire_and_forget_patterns_expect_no_result() {
    let (mut dispatcher, intake) = start(vec![(vec![send(1), send(2)], nothing as Reaction<i64, i64>)]);
    let a: SendChannel<i64, i64> = SendChannel::new(ChannelId(1), HOME, intake.clone());
    let b: SendChannel<i64, i64> = SendChannel::new(ChannelId(2), HOME, intake.clone());

    a.send(1).unwrap();
    b.send(2).unwrap();
    fired_nothing(dispatcher.step());
    let report = fired_once(dispatcher.step(), 0);
    assert_eq!(
        report,
        Report { pattern: 0, consumed: 2, owed: 0, returned: 0, delivered: 0 }
    );
    assert!(report.arity_respected());
}

fn firing_sequence(arrivals: &[(u64, i64)]) -> Vec<Vec<usize>> {
    let (mut dispatcher, intake) = start(vec![
        (vec![send(1), send(2)], nothing as Reaction<i64, i64>),
        (vec![send(2), send(3)], nothing as Reaction<i64, i64>),
        (vec![send(3)], nothing as Reaction<i64, i64>),
    ]);
    let mut sequence = Vec::new();
    for (channel, value) in arrivals {
        let handle: SendChannel<i64, i64> =
            SendChannel::new(ChannelId(*channel), HOME, intake.clone());
        handle.send(*value).unwrap();
        let reports = handled(dispatcher.step());
        sequence.push(reports.iter().map(|report| report.pattern).collect());
    }
    sequence
}

#[test]
fn the_same_arrivals_give_the_same_firing_sequence() {
    let arrivals = [(2, 1), (2, 2), (3, 3), (1, 4), (1, 5), (4, 6), (2, 7), (1, 8)];
    let expected: Vec<Vec<usize>> = vec![
        vec![],
        vec![],
        vec![1],
        vec![0],
        vec![],
        vec![],
        vec![0],
        vec![],
    ];
    assert_eq!(firing_sequence(&arrivals), expected);
    assert_eq!(firing_sequence(&arrivals), expected);
    let other_values = [(2, 0), (2, 0), (3, 0), (1, 0), (1, 0), (4, 0), (2, 0), (1, 0)];
    assert_eq!(firing_sequence(&other_values), expected);
}

#[test]
fn a_misdirected_message_is_refused_and_changes_nothing() {
    let (mut dispatcher, intake) = start(vec![(vec![send(1), recv(2)], identity as Reaction<i64, i64>)]);
    let wrong: RecvChannel<i64, i64> = RecvChannel::new(ChannelId(1), HOME, intake.clone());
    let a: SendChannel<i64, i64> = SendChannel::new(ChannelId(1), HOME, intake.clone());
    let b: RecvChannel<i64, i64> = RecvChannel::new(ChannelId(2), HOME, intake.clone());

    let lost = wrong.request().unwrap();
    match dispatcher.step() {
        Step::Refused(envelope) => {
            assert_eq!(envelope.channel_id, ChannelId(1));
            assert_eq!(envelope.msg.kind(), ChannelKind::Recv);
        }
        _ => panic!("a request on a send channel is misdirected"),
    }
    assert_eq!(dispatcher.junction().pending_on(ChannelId(1)), 0);
    assert_eq!(lost.wait(), Err(RecvError::ReplyNeverArrived));

    a.send(5).unwrap();
    let waiting = b.request().unwrap();
    fired_nothing(dispatcher.step());
    fired_once(dispatcher.step(), 0);
    assert_eq!(waiting.wait(), Ok(5));
}

#[test]
fn a_channel_that_no_pattern_names_keeps_whatever_arrives() {
    let (mut dispatcher, intake) = start(vec![(vec![send(1)], identity as Reaction<i64, i64>)]);
    let stray: SendChannel<i64, i64> = SendChannel::new(ChannelId(9), HOME, intake.clone());
    let asking: RecvChannel<i64, i64> = RecvChannel::new(ChannelId(9), HOME, intake.clone());
    stray.send(1).unwrap();
    let _never = asking.request().unwrap();
    fired_nothing(dispatcher.step());
    fired_nothing(dispatcher.step());
    assert_eq!(dispatcher.junction().pending_on(ChannelId(9)), 2);
}
