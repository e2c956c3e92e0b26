use junctions::bag::MessageBag;
use junctions::channels::{
    request_outcome, send_outcome, BidirChannel, RecvChannel, SendChannel, StrippedBidirChannel,
    StrippedRecvChannel, StrippedSendChannel,
};
use junctions::engine::{fire, is_firable, run, select};
use junctions::ids::{ChannelId, JunctionId};
use junctions::junction::{
    deliver_all, route, tally, unpack, Dispatcher, Junction, Report, Step,
};
use junctions::message::{ChannelKind, Envelope, Message};
use junctions::pattern::{Member, Pattern, PatternError, PatternTable};
use junctions::reply::{delivered, reply_outcome, reply_pair, RecvError};
use std::sync::mpsc::channel;

const HOME: JunctionId = JunctionId(1);
const ELSEWHERE: JunctionId = JunctionId(2);

fn member(raw: u64) -> Member {
    Member { channel: ChannelId(raw), junction: HOME, kind: ChannelKind::Send }
}

fn foreign(raw: u64) -> Member {
    Member { channel: ChannelId(raw), junction: ELSEWHERE, kind: ChannelKind::Send }
}

fn table_of(declared: &[&[u64]]) -> PatternTable<()> {
    let mut table = PatternTable::new(HOME);
    for (position, channels) in declared.iter().enumerate() {
        let members = channels.iter().map(|raw| member(*raw)).collect();
        let pattern = Pattern::new(HOME, members, ()).unwrap();
        assert_eq!(table.register(pattern), Ok(position));
    }
    table
}

#[test]
fn identities_keep_their_number() {
    assert_eq!(ChannelId::new(42).raw(), 42);
    assert_eq!(JunctionId::new(7).raw(), 7);
    assert_eq!(ChannelId::new(42), ChannelId(42));
    assert_ne!(ChannelId::new(42), ChannelId(43));
}

#[test]
fn a_bag_starts_with_nothing_pending() {
    let bag: MessageBag<i64> = MessageBag::new();
    assert!(!bag.has_pending(ChannelId(1)));
    assert_eq!(bag.count(ChannelId(1)), 0);
}

#[test]
fn a_queue_gives_its_messages_back_in_arrival_order() {
    let mut bag = MessageBag::new();
    bag.enqueue(ChannelId(1), 10);
    bag.enqueue(ChannelId(2), 99);
    bag.enqueue(ChannelId(1), 20);
    bag.enqueue(ChannelId(1), 30);
    assert_eq!(bag.count(ChannelId(1)), 3);
    assert_eq!(bag.count(ChannelId(2)), 1);
    assert_eq!(bag.dequeue(ChannelId(1)), Some(10));
    assert_eq!(bag.dequeue(ChannelId(1)), Some(20));
    assert_eq!(bag.count(ChannelId(2)), 1);
    assert_eq!(bag.dequeue(ChannelId(1)), Some(30));
    assert_eq!(bag.dequeue(ChannelId(1)), None);
    assert!(!bag.has_pending(ChannelId(1)));
    assert!(bag.has_pending(ChannelId(2)));
}

#[test]
fn dequeue_on_an_unknown_channel_changes_nothing() {
    let mut bag = MessageBag::new();
    bag.enqueue(ChannelId(1), 10);
    assert_eq!(bag.dequeue(ChannelId(5)), None);
    assert_eq!(bag.count(ChannelId(1)), 1);
    assert_eq!(bag.count(ChannelId(5)), 0);
}

#[test]
fn a_pattern_keeps_its_channels_in_declared_order() {
    let pattern = Pattern::new(HOME, vec![member(3), member(1), member(2)], ()).unwrap();
    assert_eq!(pattern.channels(), &vec![ChannelId(3), ChannelId(1), ChannelId(2)]);
    assert_eq!(pattern.arity(), 3);
    assert_eq!(pattern.junction_id(), HOME);
    assert_eq!(pattern.reaction(), &());
}

#[test]
fn a_pattern_owes_one_result_per_waiting_caller() {
    let members = vec![
        Member { channel: ChannelId(1), junction: HOME, kind: ChannelKind::Bidir },
        Member { channel: ChannelId(2), junction: HOME, kind: ChannelKind::Send },
        Member { channel: ChannelId(3), junction: HOME, kind: ChannelKind::Recv },
        Member { channel: ChannelId(4), junction: HOME, kind: ChannelKind::Send },
        Member { channel: ChannelId(5), junction: HOME, kind: ChannelKind::Recv },
    ];
    let pattern = Pattern::new(HOME, members, ()).unwrap();
    assert_eq!(
        pattern.kinds(),
        &vec![
            ChannelKind::Bidir,
            ChannelKind::Send,
            ChannelKind::Recv,
            ChannelKind::Send,
            ChannelKind::Recv
        ]
    );
    assert_eq!(pattern.reply_arity(), 3);
    assert_eq!(pattern.value_arity(), 3);
    let forgetful = Pattern::new(HOME, vec![member(1), member(2)], ()).unwrap();
    assert_eq!(forgetful.reply_arity(), 0);
    assert_eq!(forgetful.value_arity(), 2);
}

#[test]
fn each_kind_says_what_its_messages_carry() {
    assert!(ChannelKind::Send.carries_value());
    assert!(!ChannelKind::Send.expects_reply());
    assert!(!ChannelKind::Recv.carries_value());
    assert!(ChannelKind::Recv.expects_reply());
    assert!(ChannelKind::Bidir.carries_value());
    assert!(ChannelKind::Bidir.expects_reply());
    let (first, _keep_first) = reply_pair::<i64>();
    let (second, _keep_second) = reply_pair::<i64>();
    assert_eq!(Message::<i64, i64>::Value(1).kind(), ChannelKind::Send);
    assert_eq!(Message::<i64, i64>::Request(first).kind(), ChannelKind::Recv);
    assert_eq!(Message::<i64, i64>::Call(1, second).kind(), ChannelKind::Bidir);
}

#[test]
fn a_pattern_without_channels_is_refused() {
    assert_eq!(Pattern::new(HOME, vec![], ()).err(), Some(PatternError::NoChannels));
}

#[test]
fn a_pattern_with_a_foreign_channel_names_the_first_one() {
    let members = vec![member(1), foreign(2), foreign(3)];
    assert_eq!(
        Pattern::new(HOME, members, ()).err(),
        Some(PatternError::ForeignChannel(ChannelId(2)))
    );
}

#[test]
fn a_pattern_with_a_repeated_channel_names_the_first_repetition() {
    let members = vec![member(1), member(2), member(3), member(2), member(1)];
    assert_eq!(
        Pattern::new(HOME, members, ()).err(),
        Some(PatternError::RepeatedChannel(ChannelId(2)))
    );
}

#[test]
fn a_foreign_channel_is_reported_before_a_repetition() {
    let members = vec![member(1), member(1), foreign(2)];
    assert_eq!(
        Pattern::new(HOME, members, ()).err(),
        Some(PatternError::ForeignChannel(ChannelId(2)))
    );
}

#[test]
fn a_table_refuses_the_pattern_of_another_junction() {
    let mut table = table_of(&[&[1]]);
    let stranger = Pattern::new(ELSEWHERE, vec![foreign(9)], ()).unwrap();
    assert_eq!(table.register(stranger), Err(PatternError::ForeignPattern));
    assert_eq!(table.len(), 1);
    assert_eq!(table.junction_id(), HOME);
    assert_eq!(table.candidates(ChannelId(9)), None);
}

#[test]
fn a_table_refuses_a_second_kind_for_a_channel() {
    let mut table = table_of(&[&[1, 2]]);
    let members = vec![
        member(2),
        Member { channel: ChannelId(3), junction: HOME, kind: ChannelKind::Recv },
        Member { channel: ChannelId(1), junction: HOME, kind: ChannelKind::Bidir },
        Member { channel: ChannelId(4), junction: HOME, kind: ChannelKind::Send },
    ];
    let clashing = Pattern::new(HOME, members, ()).unwrap();
    assert_eq!(table.register(clashing), Err(PatternError::KindConflict(ChannelId(1))));
    assert_eq!(table.len(), 1);
    assert_eq!(table.candidates(ChannelId(3)), None);
    assert_eq!(table.kind_of(ChannelId(3)), None);
    let members = vec![
        member(2),
        Member { channel: ChannelId(3), junction: HOME, kind: ChannelKind::Recv },
    ];
    assert_eq!(table.register(Pattern::new(HOME, members, ()).unwrap()), Ok(1));
    assert_eq!(table.kind_of(ChannelId(1)), Some(ChannelKind::Send));
    assert_eq!(table.kind_of(ChannelId(2)), Some(ChannelKind::Send));
    assert_eq!(table.kind_of(ChannelId(3)), Some(ChannelKind::Recv));
    assert_eq!(table.kind_of(ChannelId(4)), None);
}

#[test]
fn the_index_lists_the_patterns_of_a_channel_in_registration_order() {
    let table = table_of(&[&[1, 2], &[3], &[2, 1], &[2]]);
    assert_eq!(table.len(), 4);
    assert_eq!(table.candidates(ChannelId(1)), Some(&vec![0, 2]));
    assert_eq!(table.candidates(ChannelId(2)), Some(&vec![0, 2, 3]));
    assert_eq!(table.candidates(ChannelId(3)), Some(&vec![1]));
    assert_eq!(table.candidates(ChannelId(4)), None);
    assert_eq!(table.pattern(2).channels(), &vec![ChannelId(2), ChannelId(1)]);
}

#[test]
fn a_pattern_is_firable_when_every_channel_has_a_message() {
    let table = table_of(&[&[1, 2]]);
    let mut bag = MessageBag::new();
    assert!(!is_firable(&table, &bag, 0));
    bag.enqueue(ChannelId(1), 'a');
    assert!(!is_firable(&table, &bag, 0));
    bag.enqueue(ChannelId(2), 'b');
    assert!(is_firable(&table, &bag, 0));
}

#[test]
fn the_earliest_registered_firable_pattern_is_selected() {
    let table = table_of(&[&[1, 2], &[1, 3], &[1]]);
    let mut bag = MessageBag::new();
    assert_eq!(select(&table, &bag, ChannelId(1)), None);
    bag.enqueue(ChannelId(1), 'a');
    assert_eq!(select(&table, &bag, ChannelId(1)), Some(2));
    bag.enqueue(ChannelId(3), 'c');
    assert_eq!(select(&table, &bag, ChannelId(1)), Some(1));
    assert_eq!(select(&table, &bag, ChannelId(3)), Some(1));
    bag.enqueue(ChannelId(2), 'b');
    assert_eq!(select(&table, &bag, ChannelId(1)), Some(0));
    assert_eq!(select(&table, &bag, ChannelId(2)), Some(0));
    assert_eq!(select(&table, &bag, ChannelId(3)), Some(1));
    assert_eq!(select(&table, &bag, ChannelId(4)), None);
}

#[test]
fn a_firing_takes_the_oldest_message_of_each_channel_in_declared_order() {
    let table = table_of(&[&[2, 1]]);
    let mut bag = MessageBag::new();
    bag.enqueue(ChannelId(1), "one");
    bag.enqueue(ChannelId(1), "uno");
    bag.enqueue(ChannelId(2), "two");
    bag.enqueue(ChannelId(3), "three");
    assert_eq!(fire(&table, &mut bag, 0), Some(vec!["two", "one"]));
    assert_eq!(bag.count(ChannelId(1)), 1);
    assert_eq!(bag.count(ChannelId(2)), 0);
    assert_eq!(bag.count(ChannelId(3)), 1);
    assert_eq!(bag.dequeue(ChannelId(1)), Some("uno"));
}

#[test]
fn nothing_fires_without_a_message_on_every_channel() {
    let table = table_of(&[&[1, 2]]);
    let mut bag = MessageBag::new();
    bag.enqueue(ChannelId(1), 1);
    assert_eq!(fire(&table, &mut bag, 0), None);
    assert_eq!(bag.count(ChannelId(1)), 1);
    assert_eq!(fire(&table, &mut bag, 1), None);
    assert_eq!(bag.count(ChannelId(1)), 1);
}

#[test]
fn the_engine_fires_until_no_candidate_is_firable() {
    let table = table_of(&[&[1, 2], &[1]]);
    let mut bag = MessageBag::new();
    bag.enqueue(ChannelId(2), 20);
    bag.enqueue(ChannelId(1), 10);
    bag.enqueue(ChannelId(1), 11);
    bag.enqueue(ChannelId(1), 12);
    let firings = run(&table, &mut bag, ChannelId(1));
    let seen: Vec<(usize, Vec<i32>)> =
        firings.into_iter().map(|firing| (firing.pattern, firing.consumed)).collect();
    assert_eq!(seen, vec![(0, vec![10, 20]), (1, vec![11]), (1, vec![12])]);
    assert_eq!(bag.count(ChannelId(1)), 0);
    assert_eq!(bag.count(ChannelId(2)), 0);
    assert_eq!(run(&table, &mut bag, ChannelId(1)).len(), 0);
}

#[test]
fn a_junction_hands_out_what_each_firing_consumed() {
    let mut junction: Junction<i64, i64, ()> = Junction::new(table_of(&[&[1, 2]]));
    assert_eq!(junction.id(), HOME);
    assert_eq!(junction.pattern_count(), 1);
    let none = junction
        .accept(Envelope { channel_id: ChannelId(2), msg: Message::Value(20) })
        .unwrap();
    assert_eq!(none.len(), 0);
    assert_eq!(junction.pending_on(ChannelId(2)), 1);
    let unknown = junction
        .accept(Envelope { channel_id: ChannelId(9), msg: Message::Value(90) })
        .unwrap();
    assert_eq!(unknown.len(), 0);
    assert_eq!(junction.pending_on(ChannelId(9)), 1);
    let (reply, _waiting) = reply_pair::<i64>();
    let refused = junction
        .accept(Envelope { channel_id: ChannelId(1), msg: Message::Call(10, reply) })
        .unwrap_err();
    assert_eq!(refused.channel_id, ChannelId(1));
    assert!(matches!(refused.msg, Message::Call(10, _)));
    assert_eq!(junction.pending_on(ChannelId(1)), 0);
    assert_eq!(junction.pending_on(ChannelId(2)), 1);
    let one = junction
        .accept(Envelope { channel_id: ChannelId(1), msg: Message::Value(10) })
        .unwrap();
    assert_eq!(one.len(), 1);
    assert_eq!(one[0].pattern, 0);
    assert_eq!(one[0].consumed.len(), 2);
    assert!(matches!(one[0].consumed[0], Message::Value(10)));
    assert!(matches!(one[0].consumed[1], Message::Value(20)));
    assert_eq!(junction.pending_on(ChannelId(1)), 0);
    assert_eq!(junction.pending_on(ChannelId(2)), 0);
}

#[test]
fn a_junction_runs_the_reaction_of_what_it_fired() {
    let mut table = PatternTable::new(HOME);
    let sum: fn(Vec<i64>) -> Vec<i64> = |values| vec![values.iter().sum()];
    let members = vec![
        member(1),
        Member { channel: ChannelId(2), junction: HOME, kind: ChannelKind::Bidir },
    ];
    table.register(Pattern::new(HOME, members, sum).unwrap()).unwrap();
    let mut junction: Junction<i64, i64, _> = Junction::new(table);

    let none = junction
        .dispatch(Envelope { channel_id: ChannelId(1), msg: Message::Value(40) })
        .unwrap();
    assert_eq!(none.len(), 0);
    let (reply, waiting) = reply_pair::<i64>();
    let reports = junction
        .dispatch(Envelope { channel_id: ChannelId(2), msg: Message::Call(2, reply) })
        .unwrap();
    assert_eq!(
        reports,
        vec![Report { pattern: 0, consumed: 2, owed: 1, returned: 1, delivered: 1 }]
    );
    assert_eq!(waiting.wait(), Ok(42));

    let (reply, waiting) = reply_pair::<i64>();
    junction.accept(Envelope { channel_id: ChannelId(1), msg: Message::Value(1) }).unwrap();
    let mut firings = junction
        .accept(Envelope { channel_id: ChannelId(2), msg: Message::Call(2, reply) })
        .unwrap();
    let report = junction.react(firings.pop().unwrap());
    assert_eq!(report, Report { pattern: 0, consumed: 2, owed: 1, returned: 1, delivered: 1 });
    assert_eq!(waiting.wait(), Ok(3));

    let refused = junction
        .dispatch(Envelope { channel_id: ChannelId(2), msg: Message::Value(5) })
        .unwrap_err();
    assert!(matches!(refused.msg, Message::Value(5)));
}

#[test]
fn an_answer_pairs_each_waiting_caller_with_its_result() {
    let mut table = PatternTable::new(HOME);
    let both: fn(Vec<i64>) -> Vec<i64> = |values| vec![values[0] + values[1], values[0] * values[1]];
    let members = vec![
        Member { channel: ChannelId(1), junction: HOME, kind: ChannelKind::Bidir },
        Member { channel: ChannelId(2), junction: HOME, kind: ChannelKind::Bidir },
    ];
    table.register(Pattern::new(HOME, members, both).unwrap()).unwrap();
    let mut junction: Junction<i64, i64, _> = Junction::new(table);

    let (first, wait_first) = reply_pair::<i64>();
    let (second, wait_second) = reply_pair::<i64>();
    junction.accept(Envelope { channel_id: ChannelId(2), msg: Message::Call(7, second) }).unwrap();
    let mut firings = junction
        .accept(Envelope { channel_id: ChannelId(1), msg: Message::Call(3, first) })
        .unwrap();
    let (routed, returned) = junction.answer(firings.pop().unwrap());
    assert_eq!(returned, 2);
    assert_eq!(routed.len(), 2);
    assert_eq!(routed[0].1, 10);
    assert_eq!(routed[1].1, 21);
    assert_eq!(deliver_all(routed), 2);
    assert_eq!(wait_first.wait(), Ok(10));
    assert_eq!(wait_second.wait(), Ok(21));
}

#[test]
fn a_message_comes_apart_into_value_and_reply() {
    let (first, _keep_first) = reply_pair::<i64>();
    let (second, _keep_second) = reply_pair::<i64>();
    let value: Message<i64, i64> = Message::Value(1);
    assert!(matches!(value.into_parts(), (Some(1), None)));
    let request: Message<i64, i64> = Message::Request(first);
    assert!(matches!(request.into_parts(), (None, Some(_))));
    let call: Message<i64, i64> = Message::Call(3, second);
    assert!(matches!(call.into_parts(), (Some(3), Some(_))));
}

#[test]
fn unpacking_keeps_values_and_replies_in_message_order() {
    let (first, wait_first) = reply_pair::<&str>();
    let (second, wait_second) = reply_pair::<&str>();
    let consumed = vec![
        Message::Call(1, first),
        Message::Value(2),
        Message::Request(second),
        Message::Value(4),
    ];
    let (values, replies) = unpack(consumed);
    assert_eq!(values, vec![1, 2, 4]);
    assert_eq!(replies.len(), 2);
    let routed = route(replies, vec!["for the call", "for the request"]);
    assert_eq!(deliver_all(routed), 2);
    assert_eq!(wait_first.wait(), Ok("for the call"));
    assert_eq!(wait_second.wait(), Ok("for the request"));
}

#[test]
fn routing_pairs_results_and_replies_by_position() {
    let (first, wait_first) = reply_pair::<i64>();
    let (second, wait_second) = reply_pair::<i64>();
    let (third, wait_third) = reply_pair::<i64>();
    let routed = route(vec![first, second, third], vec![10, 20]);
    assert_eq!(routed.len(), 2);
    assert_eq!(routed[0].1, 10);
    assert_eq!(routed[1].1, 20);
    assert_eq!(wait_third.wait(), Err(RecvError::ReplyNeverArrived));
    assert_eq!(deliver_all(routed), 2);
    assert_eq!(wait_first.wait(), Ok(10));
    assert_eq!(wait_second.wait(), Ok(20));
}

#[test]
fn routing_discards_results_that_nobody_waits_for() {
    let (only, wait_only) = reply_pair::<i64>();
    let routed = route(vec![only], vec![10, 20, 30]);
    assert_eq!(routed.len(), 1);
    assert_eq!(deliver_all(routed), 1);
    assert_eq!(wait_only.wait(), Ok(10));
    assert_eq!(route(Vec::<junctions::reply::ReplySender<i64>>::new(), vec![1]).len(), 0);
}

#[test]
fn the_tally_counts_the_attempts_that_succeeded() {
    assert_eq!(tally(&vec![]), 0);
    assert_eq!(tally(&vec![false, false]), 0);
    assert_eq!(tally(&vec![true, false, true, true, false]), 3);
    assert_eq!(tally(&vec![true]), 1);
}

#[test]
fn delivery_attempts_every_pair_once() {
    let (first, wait_first) = reply_pair::<i64>();
    let (second, wait_second) = reply_pair::<i64>();
    let (third, wait_third) = reply_pair::<i64>();
    drop(wait_second);
    assert_eq!(deliver_all(route(vec![first, second, third], vec![1, 2, 3])), 2);
    assert_eq!(wait_first.wait(), Ok(1));
    assert_eq!(wait_third.wait(), Ok(3));
    assert_eq!(deliver_all(Vec::<(junctions::reply::ReplySender<i64>, i64)>::new()), 0);
}

#[test]
fn delivery_passes_over_callers_that_went_away() {
    let (first, wait_first) = reply_pair::<i64>();
    let (second, wait_second) = reply_pair::<i64>();
    drop(wait_first);
    assert_eq!(deliver_all(route(vec![first, second], vec![1, 2])), 1);
    assert_eq!(wait_second.wait(), Ok(2));
}

#[test]
fn a_reply_pair_hands_over_one_value() {
    let (reply, waiting) = reply_pair::<String>();
    assert!(reply.deliver(String::from("done")));
    assert_eq!(waiting.wait(), Ok(String::from("done")));
    let (reply, waiting) = reply_pair::<String>();
    drop(waiting);
    assert!(!reply.deliver(String::from("lost")));
    let (reply, waiting) = reply_pair::<String>();
    drop(reply);
    assert_eq!(waiting.wait(), Err(RecvError::ReplyNeverArrived));
}

#[test]
fn outcomes_of_the_transport_are_mapped_one_for_one() {
    let (tx, rx) = channel::<i64>();
    tx.send(4).unwrap();
    assert_eq!(reply_outcome(rx.recv()), Ok(4));
    drop(tx);
    assert_eq!(reply_outcome(rx.recv()), Err(RecvError::ReplyNeverArrived));
    let (tx, rx) = channel::<i64>();
    assert!(delivered(tx.send(1)));
    drop(rx);
    assert!(!delivered(tx.send(2)));
}

#[test]
fn answers_of_the_intake_are_mapped_one_for_one() {
    let (tx, rx) = channel::<Envelope<i64, i64>>();
    let queued = tx.send(Envelope { channel_id: ChannelId(1), msg: Message::Value(1) });
    assert!(send_outcome(queued).is_ok());
    let (_reply, waiting) = reply_pair::<i64>();
    let queued = tx.send(Envelope { channel_id: ChannelId(1), msg: Message::Value(2) });
    assert!(request_outcome(queued, waiting).is_ok());
    drop(rx);
    let failed = tx.send(Envelope { channel_id: ChannelId(1), msg: Message::Value(3) });
    let error = send_outcome(failed).unwrap_err();
    assert_eq!(error.0.channel_id, ChannelId(1));
    assert!(matches!(error.0.msg, Message::Value(3)));
    let (_reply, waiting) = reply_pair::<i64>();
    let failed = tx.send(Envelope { channel_id: ChannelId(1), msg: Message::Value(4) });
    assert_eq!(request_outcome(failed, waiting).err(), Some(RecvError::TransportClosed));
}

#[test]
fn a_dispatch_point_takes_whatever_the_intake_gives() {
    let mut table = PatternTable::new(HOME);
    let echo: fn(Vec<i64>) -> Vec<i64> = |values| values;
    let only = Member { channel: ChannelId(1), junction: HOME, kind: ChannelKind::Bidir };
    table.register(Pattern::new(HOME, vec![only], echo).unwrap()).unwrap();
    let (mut dispatcher, _intake) = Dispatcher::<i64, i64, _>::new(table);

    let (reply, waiting) = reply_pair::<i64>();
    let call = Envelope { channel_id: ChannelId(1), msg: Message::Call(8, reply) };
    match dispatcher.take(Ok(call)) {
        Step::Handled(reports) => {
            assert_eq!(reports.len(), 1);
            assert!(reports[0].arity_respected());
        }
        _ => panic!("the call fires the pattern"),
    }
    assert_eq!(waiting.wait(), Ok(8));

    let stray = Envelope { channel_id: ChannelId(1), msg: Message::Value(9) };
    assert!(matches!(
        dispatcher.take(Ok(stray)),
        Step::Refused(Envelope { channel_id: ChannelId(1), msg: Message::Value(9) })
    ));
    assert!(matches!(dispatcher.take(Err(std::sync::mpsc::RecvError)), Step::Closed));
    assert_eq!(dispatcher.junction().pending_on(ChannelId(1)), 0);
}

#[test]
fn a_failed_send_hands_the_envelope_back() {
    let (tx, rx) = channel::<Envelope<String, i64>>();
    let a: SendChannel<String, i64> = SendChannel::new(ChannelId(4), HOME, tx);
    drop(rx);
    let error = a.send(String::from("kept")).unwrap_err();
    assert_eq!(error.0.channel_id, ChannelId(4));
    match error.0.msg {
        Message::Value(text) => assert_eq!(text, "kept"),
        _ => panic!("a send channel sends a value"),
    }
}

#[test]
fn each_kind_of_handle_builds_its_own_shape_of_envelope() {
    let (tx, rx) = channel::<Envelope<i64, i64>>();
    let a: SendChannel<i64, i64> = SendChannel::new(ChannelId(1), HOME, tx.clone());
    let b: RecvChannel<i64, i64> = RecvChannel::new(ChannelId(2), HOME, tx.clone());
    let c: BidirChannel<i64, i64> = BidirChannel::new(ChannelId(3), HOME, tx.clone());
    assert!(matches!(
        a.envelope(5),
        Envelope { channel_id: ChannelId(1), msg: Message::Value(5) }
    ));
    let (reply, _waiting) = reply_pair::<i64>();
    assert!(matches!(
        b.envelope(reply),
        Envelope { channel_id: ChannelId(2), msg: Message::Request(_) }
    ));
    let (reply, _waiting) = reply_pair::<i64>();
    assert!(matches!(
        c.envelope(6, reply),
        Envelope { channel_id: ChannelId(3), msg: Message::Call(6, _) }
    ));

    let _on_b = b.request().unwrap();
    let _on_c = c.submit(7).unwrap();
    assert!(matches!(
        rx.try_recv().unwrap(),
        Envelope { channel_id: ChannelId(2), msg: Message::Request(_) }
    ));
    assert!(matches!(
        rx.try_recv().unwrap(),
        Envelope { channel_id: ChannelId(3), msg: Message::Call(7, _) }
    ));
    assert!(rx.try_recv().is_err());
}

#[test]
fn handles_and_tokens_keep_the_identities() {
    let (tx, _rx) = channel::<Envelope<i64, u8>>();
    let a: SendChannel<i64, u8> = SendChannel::new(ChannelId(1), HOME, tx.clone());
    let b: RecvChannel<i64, u8> = RecvChannel::new(ChannelId(2), HOME, tx.clone());
    let c: BidirChannel<i64, u8> = BidirChannel::new(ChannelId(3), ELSEWHERE, tx.clone());
    assert_eq!((a.id(), a.junction_id()), (ChannelId(1), HOME));
    assert_eq!((b.id(), b.junction_id()), (ChannelId(2), HOME));
    assert_eq!((c.id(), c.junction_id()), (ChannelId(3), ELSEWHERE));
    let stripped_a: StrippedSendChannel<i64> = a.strip();
    let stripped_b: StrippedRecvChannel<u8> = b.strip();
    let stripped_c: StrippedBidirChannel<i64, u8> = c.strip();
    assert_eq!(stripped_a.id(), ChannelId(1));
    assert_eq!(stripped_b.id(), ChannelId(2));
    assert_eq!(stripped_c.id(), ChannelId(3));
    assert_eq!(StrippedSendChannel::<i64>::new(ChannelId(8)).id(), ChannelId(8));
    assert_eq!(StrippedRecvChannel::<u8>::new(ChannelId(9)).id(), ChannelId(9));
    assert_eq!(StrippedBidirChannel::<i64, u8>::new(ChannelId(10)).id(), ChannelId(10));
    let copy = a.clone();
    assert_eq!((copy.id(), copy.junction_id()), (ChannelId(1), HOME));
    assert_eq!(
        a.member(),
        Member { channel: ChannelId(1), junction: HOME, kind: ChannelKind::Send }
    );
    assert_eq!(
        b.member(),
        Member { channel: ChannelId(2), junction: HOME, kind: ChannelKind::Recv }
    );
    assert_eq!(
        c.member(),
        Member { channel: ChannelId(3), junction: ELSEWHERE, kind: ChannelKind::Bidir }
    );
}
