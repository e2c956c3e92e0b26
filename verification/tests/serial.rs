use junctions::channels::BidirChannel;
use junctions::ids::{ChannelId, JunctionId};
use junctions::junction::{Dispatcher, Step};
use junctions::message::ChannelKind;
use junctions::pattern::{Member, Pattern, PatternTable};
use std::sync::atomic::{AtomicUsize, Ordering};
use std::sync::Arc;

#[test]
fn reactions_run_one_at_a_time() {
    let home = JunctionId(1);
    let running = Arc::new(AtomicUsize::new(0));
    let most = Arc::new(AtomicUsize::new(0));
    let calls = Arc::new(AtomicUsize::new(0));
    let guarded = {
        let running = running.clone();
        let most = most.clone();
        let calls = calls.clone();
        move |values: Vec<i64>| {
            let now = running.fetch_add(1, Ordering::SeqCst) + 1;
            most.fetch_max(now, Ordering::SeqCst);
            calls.fetch_add(1, Ordering::SeqCst);
            running.fetch_sub(1, Ordering::SeqCst);
            values
        }
    };
    let mut table = PatternTable::new(home);
    let members = vec![Member { channel: ChannelId(1), junction: home, kind: ChannelKind::Bidir }];
    table.register(Pattern::new(home, members, guarded).unwrap()).unwrap();
    let (mut dispatcher, intake) = Dispatcher::new(table);
    let x: BidirChannel<i64, i64> = BidirChannel::new(ChannelId(1), home, intake.clone());
    let mut waiting = Vec::new();
    for value in 0..50i64 {
        waiting.push((value, x.submit(value).unwrap()));
    }
    for _ in 0..50 {
        match dispatcher.step() {
            Step::Handled(reports) => assert_eq!(reports.len(), 1),
            _ => panic!("every envelope fires the pattern"),
        }
    }
    for (value, reply) in waiting {
        assert_eq!(reply.wait(), Ok(value));
    }
    assert_eq!(calls.load(Ordering::SeqCst), 50);
    assert_eq!(most.load(Ordering::SeqCst), 1);
    assert_eq!(running.load(Ordering::SeqCst), 0);
}
