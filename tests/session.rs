use chainpulse::session::{on_iteration_end, Collector, IterationEnd, Outcome, Progress};

#[test]
fn deadline_boundary() {
    let c = Collector::new();
    assert_eq!(c.on_wait(59_900), Progress::Running(c));
    assert_eq!(c.on_wait(60_000), Progress::Done(Outcome::Timeout(60_000)));
}

#[test]
fn rotation_after_exactly_one_hundred_blocks() {
    let mut c = Collector::new();
    for n in 1..100u64 {
        match c.after_block() {
            Progress::Running(next) => {
                assert_eq!(next.blocks, n);
                c = next;
            },
            Progress::Done(o) => panic!("ended early with {o:?}"),
        }
    }
    assert_eq!(c.after_block(), Progress::Done(Outcome::BlockElapsed(100)));
}

#[test]
fn closed_stream_disconnects() {
    let c = Collector { blocks: 3 };
    assert_eq!(c.on_closed(), Outcome::Disconnect(3));
}

#[test]
fn reconnect_on_timeout() {
    let c = Collector::new();
    let Progress::Done(outcome) = c.on_wait(60_000) else { panic!("expected a timeout") };
    let r = on_iteration_end(IterationEnd::Finished(outcome));
    assert!(r.count_timeout);
    assert!(r.count_reconnect);
    assert!(!r.count_error);
    assert_eq!(r.delay_secs, 5);
}

#[test]
fn failure_counts_an_error() {
    let r = on_iteration_end(IterationEnd::Failed);
    assert!(r.count_error && r.count_reconnect && !r.count_timeout);
    let r = on_iteration_end(IterationEnd::Finished(Outcome::BlockElapsed(100)));
    assert!(!r.count_error && r.count_reconnect && !r.count_timeout);
}
