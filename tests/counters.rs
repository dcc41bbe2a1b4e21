use counter_server::counter::{next_value, Counter, SharedCounter};
use counter_server::history::{Contexts, Event, Op};

fn ev(ctx: usize, op: Op) -> Event {
    Event { ctx, op }
}

#[test]
fn fresh_shared_counter_reads_zero() {
    let c = SharedCounter::new();
    assert_eq!(c.read_global(), 0);
}

#[test]
fn fresh_contexts_read_zero() {
    let c = Contexts::new(3);
    assert_eq!(c.read_global(), 0);
    assert_eq!(c.read_local(2), 0);
    assert_eq!(c.contexts(), 3);
}

#[test]
fn first_read_in_a_history_is_zero() {
    let mut c = Contexts::new(2);
    let replies = c.run(&vec![ev(1, Op::ReadGlobal)]);
    assert_eq!(replies, vec![0]);
}

#[test]
fn hundred_increments_from_ten_shared_handles() {
    let root = SharedCounter::new();
    let handles: Vec<SharedCounter> = (0..10).map(|_| root.share()).collect();
    for _round in 0..10 {
        for h in &handles {
            h.increment_global();
        }
    }
    assert_eq!(root.read_global(), 100);
    assert_eq!(handles[3].read_global(), 100);
}

#[test]
fn hundred_increments_from_ten_contexts() {
    let mut c = Contexts::new(10);
    let mut events = Vec::new();
    for _round in 0..10 {
        for ctx in 0..10 {
            events.push(ev(ctx, Op::IncrementGlobal));
        }
    }
    let replies = c.run(&events);
    assert_eq!(replies.len(), 100);
    assert_eq!(replies[99], 100);
    assert_eq!(c.read_global(), 100);
}

#[test]
fn increments_mixed_with_other_work_are_all_counted() {
    let mut c = Contexts::new(3);
    let events = vec![
        ev(0, Op::IncrementGlobal),
        ev(1, Op::IncrementLocal),
        ev(2, Op::IncrementGlobal),
        ev(1, Op::ReadLocal),
        ev(0, Op::IncrementGlobal),
        ev(2, Op::ReadGlobal),
    ];
    let replies = c.run(&events);
    assert_eq!(replies, vec![1, 1, 2, 1, 3, 3]);
    assert_eq!(c.read_global(), 3);
}

#[test]
fn read_between_two_increments() {
    let before = vec![ev(2, Op::ReadGlobal), ev(0, Op::IncrementGlobal), ev(1, Op::IncrementGlobal)];
    let between = vec![ev(0, Op::IncrementGlobal), ev(2, Op::ReadGlobal), ev(1, Op::IncrementGlobal)];
    let after = vec![ev(0, Op::IncrementGlobal), ev(1, Op::IncrementGlobal), ev(2, Op::ReadGlobal)];
    assert_eq!(Contexts::new(3).run(&before), vec![0, 1, 2]);
    assert_eq!(Contexts::new(3).run(&between), vec![1, 1, 2]);
    assert_eq!(Contexts::new(3).run(&after), vec![1, 2, 2]);
}

#[test]
fn local_counts_are_isolated() {
    let mut c = Contexts::new(2);
    for _ in 0..3 {
        c.increment_local(0);
        c.increment_local(1);
    }
    assert_eq!(c.read_local(0), 3);
    assert_eq!(c.read_local(1), 3);
    assert_eq!(c.read_global(), 0);
}

#[test]
fn local_count_ignores_other_contexts() {
    let mut c = Contexts::new(3);
    assert_eq!(c.increment_local(1), 1);
    assert_eq!(c.increment_local(1), 2);
    c.increment_local(2);
    c.increment_global();
    assert_eq!(c.read_local(0), 0);
    assert_eq!(c.read_local(1), 2);
    assert_eq!(c.read_local(2), 1);
}

#[test]
fn apply_answers_like_the_direct_calls() {
    let mut c = Contexts::new(1);
    assert_eq!(c.apply(ev(0, Op::IncrementLocal)), 1);
    assert_eq!(c.apply(ev(0, Op::IncrementGlobal)), 1);
    assert_eq!(c.apply(ev(0, Op::IncrementGlobal)), 2);
    assert_eq!(c.apply(ev(0, Op::ReadGlobal)), 2);
    assert_eq!(c.apply(ev(0, Op::ReadLocal)), 1);
}

#[test]
fn counter_counts_up() {
    let mut c = Counter::new();
    assert_eq!(c.get(), 0);
    assert_eq!(c.increment(), 1);
    assert_eq!(c.increment(), 2);
    assert_eq!(c.get(), 2);
}

#[test]
fn increment_wraps_at_the_top() {
    assert_eq!(next_value(usize::MAX), 0);
    assert_eq!(next_value(41), 42);
}

#[test]
fn shared_increment_returns_new_value() {
    let c = SharedCounter::new();
    assert_eq!(c.increment_global(), 1);
    assert_eq!(c.increment_global(), 2);
    assert_eq!(c.read_global(), 2);
}
