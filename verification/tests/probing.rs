use internet_health::latency::{p95, trim_history, HISTORY_CAP};
use internet_health::round::{Action, Event, Round};
use internet_health::window::{ProbeWindow, Ratio};

const OK_20: Event = Event::Reply { status: 204, elapsed_ms: 20 };

#[test]
fn empty_window() {
    let w = ProbeWindow::new(3);
    assert_eq!(w.len(), 0);
    assert_eq!(w.ok_count(), 0);
    assert_eq!(w.last_latency(), None);
    assert_eq!(w.ok_ratio(), Ratio { num: 0, den: 1 });
}

#[test]
fn window_lets_the_oldest_go() {
    let mut w = ProbeWindow::new(3);
    w.push(true, Some(10));
    w.push(false, None);
    w.push(true, Some(30));
    assert_eq!(w.len(), 3);
    assert_eq!(w.ok_ratio(), Ratio { num: 2, den: 3 });
    w.push(false, None);
    assert_eq!(w.len(), 3);
    assert_eq!(w.ok_ratio(), Ratio { num: 1, den: 3 });
    assert_eq!(w.last_latency(), None);
    w.push(true, Some(50));
    assert_eq!(w.ok_count(), 2);
    assert_eq!(w.last_latency(), Some(50));
}

#[test]
fn window_without_a_bound_keeps_everything() {
    let mut w = ProbeWindow::default();
    for i in 0..5u128 {
        w.push(true, Some(i));
    }
    assert_eq!(w.len(), 5);
    assert_eq!(w.last_latency(), Some(4));
    assert_eq!(w.ok_ratio(), Ratio { num: 5, den: 5 });
}

#[test]
fn p95_of_nothing() {
    assert_eq!(p95(&[]), None);
}

#[test]
fn p95_of_few_is_the_largest() {
    assert_eq!(p95(&[7]), Some(7));
    assert_eq!(p95(&[30, 10, 20]), Some(30));
    let v: Vec<u128> = (1..=19).collect();
    assert_eq!(p95(&v), Some(19));
}

#[test]
fn p95_by_nearest_rank() {
    let v: Vec<u128> = (1..=20).collect();
    assert_eq!(p95(&v), Some(19));
    let v: Vec<u128> = (1..=21).collect();
    assert_eq!(p95(&v), Some(20));
    let v: Vec<u128> = (1..=100).rev().collect();
    assert_eq!(p95(&v), Some(95));
    let v: Vec<u128> = (1..=101).collect();
    assert_eq!(p95(&v), Some(96));
}

#[test]
fn p95_agrees_with_the_floating_point_rank() {
    for n in 1..=600usize {
        let v: Vec<u128> = (0..n as u128).collect();
        let rank = ((n as f64) * 0.95).ceil() as usize;
        assert_eq!(p95(&v), Some(rank as u128 - 1));
    }
}

#[test]
fn p95_ignores_order() {
    let a: Vec<u128> = (1..=40).collect();
    let mut b = a.clone();
    b.reverse();
    b.swap(3, 17);
    assert_eq!(p95(&a), p95(&b));
    assert_eq!(p95(&[5, 5, 5, 5]), Some(5));
}

#[test]
fn history_is_cut_down_to_the_latest() {
    let mut h: Vec<u128> = (0..503).collect();
    trim_history(&mut h);
    assert_eq!(h.len(), HISTORY_CAP);
    assert_eq!(h[0], 3);
    assert_eq!(h[499], 502);
    let mut short: Vec<u128> = vec![1, 2];
    trim_history(&mut short);
    assert_eq!(short, vec![1, 2]);
}

#[test]
fn trimming_early_loses_nothing() {
    let mut early: Vec<u128> = (0..600).collect();
    trim_history(&mut early);
    early.extend(600..650u128);
    trim_history(&mut early);
    let mut late: Vec<u128> = (0..650).collect();
    trim_history(&mut late);
    assert_eq!(early, late);
}

#[test]
fn good_round_probes_each_target_once() {
    let mut h: Vec<u128> = vec![1];
    let mut r = Round::new(2, 3);
    assert_eq!(r.action(), Action::Probe { target: 0 });
    r.observe(OK_20, &mut h);
    assert_eq!(r.action(), Action::Probe { target: 1 });
    r.observe(Event::Reply { status: 204, elapsed_ms: 35 }, &mut h);
    assert_eq!(r.action(), Action::Finish);
    assert_eq!(r.outcome(), (true, Some(35)));
    assert_eq!(h, vec![1, 20, 35]);
    assert!(r.in_first_pass());
}

#[test]
fn only_204_is_a_success() {
    for status in [200u16, 203, 205, 302, 404, 500] {
        let mut h: Vec<u128> = Vec::new();
        let mut r = Round::new(1, 0);
        r.observe(Event::Reply { status, elapsed_ms: 5 }, &mut h);
        assert_eq!(r.action(), Action::Finish);
        assert_eq!(r.outcome(), (false, None));
        assert!(h.is_empty());
    }
}

#[test]
fn rechecks_stop_after_a_success() {
    let mut h: Vec<u128> = Vec::new();
    let mut r = Round::new(2, 5);
    r.observe(Event::Failure, &mut h);
    r.observe(Event::Reply { status: 503, elapsed_ms: 9 }, &mut h);
    assert_eq!(r.action(), Action::Pause);
    r.observe(Event::Rested, &mut h);
    assert!(!r.in_first_pass());
    assert_eq!(r.action(), Action::Probe { target: 0 });
    r.observe(OK_20, &mut h);
    assert_eq!(r.action(), Action::Probe { target: 1 });
    r.observe(Event::Failure, &mut h);
    assert_eq!(r.action(), Action::Finish);
    assert_eq!(r.outcome(), (true, Some(20)));
    assert_eq!(h, vec![20]);
}

#[test]
fn failed_round_goes_through_all_rechecks() {
    let mut h: Vec<u128> = Vec::new();
    let mut r = Round::new(3, 2);
    let (mut probes, mut pauses) = (0, 0);
    loop {
        match r.action() {
            Action::Probe { .. } => {
                probes += 1;
                r.observe(Event::Failure, &mut h);
            }
            Action::Pause => {
                pauses += 1;
                r.observe(Event::Rested, &mut h);
            }
            Action::Finish => break,
        }
    }
    assert_eq!((probes, pauses), (9, 2));
    assert_eq!(r.outcome(), (false, None));
}

#[test]
fn round_without_targets_only_pauses() {
    let mut h: Vec<u128> = Vec::new();
    let mut r = Round::new(0, 1);
    assert_eq!(r.action(), Action::Pause);
    r.observe(Event::Rested, &mut h);
    assert_eq!(r.action(), Action::Finish);
}

#[test]
fn unexpected_events_change_nothing() {
    let mut h: Vec<u128> = Vec::new();
    let mut r = Round::new(1, 1);
    r.observe(Event::Rested, &mut h);
    assert_eq!(r.action(), Action::Probe { target: 0 });
    r.observe(OK_20, &mut h);
    r.observe(OK_20, &mut h);
    r.observe(Event::Failure, &mut h);
    assert_eq!(r.action(), Action::Finish);
    assert_eq!(h, vec![20]);
}
