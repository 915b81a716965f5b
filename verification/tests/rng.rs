use std::collections::HashSet;
use std::time::Duration;

use jangada::types::{Action, Event, RequestVote, RpcPayload};
use jangada::{DefaultMachineRng, Machine, MachineRng};

fn draws(rng: &DefaultMachineRng, n: usize) -> Vec<Duration> {
    (0..n).map(|_| rng.next_election_timeout()).collect()
}

#[test]
fn default_timeouts_lie_in_150_to_300_ms() {
    let rng = DefaultMachineRng::new();
    for d in draws(&rng, 500) {
        assert!(d >= Duration::from_millis(150) && d <= Duration::from_millis(300), "{d:?}");
    }
}

#[test]
fn default_is_new() {
    let rng = DefaultMachineRng::default();
    for d in draws(&rng, 200) {
        assert!(d >= Duration::from_millis(150) && d <= Duration::from_millis(300), "{d:?}");
    }
}

#[test]
fn scaled_timeouts_lie_in_their_range() {
    let rng = DefaultMachineRng::with_params(300, 3);
    for d in draws(&rng, 500) {
        assert!(d >= Duration::from_millis(750) && d <= Duration::from_millis(1200), "{d:?}");
        // Every draw is `300 + 3 * n` milliseconds.
        assert_eq!((d.as_millis() - 300) % 3, 0);
    }
}

#[test]
fn timeouts_are_drawn_at_random() {
    let rng = DefaultMachineRng::new();
    let distinct: HashSet<Duration> = draws(&rng, 300).into_iter().collect();
    assert!(distinct.len() > 1);
}

#[test]
fn zero_factor_gives_a_constant_timeout() {
    let rng = DefaultMachineRng::with_params(42, 0);
    for d in draws(&rng, 50) {
        assert_eq!(d, Duration::from_millis(42));
    }
}

#[test]
fn draw_maps_to_constant_plus_factor_times_draw() {
    assert_eq!(jangada::timeout_for_draw(300, 3, 150), Duration::from_millis(750));
    assert_eq!(jangada::timeout_for_draw(0, 1, 300), Duration::from_millis(300));
}

#[test]
fn machine_timers_come_from_its_source() {
    let rng: Box<dyn MachineRng> = Box::new(DefaultMachineRng::with_params(100, 0));
    let mut m: Machine<u32> = Machine::new(1, vec![2, 3], Duration::from_millis(50), rng);
    m.tick(Event::RpcReply(2, RpcPayload::RequestVote(RequestVote { term: 2, candidate_id: 2 })));
    let actions = m.actions().to_vec();
    assert_eq!(actions.len(), 3);
    for a in &actions[..2] {
        assert!(matches!(a, Action::StartElectionTimeout(d, ctx) if *d == Duration::from_millis(100) && ctx.term_started == 2));
    }
    assert!(matches!(&actions[2], Action::Rpc(2, RpcPayload::RequestVoteReply(r)) if r.term == 2 && r.granted));
}
