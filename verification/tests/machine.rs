use std::time::Duration;

use jangada::types::{
    Action, AppendEntries, AppendEntriesReply, ElectionTimeoutCtx, Event, RequestVote,
    RequestVoteReply, RpcPayload, State,
};
use jangada::{Machine, MachineRng};

struct FixedRng(u64);

impl MachineRng for FixedRng {
    fn next_election_timeout(&self) -> Duration {
        Duration::from_millis(self.0)
    }
}

const HEARTBEAT: Duration = Duration::from_millis(50);

fn machine(id: u64, peers: Vec<u64>) -> Machine<u64> {
    Machine::new(id, peers, HEARTBEAT, Box::new(FixedRng(200)))
}

fn step(m: &mut Machine<u64>, event: Event<u64>) -> Vec<Action<u64>> {
    assert!(m.can_tick(&event));
    m.tick(event);
    m.actions().to_vec()
}

fn timeout(term: u64) -> Event<u64> {
    Event::ElectionTimeout((), ElectionTimeoutCtx { term_started: term })
}

fn vote_reply(src: u64, term: u64, granted: bool) -> Event<u64> {
    Event::RpcReply(src, RpcPayload::RequestVoteReply(RequestVoteReply { term, granted }))
}

fn vote_request(src: u64, term: u64, candidate_id: u64) -> Event<u64> {
    Event::RpcReply(src, RpcPayload::RequestVote(RequestVote { term, candidate_id }))
}

fn heartbeat(src: u64, term: u64) -> Event<u64> {
    Event::RpcReply(src, RpcPayload::AppendEntries(AppendEntries { term, leader_id: src }))
}

fn heartbeat_reply(src: u64, term: u64, success: bool) -> Event<u64> {
    Event::RpcReply(src, RpcPayload::AppendEntriesReply(AppendEntriesReply { term, success }))
}

fn is_timer(a: &Action<u64>, term: u64) -> bool {
    matches!(a, Action::StartElectionTimeout(d, ctx) if *d == Duration::from_millis(200) && ctx.term_started == term)
}

fn is_vote_request(a: &Action<u64>, dest: u64, term: u64, candidate: u64) -> bool {
    matches!(a, Action::Rpc(d, RpcPayload::RequestVote(rv)) if *d == dest && rv.term == term && rv.candidate_id == candidate)
}

fn is_vote_reply(a: &Action<u64>, dest: u64, term: u64, granted: bool) -> bool {
    matches!(a, Action::Rpc(d, RpcPayload::RequestVoteReply(r)) if *d == dest && r.term == term && r.granted == granted)
}

fn is_heartbeat(a: &Action<u64>, dest: u64, term: u64, leader: u64) -> bool {
    matches!(a, Action::Rpc(d, RpcPayload::AppendEntries(ae)) if *d == dest && ae.term == term && ae.leader_id == leader)
}

fn is_heartbeat_reply(a: &Action<u64>, dest: u64, term: u64, success: bool) -> bool {
    matches!(a, Action::Rpc(d, RpcPayload::AppendEntriesReply(r)) if *d == dest && r.term == term && r.success == success)
}

/// A leader of term 2 among peers 2 and 3.
fn leader() -> Machine<u64> {
    let mut m = machine(1, vec![2, 3]);
    step(&mut m, Event::Start);
    step(&mut m, timeout(1));
    step(&mut m, vote_reply(2, 2, true));
    assert_eq!(m.state(), State::Leader);
    m
}

#[test]
fn new_machine_is_follower_in_term_one() {
    let m = machine(7, vec![8, 9]);
    assert_eq!(*m.id(), 7);
    assert_eq!(m.peers(), &[8, 9]);
    assert_eq!(m.state(), State::Follower);
    assert_eq!(m.current_term(), 1);
}

#[test]
fn start_schedules_an_election_timer() {
    let mut m = machine(1, vec![2, 3]);
    let actions = step(&mut m, Event::Start);
    assert_eq!(actions.len(), 1);
    assert!(is_timer(&actions[0], 1));
    assert_eq!(m.state(), State::Follower);
}

#[test]
fn election_timeout_starts_an_election() {
    let mut m = machine(1, vec![2, 3]);
    step(&mut m, Event::Start);
    let actions = step(&mut m, timeout(1));
    assert_eq!(m.state(), State::Candidate);
    assert_eq!(m.current_term(), 2);
    assert_eq!(actions.len(), 3);
    assert!(is_vote_request(&actions[0], 2, 2, 1));
    assert!(is_vote_request(&actions[1], 3, 2, 1));
    assert!(is_timer(&actions[2], 2));
}

#[test]
fn stale_election_timeout_is_ignored() {
    let mut m = machine(1, vec![2, 3]);
    step(&mut m, timeout(1));
    let actions = step(&mut m, timeout(1));
    assert!(actions.is_empty());
    assert_eq!(m.current_term(), 2);
    assert_eq!(m.state(), State::Candidate);
}

#[test]
fn leader_ignores_election_timeout() {
    let mut m = leader();
    let actions = step(&mut m, timeout(2));
    assert!(actions.is_empty());
    assert_eq!(m.state(), State::Leader);
    assert_eq!(m.current_term(), 2);
}

#[test]
fn repeated_timeouts_start_new_terms() {
    let mut m = machine(1, vec![2, 3]);
    step(&mut m, timeout(1));
    let actions = step(&mut m, timeout(2));
    assert_eq!(m.current_term(), 3);
    assert!(is_vote_request(&actions[0], 2, 3, 1));
    assert!(is_timer(&actions[2], 3));
}

#[test]
fn majority_of_votes_makes_a_leader() {
    let mut m = machine(1, vec![2, 3]);
    step(&mut m, timeout(1));
    let actions = step(&mut m, vote_reply(2, 2, true));
    assert_eq!(m.state(), State::Leader);
    assert_eq!(actions.len(), 1);
    assert!(matches!(actions[0], Action::StartLeaderHeartbeatTicker(d) if d == HEARTBEAT));
}

#[test]
fn five_servers_need_three_votes() {
    let mut m = machine(1, vec![2, 3, 4, 5]);
    step(&mut m, timeout(1));
    let actions = step(&mut m, vote_reply(2, 2, true));
    assert!(actions.is_empty());
    assert_eq!(m.state(), State::Candidate);
    step(&mut m, vote_reply(3, 2, false));
    assert_eq!(m.state(), State::Candidate);
    step(&mut m, vote_reply(3, 2, true));
    assert_eq!(m.state(), State::Leader);
}

#[test]
fn vote_of_an_older_election_is_not_counted() {
    let mut m = machine(1, vec![2, 3, 4, 5]);
    step(&mut m, timeout(1));
    step(&mut m, timeout(2));
    step(&mut m, vote_reply(2, 2, true));
    step(&mut m, vote_reply(3, 2, true));
    assert_eq!(m.state(), State::Candidate);
}

#[test]
fn vote_reply_with_later_term_steps_down() {
    let mut m = machine(1, vec![2, 3]);
    step(&mut m, timeout(1));
    let actions = step(&mut m, vote_reply(2, 5, false));
    assert_eq!(m.state(), State::Follower);
    assert_eq!(m.current_term(), 5);
    assert_eq!(actions.len(), 1);
    assert!(is_timer(&actions[0], 5));
}

#[test]
fn vote_reply_to_a_follower_is_ignored() {
    let mut m = machine(1, vec![2, 3]);
    let actions = step(&mut m, vote_reply(2, 9, true));
    assert!(actions.is_empty());
    assert_eq!(m.current_term(), 1);
}

#[test]
fn vote_is_granted_once_per_term() {
    let mut m = machine(1, vec![2, 3]);
    let actions = step(&mut m, vote_request(2, 1, 2));
    assert_eq!(actions.len(), 2);
    assert!(is_timer(&actions[0], 1));
    assert!(is_vote_reply(&actions[1], 2, 1, true));
    // Again for the same candidate: granted again.
    let actions = step(&mut m, vote_request(2, 1, 2));
    assert!(is_vote_reply(&actions[1], 2, 1, true));
    // Another candidate in the same term: refused.
    let actions = step(&mut m, vote_request(3, 1, 3));
    assert_eq!(actions.len(), 1);
    assert!(is_vote_reply(&actions[0], 3, 1, false));
}

#[test]
fn vote_request_of_an_older_term_is_refused() {
    let mut m = machine(1, vec![2, 3]);
    step(&mut m, timeout(1));
    let actions = step(&mut m, vote_request(3, 1, 3));
    assert_eq!(actions.len(), 1);
    assert!(is_vote_reply(&actions[0], 3, 2, false));
    assert_eq!(m.state(), State::Candidate);
}

#[test]
fn vote_request_of_a_later_term_steps_down_and_grants() {
    let mut m = leader();
    let actions = step(&mut m, vote_request(3, 4, 3));
    assert_eq!(m.state(), State::Follower);
    assert_eq!(m.current_term(), 4);
    assert_eq!(actions.len(), 3);
    assert!(is_timer(&actions[0], 4));
    assert!(is_timer(&actions[1], 4));
    assert!(is_vote_reply(&actions[2], 3, 4, true));
}

#[test]
fn heartbeat_tick_of_a_leader_sends_append_entries() {
    let mut m = leader();
    let actions = step(&mut m, Event::LeaderHeartbeatTick);
    assert_eq!(actions.len(), 2);
    assert!(is_heartbeat(&actions[0], 2, 2, 1));
    assert!(is_heartbeat(&actions[1], 3, 2, 1));
}

#[test]
fn heartbeat_tick_of_a_follower_stops_the_ticker() {
    let mut m = machine(1, vec![2, 3]);
    let actions = step(&mut m, Event::LeaderHeartbeatTick);
    assert_eq!(actions.len(), 1);
    assert!(matches!(actions[0], Action::StopLeaderHeartbeatTicker));
}

#[test]
fn heartbeat_of_the_current_term_is_accepted() {
    let mut m = machine(1, vec![2, 3]);
    let actions = step(&mut m, heartbeat(2, 1));
    assert_eq!(actions.len(), 2);
    assert!(is_timer(&actions[0], 1));
    assert!(is_heartbeat_reply(&actions[1], 2, 1, true));
    assert_eq!(m.state(), State::Follower);
}

#[test]
fn heartbeat_of_an_older_term_is_refused() {
    let mut m = machine(1, vec![2, 3]);
    step(&mut m, timeout(1));
    let actions = step(&mut m, heartbeat(2, 1));
    assert_eq!(actions.len(), 1);
    assert!(is_heartbeat_reply(&actions[0], 2, 2, false));
    assert_eq!(m.state(), State::Candidate);
}

#[test]
fn candidate_follows_a_leader_of_its_term() {
    let mut m = machine(1, vec![2, 3]);
    step(&mut m, timeout(1));
    let actions = step(&mut m, heartbeat(3, 2));
    assert_eq!(m.state(), State::Follower);
    assert_eq!(m.current_term(), 2);
    assert_eq!(actions.len(), 3);
    assert!(is_timer(&actions[0], 2));
    assert!(is_timer(&actions[1], 2));
    assert!(is_heartbeat_reply(&actions[2], 3, 2, true));
}

#[test]
fn candidate_forgets_its_vote_on_a_heartbeat_of_its_term() {
    let mut m = machine(1, vec![2, 3]);
    step(&mut m, timeout(1));
    step(&mut m, heartbeat(3, 2));
    // The vote for itself is forgotten: another candidate of term 2 gets it.
    let actions = step(&mut m, vote_request(2, 2, 2));
    assert!(is_vote_reply(actions.last().unwrap(), 2, 2, true));
}

#[test]
fn heartbeat_of_a_later_term_steps_down() {
    let mut m = leader();
    let actions = step(&mut m, heartbeat(3, 6));
    assert_eq!(m.state(), State::Follower);
    assert_eq!(m.current_term(), 6);
    assert_eq!(actions.len(), 3);
    assert!(is_heartbeat_reply(&actions[2], 3, 6, true));
}

#[test]
fn heartbeat_reply_with_later_term_steps_down() {
    let mut m = leader();
    step(&mut m, Event::LeaderHeartbeatTick);
    let actions = step(&mut m, heartbeat_reply(2, 3, false));
    assert_eq!(m.state(), State::Follower);
    assert_eq!(m.current_term(), 3);
    assert_eq!(actions.len(), 1);
    assert!(is_timer(&actions[0], 3));
}

#[test]
fn heartbeat_reply_of_the_same_term_changes_nothing() {
    let mut m = leader();
    step(&mut m, Event::LeaderHeartbeatTick);
    let actions = step(&mut m, heartbeat_reply(2, 2, true));
    assert!(actions.is_empty());
    assert_eq!(m.state(), State::Leader);
}

#[test]
fn late_heartbeat_reply_can_lower_the_term() {
    let mut m = leader();
    step(&mut m, Event::LeaderHeartbeatTick);
    step(&mut m, heartbeat(3, 9));
    assert_eq!(m.current_term(), 9);
    // A reply to the heartbeats of term 2 that carries term 5.
    step(&mut m, heartbeat_reply(2, 5, false));
    assert_eq!(m.current_term(), 5);
    assert_eq!(m.state(), State::Follower);
}

#[test]
fn taking_actions_empties_the_buffer() {
    let mut m = machine(1, vec![2]);
    m.tick(Event::Start);
    assert!(!m.can_tick(&Event::Start));
    {
        let guard = m.actions();
        assert_eq!(guard.len(), 1);
    }
    assert!(m.can_tick(&Event::Start));
    assert!(m.actions().is_empty());
}

#[test]
fn cannot_start_an_election_past_the_last_term() {
    let mut m = machine(1, vec![]);
    step(&mut m, heartbeat(2, u64::MAX));
    assert_eq!(m.current_term(), u64::MAX);
    assert!(!m.can_tick(&timeout(u64::MAX)));
    assert!(m.can_tick(&timeout(3)));
}

#[test]
fn cloned_actions_are_equal() {
    let actions = vec![
        Action::StartElectionTimeout(Duration::from_millis(7), ElectionTimeoutCtx { term_started: 3 }),
        Action::StartLeaderHeartbeatTicker(HEARTBEAT),
        Action::StopLeaderHeartbeatTicker,
        Action::Rpc(4u64, RpcPayload::RequestVote(RequestVote { term: 2, candidate_id: 1 })),
        Action::Rpc(4u64, RpcPayload::AppendEntriesReply(AppendEntriesReply { term: 2, success: true })),
    ];
    for a in &actions {
        assert_eq!(format!("{:?}", a.clone()), format!("{:?}", a));
    }
}

#[test]
fn reply_is_handled_the_same_whoever_sent_it() {
    let mut a = leader();
    let mut b = leader();
    step(&mut a, Event::LeaderHeartbeatTick);
    step(&mut b, Event::LeaderHeartbeatTick);
    let xa = step(&mut a, heartbeat_reply(2, 4, false));
    let xb = step(&mut b, heartbeat_reply(3, 4, false));
    assert_eq!(format!("{:?}", xa), format!("{:?}", xb));
    assert_eq!(a.state(), b.state());
    assert_eq!(a.current_term(), b.current_term());
}

