//! The mathematical model of a consensus machine: its state, and what one
//! event does to it.
//!
//! A step is a pair of the server's new state and the actions it emits, in
//! order. The durations of election timers are chosen by the machine's random
//! source: the model leaves them open, and a machine's timer carries a
//! duration that its source may return (see [`emitted_as`]).
use crate::types::{
    Action, AppendEntries, AppendEntriesReply, ElectionTimeoutCtx, Event, RequestVote,
    RequestVoteReply, RpcPayload, State,
};
use std::time::Duration;
use vstd::pervasive::arbitrary;
use vstd::prelude::*;

verus! {

/// The state of a server, without its buffer of pending actions.
pub struct ServerView<I> {
    pub id: I,
    pub peers: Seq<I>,
    pub state: State,
    pub current_term: u64,
    pub voted_for: Option<I>,
    /// The term in which the last round of heartbeats was sent.
    pub append_log_saved_term: u64,
    /// The term of the last election this server started.
    pub election_term: u64,
    /// The votes counted in that election, the server's own included.
    pub election_votes: u32,
    pub heartbeat_interval: Duration,
}

/// A whole machine: its state, the actions it has emitted since they were
/// last taken, and the durations its random source may return for an
/// election timer.
pub struct MachineView<I> {
    pub server: ServerView<I>,
    pub actions: Seq<Action<I>>,
    pub timeouts: spec_fn(Duration) -> bool,
}

/// What one event does: the new state and the emitted actions.
pub type Step<I> = (ServerView<I>, Seq<Action<I>>);

/// The number of servers whose votes can be counted in a `u32`: counting may
/// reach half of them plus one.
pub open spec fn peers_fit(n_peers: int) -> bool {
    n_peers + 3 < 2 * (u32::MAX as int)
}

impl<I> ServerView<I> {
    /// What holds of every state that a machine reaches.
    pub open spec fn inv(self) -> bool {
        &&& peers_fit(self.peers.len() as int)
        &&& self.state != State::Dead
        &&& self.append_log_saved_term <= self.current_term
        &&& self.state == State::Candidate ==> {
            &&& self.election_term == self.current_term
            &&& self.voted_for == Some(self.id)
            &&& 1 <= self.election_votes
            &&& 2 * self.election_votes <= self.peers.len() + 3
        }
        &&& self.state == State::Leader ==> {
            &&& self.election_term == self.current_term
            &&& self.voted_for == Some(self.id)
        }
    }
}

/// The machine emitted `a` where the model has `expected`: the same action,
/// except that an election timer's duration is one that the random source
/// may return (the model leaves it open).
pub open spec fn emitted_as<I>(
    timeouts: spec_fn(Duration) -> bool,
    a: Action<I>,
    expected: Action<I>,
) -> bool {
    match expected {
        Action::StartElectionTimeout(_, ctx) => a matches Action::StartElectionTimeout(d, c) && c
            == ctx && timeouts(d),
        _ => a == expected,
    }
}

/// The machine emitted the sequence `a` where the model has `expected`,
/// action by action.
pub open spec fn emitted<I>(
    timeouts: spec_fn(Duration) -> bool,
    a: Seq<Action<I>>,
    expected: Seq<Action<I>>,
) -> bool {
    &&& a.len() == expected.len()
    &&& forall|i: int| 0 <= i < a.len() ==> #[trigger] emitted_as(timeouts, a[i], expected[i])
}

/// An election timer started in `term`. Its duration is chosen by the
/// random source when the machine runs it (see [`emitted_as`]).
pub open spec fn election_timer<I>(term: u64) -> Action<I> {
    Action::StartElectionTimeout(arbitrary(), ElectionTimeoutCtx { term_started: term })
}

/// One RPC with the same payload to each peer, in the order of the peers.
pub open spec fn rpc_to_peers<I>(peers: Seq<I>, payload: RpcPayload<I>) -> Seq<Action<I>> {
    peers.map_values(|p: I| Action::Rpc(p, payload))
}

pub open spec fn unchanged<I>(s: ServerView<I>) -> Step<I> {
    (s, Seq::empty())
}

pub open spec fn run_election_timer<I>(s: ServerView<I>) -> Step<I> {
    (s, seq![election_timer(s.current_term)])
}

pub open spec fn become_follower<I>(s: ServerView<I>, term: u64) -> Step<I> {
    run_election_timer(ServerView { state: State::Follower, current_term: term, voted_for: None, ..s })
}

pub open spec fn start_election<I>(s: ServerView<I>) -> Step<I> {
    let term = (s.current_term + 1) as u64;
    let s1 = ServerView {
        state: State::Candidate,
        current_term: term,
        voted_for: Some(s.id),
        election_term: term,
        election_votes: 1,
        ..s
    };
    let requests = rpc_to_peers(
        s.peers,
        RpcPayload::RequestVote(RequestVote { term, candidate_id: s.id }),
    );
    (s1, requests + run_election_timer(s1).1)
}

/// An election timeout starts an election, unless the server leads or the
/// timer was started in an earlier term.
pub open spec fn on_election_timeout<I>(s: ServerView<I>, ctx: ElectionTimeoutCtx) -> Step<I> {
    if s.state == State::Leader || s.current_term != ctx.term_started {
        unchanged(s)
    } else {
        start_election(s)
    }
}

/// More than half of the servers, this one included.
pub open spec fn is_majority(votes: int, n_peers: int) -> bool {
    votes * 2 > n_peers + 1
}

pub open spec fn become_leader<I>(s: ServerView<I>) -> Step<I> {
    (
        ServerView { state: State::Leader, ..s },
        seq![Action::StartLeaderHeartbeatTicker(s.heartbeat_interval)],
    )
}

pub open spec fn on_request_vote_reply<I>(s: ServerView<I>, r: RequestVoteReply) -> Step<I> {
    if s.state != State::Candidate {
        unchanged(s)
    } else if r.term > s.election_term {
        become_follower(s, r.term)
    } else if r.term == s.election_term && r.granted {
        let s1 = ServerView { election_votes: (s.election_votes + 1) as u32, ..s };
        if is_majority(s1.election_votes as int, s.peers.len() as int) {
            become_leader(s1)
        } else {
            unchanged(s1)
        }
    } else {
        unchanged(s)
    }
}

/// Whether a vote for `candidate` may be granted in the current term.
pub open spec fn may_vote_for<I>(s: ServerView<I>, candidate: I) -> bool {
    s.voted_for is None || s.voted_for == Some(candidate)
}

pub open spec fn on_request_vote<I>(s: ServerView<I>, src: I, p: RequestVote<I>) -> Step<I> {
    if s.state == State::Dead {
        unchanged(s)
    } else {
        let first = if p.term > s.current_term {
            become_follower(s, p.term)
        } else {
            unchanged(s)
        };
        let s1 = first.0;
        let granted = p.term == s1.current_term && may_vote_for(s1, p.candidate_id);
        let second = if granted {
            run_election_timer(ServerView { voted_for: Some(p.candidate_id), ..s1 })
        } else {
            unchanged(s1)
        };
        let s2 = second.0;
        let reply = Action::Rpc(
            src,
            RpcPayload::RequestVoteReply(RequestVoteReply { term: s2.current_term, granted }),
        );
        (s2, first.1 + second.1 + seq![reply])
    }
}

pub open spec fn leader_heartbeat_send<I>(s: ServerView<I>) -> Step<I> {
    (
        ServerView { append_log_saved_term: s.current_term, ..s },
        rpc_to_peers(
            s.peers,
            RpcPayload::AppendEntries(AppendEntries { term: s.current_term, leader_id: s.id }),
        ),
    )
}

pub open spec fn on_leader_heartbeat_tick<I>(s: ServerView<I>) -> Step<I> {
    if s.state != State::Leader {
        (s, seq![Action::StopLeaderHeartbeatTicker])
    } else {
        leader_heartbeat_send(s)
    }
}

pub open spec fn on_append_entries_reply<I>(s: ServerView<I>, r: AppendEntriesReply) -> Step<I> {
    if r.term > s.append_log_saved_term {
        become_follower(s, r.term)
    } else {
        unchanged(s)
    }
}

pub open spec fn on_append_entries<I>(s: ServerView<I>, src: I, p: AppendEntries<I>) -> Step<I> {
    if s.state == State::Dead {
        unchanged(s)
    } else {
        let first = if p.term > s.current_term {
            become_follower(s, p.term)
        } else {
            unchanged(s)
        };
        let s1 = first.0;
        if p.term == s1.current_term {
            let second = if s1.state != State::Follower {
                become_follower(s1, p.term)
            } else {
                unchanged(s1)
            };
            let third = run_election_timer(second.0);
            let s3 = third.0;
            let reply = Action::Rpc(
                src,
                RpcPayload::AppendEntriesReply(
                    AppendEntriesReply { term: s3.current_term, success: true },
                ),
            );
            (s3, first.1 + second.1 + third.1 + seq![reply])
        } else {
            let reply = Action::Rpc(
                src,
                RpcPayload::AppendEntriesReply(
                    AppendEntriesReply { term: s1.current_term, success: false },
                ),
            );
            (s1, first.1 + seq![reply])
        }
    }
}

/// What one event does to a server.
pub open spec fn next<I>(s: ServerView<I>, event: Event<I>) -> Step<I> {
    match event {
        Event::Start => run_election_timer(s),
        Event::ElectionTimeout(_, ctx) => on_election_timeout(s, ctx),
        Event::LeaderHeartbeatTick => on_leader_heartbeat_tick(s),
        Event::RpcReply(src, payload) => match payload {
            RpcPayload::RequestVoteReply(r) => on_request_vote_reply(s, r),
            RpcPayload::AppendEntriesReply(r) => on_append_entries_reply(s, r),
            RpcPayload::RequestVote(p) => on_request_vote(s, src, p),
            RpcPayload::AppendEntries(p) => on_append_entries(s, src, p),
        },
    }
}

/// Whether the event starts an election.
pub open spec fn starts_election<I>(s: ServerView<I>, event: Event<I>) -> bool {
    event matches Event::ElectionTimeout(_, ctx) && s.state != State::Leader && s.current_term
        == ctx.term_started
}

/// A machine took `event` from `pre` to `post`: its new state is the
/// model's, its random source is unchanged, and its actions (taken before)
/// are those it emitted for the model's.
pub open spec fn ticked<I>(pre: MachineView<I>, event: Event<I>, post: MachineView<I>) -> bool {
    &&& post.server == next(pre.server, event).0
    &&& post.timeouts == pre.timeouts
    &&& emitted(pre.timeouts, post.actions, next(pre.server, event).1)
}

/// The state a server reaches through a sequence of events.
pub open spec fn run<I>(s: ServerView<I>, events: Seq<Event<I>>) -> ServerView<I>
    decreases events.len(),
{
    if events.len() == 0 {
        s
    } else {
        run(next(s, events[0]).0, events.skip(1))
    }
}

/// Whether a machine may take the event: its actions have been taken, and
/// the event does not start an election past the last term.
pub open spec fn can_tick<I>(m: MachineView<I>, event: Event<I>) -> bool {
    &&& m.actions.len() == 0
    &&& !(starts_election(m.server, event) && m.server.current_term == u64::MAX)
}

/// A machine went from `pre` to `post` by `step`: its state is the step's,
/// its random source is the same, and its actions are exactly the earlier
/// ones followed by those it emitted for the step's.
pub open spec fn follows<I>(pre: MachineView<I>, post: MachineView<I>, step: Step<I>) -> bool {
    let n = pre.actions.len() as int;
    &&& post.server == step.0
    &&& post.timeouts == pre.timeouts
    &&& n <= post.actions.len()
    &&& post.actions.take(n) == pre.actions
    &&& emitted(pre.timeouts, post.actions.skip(n), step.1)
}

pub(crate) proof fn lemma_follows_unchanged<I>(m: MachineView<I>)
    ensures
        follows(m, m, unchanged(m.server)),
{
    assert(m.actions.take(m.actions.len() as int) =~= m.actions);
}

/// Emitting an action other than an election timer.
pub(crate) proof fn lemma_follows_push<I>(pre: MachineView<I>, post: MachineView<I>, a: Action<I>)
    requires
        post.server == pre.server,
        post.timeouts == pre.timeouts,
        post.actions == pre.actions.push(a),
        !(a is StartElectionTimeout),
    ensures
        follows(pre, post, (pre.server, seq![a])),
{
    let n = pre.actions.len() as int;
    assert(post.actions.take(n) =~= pre.actions);
    assert(post.actions.skip(n) =~= seq![a]);
    assert(emitted_as(pre.timeouts, post.actions.skip(n)[0], seq![a][0]));
}

/// Emitting RPCs to the peers.
pub(crate) proof fn lemma_follows_rpc_to_peers<I>(
    pre: MachineView<I>,
    post: MachineView<I>,
    payload: RpcPayload<I>,
)
    requires
        post.server == pre.server,
        post.timeouts == pre.timeouts,
        post.actions == pre.actions + rpc_to_peers(pre.server.peers, payload),
    ensures
        follows(pre, post, (pre.server, rpc_to_peers(pre.server.peers, payload))),
{
    let n = pre.actions.len() as int;
    let e = rpc_to_peers(pre.server.peers, payload);
    assert(post.actions.take(n) =~= pre.actions);
    assert(post.actions.skip(n) =~= e);
    assert forall|i: int| 0 <= i < e.len() implies #[trigger] emitted_as(
        pre.timeouts,
        post.actions.skip(n)[i],
        e[i],
    ) by {}
}

/// Steps compose: their actions are concatenated.
pub(crate) proof fn lemma_follows_compose<I>(
    p0: MachineView<I>,
    p1: MachineView<I>,
    p2: MachineView<I>,
    st1: Step<I>,
    st2: Step<I>,
)
    requires
        follows(p0, p1, st1),
        follows(p1, p2, st2),
    ensures
        follows(p0, p2, (st2.0, st1.1 + st2.1)),
{
    let n0 = p0.actions.len() as int;
    let n1 = p1.actions.len() as int;
    let e1 = p1.actions.skip(n0);
    let e2 = p2.actions.skip(n1);
    assert(p2.actions.take(n0) =~= p0.actions) by {
        assert forall|i: int| 0 <= i < n0 implies p2.actions[i] == p0.actions[i] by {
            assert(p2.actions.take(n1)[i] == p1.actions[i]);
            assert(p1.actions.take(n0)[i] == p0.actions[i]);
        }
    }
    let e = p2.actions.skip(n0);
    let expected = st1.1 + st2.1;
    assert(e =~= e1 + e2) by {
        assert forall|i: int| 0 <= i < e.len() implies e[i] == (e1 + e2)[i] by {
            if i < e1.len() {
                assert(p2.actions.take(n1)[n0 + i] == p1.actions[n0 + i]);
            }
        }
    }
    assert forall|i: int| 0 <= i < e.len() implies #[trigger] emitted_as(
        p0.timeouts,
        e[i],
        expected[i],
    ) by {
        if i < e1.len() {
            assert(emitted_as(p0.timeouts, e1[i], st1.1[i]));
        } else {
            assert(emitted_as(p0.timeouts, e2[i - e1.len()], st2.1[i - e1.len()]));
        }
    }
}

} // verus!
