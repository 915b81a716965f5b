//! The consensus machine of a single server in a Raft-style cluster.
//!
//! The machine is driven by [`types::Event`]s and answers with
//! [`types::Action`]s; it performs no I/O itself. Its behaviour is stated by
//! the model in [`model`], and properties that span many events are proved in
//! [`laws`].
use std::time::Duration;
use vstd::prelude::*;

use crate::model::{
    ticked, become_follower, become_leader, can_tick, election_timer, emitted_as, follows,
    is_majority, lemma_follows_compose, lemma_follows_push, lemma_follows_rpc_to_peers, lemma_follows_unchanged, leader_heartbeat_send,
    next, on_append_entries, on_append_entries_reply, on_election_timeout,
    on_leader_heartbeat_tick, on_request_vote, on_request_vote_reply, peers_fit, rpc_to_peers,
    run_election_timer, start_election, unchanged, MachineView, ServerView,
};
use crate::types::{
    clone_id, Action, AppendEntries, AppendEntriesReply, ElectionTimeoutCtx, Event, RequestVote,
    RequestVoteReply, RpcPayload, State,
};

pub mod laws;
pub mod model;
pub mod types;

mod util;

pub use util::{
    drawn_timeout, duration_from_millis, params_fit, timeout_for_draw, DefaultMachineRng, MachineRng, MAX_TIMEOUT_DRAW,
    MIN_TIMEOUT_DRAW,
};

verus! {

/// A clone of a server ID equals the original.
pub open spec fn clone_is_exact<I: Clone>() -> bool {
    forall|a: I, b: I| #[trigger] vstd::pervasive::strictly_cloned(a, b) ==> a == b
}

/// Server IDs behave as values: `clone` copies and `==` compares them.
pub open spec fn id_laws<I: Clone + PartialEq>() -> bool {
    &&& clone_is_exact::<I>()
    &&& vstd::laws_eq::obeys_concrete_eq::<I>()
}

/// Primitive integer server IDs behave as values.
pub proof fn lemma_integer_id_laws()
    ensures
        id_laws::<u8>(),
        id_laws::<u16>(),
        id_laws::<u32>(),
        id_laws::<u64>(),
        id_laws::<u128>(),
        id_laws::<usize>(),
        id_laws::<i8>(),
        id_laws::<i16>(),
        id_laws::<i32>(),
        id_laws::<i64>(),
        id_laws::<i128>(),
        id_laws::<isize>(),
{
    broadcast use vstd::laws_eq::group_laws_eq;

    assert forall|a: u8, b: u8| #[trigger] vstd::pervasive::strictly_cloned(a, b) implies a
        == b by {}
    assert forall|a: u16, b: u16| #[trigger] vstd::pervasive::strictly_cloned(a, b) implies a
        == b by {}
    assert forall|a: u32, b: u32| #[trigger] vstd::pervasive::strictly_cloned(a, b) implies a
        == b by {}
    assert forall|a: u64, b: u64| #[trigger] vstd::pervasive::strictly_cloned(a, b) implies a
        == b by {}
    assert forall|a: u128, b: u128| #[trigger] vstd::pervasive::strictly_cloned(a, b) implies a
        == b by {}
    assert forall|a: usize, b: usize| #[trigger] vstd::pervasive::strictly_cloned(a, b) implies a
        == b by {}
    assert forall|a: i8, b: i8| #[trigger] vstd::pervasive::strictly_cloned(a, b) implies a
        == b by {}
    assert forall|a: i16, b: i16| #[trigger] vstd::pervasive::strictly_cloned(a, b) implies a
        == b by {}
    assert forall|a: i32, b: i32| #[trigger] vstd::pervasive::strictly_cloned(a, b) implies a
        == b by {}
    assert forall|a: i64, b: i64| #[trigger] vstd::pervasive::strictly_cloned(a, b) implies a
        == b by {}
    assert forall|a: i128, b: i128| #[trigger] vstd::pervasive::strictly_cloned(a, b) implies a
        == b by {}
    assert forall|a: isize, b: isize| #[trigger] vstd::pervasive::strictly_cloned(a, b) implies a
        == b by {}
}

fn same_id<I: Clone + PartialEq>(a: &I, b: &I) -> (r: bool)
    requires
        id_laws::<I>(),
    ensures
        r == (*a == *b),
{
    proof {
        reveal(vstd::laws_eq::obeys_concrete_eq);
    }
    *a == *b
}

/// The election a server runs.
struct ElectionState {
    term: u64,
    /// Votes counted for the current election. Reset whenever a new election
    /// starts.
    votes: u32,
}

/// The consensus machine of a single server.
///
/// The `I` type parameter represents a server ID; `R` is the source of
/// election timeouts, a boxed [`MachineRng`] unless said otherwise.
pub struct Machine<I, R = Box<dyn MachineRng>> {
    /// The ID of this server.
    id: I,
    /// The IDs of the other peers (does not include this server).
    peer_ids: Vec<I>,
    /// This server's state.
    state: State,
    current_term: u64,
    voted_for: Option<I>,
    /// The current term when the last heartbeats were sent.
    append_log_saved_term: u64,
    election_state: ElectionState,
    leader_heartbeat_interval: Duration,
    /// Actions produced by the events since they were last taken.
    actions: Vec<Action<I>>,
    /// Source of election timeouts.
    rng: R,
}

impl<I, R: MachineRng> View for Machine<I, R> {
    type V = MachineView<I>;

    closed spec fn view(&self) -> MachineView<I> {
        MachineView {
            server: ServerView {
                id: self.id,
                peers: self.peer_ids@,
                state: self.state,
                current_term: self.current_term,
                voted_for: self.voted_for,
                append_log_saved_term: self.append_log_saved_term,
                election_term: self.election_state.term,
                election_votes: self.election_state.votes,
                heartbeat_interval: self.leader_heartbeat_interval,
            },
            actions: self.actions@,
            timeouts: |d: Duration| self.rng.may_return(d),
        }
    }
}

/// The actions taken from a [`Machine`]; the machine's buffer is empty
/// again, ready for the next [`Machine::tick`].
pub struct ActionsGuard<I>(Vec<Action<I>>);

impl<I> View for ActionsGuard<I> {
    type V = Seq<Action<I>>;

    closed spec fn view(&self) -> Seq<Action<I>> {
        self.0@
    }
}

impl<I> std::ops::Deref for ActionsGuard<I> {
    type Target = [Action<I>];

    fn deref(&self) -> (r: &[Action<I>])
        ensures
            r@ == self@,
    {
        self.0.as_slice()
    }
}

impl<I: Clone + PartialEq, R: MachineRng> Machine<I, R> {
    /// Well-formed: IDs behave as values, and the state is one that machines
    /// reach.
    pub closed spec fn wf(&self) -> bool {
        &&& id_laws::<I>()
        &&& self@.server.inv()
    }

    /// A follower in term 1 that has voted for no one and emitted nothing.
    pub fn new(
        id: I,
        peer_ids: Vec<I>,
        leader_heartbeat_interval: Duration,
        rng: R,
    ) -> (m: Machine<I, R>)
        requires
            id_laws::<I>(),
            peers_fit(peer_ids@.len() as int),
        ensures
            m.wf(),
            m@.server == (ServerView {
                id,
                peers: peer_ids@,
                state: State::Follower,
                current_term: 1,
                voted_for: None,
                append_log_saved_term: 0,
                election_term: 0,
                election_votes: 0,
                heartbeat_interval: leader_heartbeat_interval,
            }),
            m@.actions.len() == 0,
            forall|d: Duration| #[trigger] (m@.timeouts)(d) == rng.may_return(d),
    {
        Machine {
            id,
            peer_ids,
            state: State::Follower,
            current_term: 1,
            voted_for: None,
            append_log_saved_term: 0,
            election_state: ElectionState { term: 0, votes: 0 },
            leader_heartbeat_interval,
            actions: Vec::new(),
            rng,
        }
    }

    pub fn id(&self) -> (r: &I)
        ensures
            *r == self@.server.id,
    {
        &self.id
    }

    pub fn peers(&self) -> (r: &[I])
        ensures
            r@ == self@.server.peers,
    {
        self.peer_ids.as_slice()
    }

    pub fn state(&self) -> (r: State)
        ensures
            r == self@.server.state,
    {
        self.state
    }

    pub fn current_term(&self) -> (r: u64)
        ensures
            r == self@.server.current_term,
    {
        self.current_term
    }

    /// Takes the actions produced since they were last taken, leaving the
    /// buffer empty for the next [`Self::tick`]. The buffer is emptied here,
    /// when the actions are taken, not when the guard goes out of scope.
    #[must_use]
    pub fn actions(&mut self) -> (g: ActionsGuard<I>)
        ensures
            g@ == old(self)@.actions,
            final(self)@.server == old(self)@.server,
            final(self)@.actions.len() == 0,
            final(self)@.timeouts == old(self)@.timeouts,
            old(self).wf() ==> final(self).wf(),
    {
        let mut taken = Vec::new();
        std::mem::swap(&mut taken, &mut self.actions);
        ActionsGuard(taken)
    }

    /// Whether [`Self::tick`] may take `event` now.
    pub fn can_tick(&self, event: &Event<I>) -> (r: bool)
        ensures
            r == can_tick(self@, *event),
    {
        if self.actions.len() != 0 {
            return false;
        }
        match event {
            Event::ElectionTimeout(_, ctx) => !(self.state != State::Leader && self.current_term
                == ctx.term_started && self.current_term == u64::MAX),
            _ => true,
        }
    }

    /// Feeds one event to the machine. The actions it produces are then
    /// available through [`Self::actions`].
    pub fn tick(&mut self, event: Event<I>)
        requires
            old(self).wf(),
            can_tick(old(self)@, event),
        ensures
            final(self).wf(),
            ticked(old(self)@, event, final(self)@),
    {
        let ghost pre = self@;
        proof {
            laws::lemma_next_preserves_inv(pre.server, event);
        }
        match event {
            Event::Start => self.start(),
            Event::ElectionTimeout(_, ctx) => self.election_timeout(ctx),
            Event::LeaderHeartbeatTick => self.leader_heartbeat_tick(),
            Event::RpcReply(src, payload) => match payload {
                RpcPayload::RequestVoteReply(r) => self.request_vote_reply(r),
                RpcPayload::AppendEntriesReply(r) => self.append_entries_reply(r),
                RpcPayload::RequestVote(p) => self.request_vote(src, p),
                RpcPayload::AppendEntries(p) => self.append_entries(src, p),
            },
        }
        assert(self@.actions.skip(0) =~= self@.actions);
    }

    fn start(&mut self)
        ensures
            follows(old(self)@, final(self)@, run_election_timer(old(self)@.server)),
    {
        self.run_election_timer();
    }

    fn run_election_timer(&mut self)
        ensures
            follows(old(self)@, final(self)@, run_election_timer(old(self)@.server)),
    {
        let duration = self.rng.next_election_timeout();
        let ctx = ElectionTimeoutCtx { term_started: self.current_term };
        self.actions.push(Action::StartElectionTimeout(duration, ctx));
        proof {
            let n = old(self)@.actions.len() as int;
            assert(self@.actions.take(n) =~= old(self)@.actions);
            assert(self@.actions.skip(n) =~= seq![Action::StartElectionTimeout(duration, ctx)]);
            assert(emitted_as(
                self@.timeouts,
                self@.actions.skip(n)[0],
                election_timer(old(self)@.server.current_term),
            ));
        }
    }

    /// Sends the same payload to each peer, in order.
    fn send_to_peers(&mut self, payload: RpcPayload<I>)
        requires
            id_laws::<I>(),
        ensures
            follows(
                old(self)@,
                final(self)@,
                (old(self)@.server, rpc_to_peers(old(self)@.server.peers, payload)),
            ),
    {
        let n = self.peer_ids.len();
        let mut i: usize = 0;
        while i < n
            invariant
                id_laws::<I>(),
                n == self@.server.peers.len(),
                i <= n,
                self@.server == old(self)@.server,
                self@.timeouts == old(self)@.timeouts,
                self@.actions == old(self)@.actions + rpc_to_peers(
                    old(self)@.server.peers.take(i as int),
                    payload,
                ),
            decreases n - i,
        {
            let dest = clone_id(&self.peer_ids[i]);
            let p = payload.clone();
            self.actions.push(Action::Rpc(dest, p));
            proof {
                let peers = old(self)@.server.peers;
                assert(peers.take(i + 1) =~= peers.take(i as int).push(peers[i as int]));
                assert(rpc_to_peers(peers.take(i + 1), payload) =~= rpc_to_peers(
                    peers.take(i as int),
                    payload,
                ).push(Action::Rpc(peers[i as int], payload)));
            }
            i += 1;
        }
        assert(old(self)@.server.peers.take(n as int) =~= old(self)@.server.peers);
        proof {
            lemma_follows_rpc_to_peers(old(self)@, self@, payload);
        }
    }

    fn election_timeout(&mut self, ctx: ElectionTimeoutCtx)
        requires
            id_laws::<I>(),
            !(old(self)@.server.state != State::Leader && old(self)@.server.current_term
                == ctx.term_started && old(self)@.server.current_term == u64::MAX),
        ensures
            follows(old(self)@, final(self)@, on_election_timeout(old(self)@.server, ctx)),
    {
        let term_started = ctx.term_started;
        if self.state == State::Leader {
            proof {
                lemma_follows_unchanged(self@);
            }
            return;
        }
        if self.current_term != term_started {
            proof {
                lemma_follows_unchanged(self@);
            }
            return;
        }
        self.start_election();
    }

    fn start_election(&mut self)
        requires
            id_laws::<I>(),
            old(self)@.server.current_term < u64::MAX,
        ensures
            follows(old(self)@, final(self)@, start_election(old(self)@.server)),
    {
        let ghost p0 = self@;
        self.state = State::Candidate;
        self.current_term = self.current_term + 1;
        self.voted_for = Some(clone_id(&self.id));
        // One vote already: the server votes for itself.
        self.election_state = ElectionState { term: self.current_term, votes: 1 };
        let payload = RpcPayload::RequestVote(
            RequestVote { term: self.election_state.term, candidate_id: clone_id(&self.id) },
        );
        let ghost p1 = self@;
        self.send_to_peers(payload);
        let ghost p2 = self@;
        // Another timer, in case this election is not fruitful.
        self.run_election_timer();
        proof {
            let requests = rpc_to_peers(p0.server.peers, payload);
            lemma_follows_compose(
                p0,
                p2,
                self@,
                (p1.server, requests),
                run_election_timer(p1.server),
            );
        }
    }

    fn request_vote_reply(&mut self, reply: RequestVoteReply)
        requires
            old(self)@.server.inv(),
        ensures
            follows(old(self)@, final(self)@, on_request_vote_reply(old(self)@.server, reply)),
    {
        if self.state != State::Candidate {
            proof {
                lemma_follows_unchanged(self@);
            }
            return;
        }
        if reply.term > self.election_state.term {
            self.become_follower(reply.term);
        } else if reply.term == self.election_state.term && reply.granted {
            self.election_state.votes = self.election_state.votes + 1;
            proof {
                lemma_follows_unchanged(self@);
            }
            if self.is_majority(self.election_state.votes) {
                self.become_leader();
            }
        } else {
            proof {
                lemma_follows_unchanged(self@);
            }
        }
    }

    fn request_vote(&mut self, src: I, rpc: RequestVote<I>)
        requires
            id_laws::<I>(),
        ensures
            follows(old(self)@, final(self)@, on_request_vote(old(self)@.server, src, rpc)),
    {
        if self.state == State::Dead {
            proof {
                lemma_follows_unchanged(self@);
            }
            return;
        }
        let ghost p0 = self@;
        if rpc.term > self.current_term {
            self.become_follower(rpc.term);
        } else {
            proof {
                lemma_follows_unchanged(p0);
            }
        }
        let ghost p1 = self@;
        let valid_vote = match &self.voted_for {
            None => true,
            Some(v) => same_id(v, &rpc.candidate_id),
        };
        let granted = if rpc.term == self.current_term && valid_vote {
            self.voted_for = Some(rpc.candidate_id);
            self.run_election_timer();  // Reset the election timer.
            true
        } else {
            proof {
                lemma_follows_unchanged(p1);
            }
            false
        };
        let ghost p2 = self@;
        let reply = RpcPayload::RequestVoteReply(
            RequestVoteReply { term: self.current_term, granted },
        );
        self.actions.push(Action::Rpc(src, reply));
        proof {
            let first = if rpc.term > p0.server.current_term {
                become_follower(p0.server, rpc.term)
            } else {
                unchanged(p0.server)
            };
            let second = if granted {
                run_election_timer(ServerView { voted_for: Some(rpc.candidate_id), ..p1.server })
            } else {
                unchanged(p1.server)
            };
            lemma_follows_compose(p0, p1, p2, first, second);
            lemma_follows_push(p2, self@, Action::Rpc(src, reply));
            lemma_follows_compose(
                p0,
                p2,
                self@,
                (second.0, first.1 + second.1),
                (p2.server, seq![Action::Rpc(src, reply)]),
            );
        }
    }

    fn become_leader(&mut self)
        ensures
            follows(old(self)@, final(self)@, become_leader(old(self)@.server)),
    {
        self.state = State::Leader;
        self.actions.push(Action::StartLeaderHeartbeatTicker(self.leader_heartbeat_interval));
        proof {
            lemma_follows_push(
                MachineView { server: self@.server, actions: old(self)@.actions, timeouts: self@.timeouts },
                self@,
                Action::StartLeaderHeartbeatTicker(self.leader_heartbeat_interval),
            );
        }
    }

    fn leader_heartbeat_tick(&mut self)
        requires
            id_laws::<I>(),
        ensures
            follows(old(self)@, final(self)@, on_leader_heartbeat_tick(old(self)@.server)),
    {
        if self.state != State::Leader {
            self.actions.push(Action::StopLeaderHeartbeatTicker);
            proof {
                lemma_follows_push(old(self)@, self@, Action::StopLeaderHeartbeatTicker);
            }
            return;
        }
        self.leader_heartbeat_send();
    }

    fn leader_heartbeat_send(&mut self)
        requires
            id_laws::<I>(),
            old(self)@.server.state == State::Leader,
        ensures
            follows(old(self)@, final(self)@, leader_heartbeat_send(old(self)@.server)),
    {
        self.append_log_saved_term = self.current_term;
        let payload = RpcPayload::AppendEntries(
            AppendEntries { term: self.current_term, leader_id: clone_id(&self.id) },
        );
        self.send_to_peers(payload);
    }

    fn append_entries_reply(&mut self, reply: AppendEntriesReply)
        ensures
            follows(old(self)@, final(self)@, on_append_entries_reply(old(self)@.server, reply)),
    {
        if reply.term > self.append_log_saved_term {
            self.become_follower(reply.term);
            return;
        }
        proof {
            lemma_follows_unchanged(self@);
        }
    }

    fn append_entries(&mut self, src: I, rpc: AppendEntries<I>)
        ensures
            follows(old(self)@, final(self)@, on_append_entries(old(self)@.server, src, rpc)),
    {
        if self.state == State::Dead {
            proof {
                lemma_follows_unchanged(self@);
            }
            return;
        }
        let ghost p0 = self@;
        if rpc.term > self.current_term {
            self.become_follower(rpc.term);
        } else {
            proof {
                lemma_follows_unchanged(p0);
            }
        }
        let ghost p1 = self@;
        let ghost first = if rpc.term > p0.server.current_term {
            become_follower(p0.server, rpc.term)
        } else {
            unchanged(p0.server)
        };
        let mut success = false;
        if rpc.term == self.current_term {
            if self.state != State::Follower {
                self.become_follower(rpc.term);
            } else {
                proof {
                    lemma_follows_unchanged(p1);
                }
            }
            let ghost p2 = self@;
            self.run_election_timer();  // Reset the election timer.
            let ghost p3 = self@;
            success = true;
            let reply = RpcPayload::AppendEntriesReply(
                AppendEntriesReply { term: self.current_term, success },
            );
            self.actions.push(Action::Rpc(src, reply));
            proof {
                let second = if p1.server.state != State::Follower {
                    become_follower(p1.server, rpc.term)
                } else {
                    unchanged(p1.server)
                };
                let third = run_election_timer(second.0);
                lemma_follows_compose(p0, p1, p2, first, second);
                lemma_follows_compose(p0, p2, p3, (second.0, first.1 + second.1), third);
                lemma_follows_push(p3, self@, Action::Rpc(src, reply));
                lemma_follows_compose(
                    p0,
                    p3,
                    self@,
                    (third.0, first.1 + second.1 + third.1),
                    (p3.server, seq![Action::Rpc(src, reply)]),
                );
            }
        } else {
            let reply = RpcPayload::AppendEntriesReply(
                AppendEntriesReply { term: self.current_term, success },
            );
            self.actions.push(Action::Rpc(src, reply));
            proof {
                lemma_follows_push(p1, self@, Action::Rpc(src, reply));
                lemma_follows_compose(
                    p0,
                    p1,
                    self@,
                    first,
                    (p1.server, seq![Action::Rpc(src, reply)]),
                );
            }
        }
    }

    fn become_follower(&mut self, new_term: u64)
        ensures
            follows(old(self)@, final(self)@, become_follower(old(self)@.server, new_term)),
    {
        self.state = State::Follower;
        self.current_term = new_term;
        self.voted_for = None;
        self.run_election_timer();
    }

    fn is_majority(&self, received: u32) -> (r: bool)
        requires
            peers_fit(self@.server.peers.len() as int),
        ensures
            r == is_majority(received as int, self@.server.peers.len() as int),
    {
        (received as u64) * 2 > (self.peer_ids.len() as u64) + 1
    }
}

} // verus!
