//! Properties of the consensus machine that hold across all events.
use crate::model::{
    emitted_as, may_vote_for, rpc_to_peers, run, ticked, MachineView, next, starts_election, unchanged, ServerView};
use crate::types::{
    Action, AppendEntries, AppendEntriesReply, ElectionTimeoutCtx, Event, RequestVote,
    RequestVoteReply, RpcPayload, State,
};
use vstd::pervasive::arbitrary;
use vstd::prelude::*;

verus! {

/// Every event keeps a reachable state reachable: the invariant of
/// [`ServerView::inv`] holds after any event the machine may take.
pub proof fn lemma_next_preserves_inv<I>(s: ServerView<I>, event: Event<I>)
    requires
        s.inv(),
        !(starts_election(s, event) && s.current_term == u64::MAX),
    ensures
        next(s, event).0.inv(),
{
}

/// Terms never go back, except when a reply to an old round of heartbeats
/// carries a term between the one those heartbeats were sent in and the
/// current one: the server then follows that older term.
pub proof fn lemma_term_never_decreases<I>(s: ServerView<I>, event: Event<I>)
    requires
        s.inv(),
        !(starts_election(s, event) && s.current_term == u64::MAX),
        !(event matches Event::RpcReply(_, RpcPayload::AppendEntriesReply(r)) && r.term
            < s.current_term),
    ensures
        next(s, event).0.current_term >= s.current_term,
{
}

/// Within a term, a server does not change the candidate it voted for, except
/// when it leaves candidacy or leadership on a heartbeat of its own term, or
/// follows its own term again on a reply to older heartbeats: it then forgets
/// its vote.
pub proof fn lemma_vote_kept_within_term<I>(s: ServerView<I>, event: Event<I>, candidate: I)
    requires
        s.inv(),
        s.voted_for == Some(candidate),
        next(s, event).0.current_term == s.current_term,
        !(event matches Event::RpcReply(_, RpcPayload::AppendEntries(p)) && p.term
            == s.current_term && s.state != State::Follower),
        !(event matches Event::RpcReply(_, RpcPayload::AppendEntriesReply(r)) && r.term
            == s.current_term && r.term > s.append_log_saved_term),
        !(starts_election(s, event) && s.current_term == u64::MAX),
    ensures
        next(s, event).0.voted_for == Some(candidate),
{
    if let Event::RpcReply(_, RpcPayload::RequestVote(p)) = event {
        assert(may_vote_for(s, p.candidate_id) ==> p.candidate_id == candidate);
    }
}

/// A server becomes leader only as a candidate that receives a granted vote
/// of its election's term which gives it a majority.
pub proof fn lemma_leader_needs_majority<I>(s: ServerView<I>, event: Event<I>)
    requires
        s.inv(),
        s.state != State::Leader,
        next(s, event).0.state == State::Leader,
    ensures
        s.state == State::Candidate,
        event matches Event::RpcReply(_, RpcPayload::RequestVoteReply(r)) && r.granted && r.term
            == s.current_term,
        next(s, event).0.election_votes == s.election_votes + 1,
        2 * (s.election_votes + 1) > s.peers.len() + 1,
{
}

/// Every election timer an event starts carries the term the server is in
/// after the event.
pub proof fn lemma_timers_carry_current_term<I>(s: ServerView<I>, event: Event<I>, i: int)
    requires
        s.inv(),
        0 <= i < next(s, event).1.len(),
        next(s, event).1[i] is StartElectionTimeout,
    ensures
        next(s, event).1[i]->StartElectionTimeout_1.term_started == next(s, event).0.current_term,
{
}

/// An election timer started in another term, or one that elapses at a
/// leader, changes nothing.
pub proof fn lemma_stale_timeout_ignored<I>(s: ServerView<I>, event: Event<I>)
    requires
        event matches Event::ElectionTimeout(_, ctx) && (ctx.term_started != s.current_term
            || s.state == State::Leader),
    ensures
        next(s, event) == unchanged(s),
{
}

/// A vote request is always answered, last, to its sender with the server's
/// new term; a vote is granted only in the request's term, and the server
/// then records the candidate as its vote.
pub proof fn lemma_vote_request_answered<I>(s: ServerView<I>, event: Event<I>)
    requires
        s.inv(),
        event matches Event::RpcReply(_, RpcPayload::RequestVote(_)),
    ensures
        ({
            let (src, p) = match event {
                Event::RpcReply(src, RpcPayload::RequestVote(p)) => (src, p),
                _ => arbitrary(),
            };
            let (post, actions) = next(s, event);
            &&& actions.len() > 0
            &&& actions.last() matches Action::Rpc(dest, RpcPayload::RequestVoteReply(r)) && dest
                == src && r.term == post.current_term && (r.granted ==> post.current_term == p.term
                && post.voted_for == Some(p.candidate_id))
        }),
{
}

/// A heartbeat is always answered, last, to its sender with the server's new
/// term; it succeeds exactly when its term is the server's new term, and the
/// server then follows.
pub proof fn lemma_append_entries_answered<I>(s: ServerView<I>, event: Event<I>)
    requires
        s.inv(),
        event matches Event::RpcReply(_, RpcPayload::AppendEntries(_)),
    ensures
        ({
            let (src, p) = match event {
                Event::RpcReply(src, RpcPayload::AppendEntries(p)) => (src, p),
                _ => arbitrary(),
            };
            let (post, actions) = next(s, event);
            &&& actions.len() > 0
            &&& actions.last() matches Action::Rpc(dest, RpcPayload::AppendEntriesReply(r)) && dest
                == src && r.term == post.current_term && r.success == (p.term == post.current_term)
            &&& p.term == post.current_term ==> post.state == State::Follower
        }),
{
}

/// Every RPC an event sends goes to a peer, or back to the sender of the
/// event.
pub proof fn lemma_rpc_destinations<I>(s: ServerView<I>, event: Event<I>, i: int)
    requires
        s.inv(),
        0 <= i < next(s, event).1.len(),
        next(s, event).1[i] is Rpc,
    ensures
        ({
            let dest = next(s, event).1[i]->Rpc_0;
            s.peers.contains(dest) || (event matches Event::RpcReply(src, _) && dest == src)
        }),
{
    let actions = next(s, event).1;
    match event {
        Event::ElectionTimeout(_, ctx) => {
            if !(s.state == State::Leader || s.current_term != ctx.term_started) {
                let term = (s.current_term + 1) as u64;
                let requests = rpc_to_peers(
                    s.peers,
                    RpcPayload::RequestVote(RequestVote { term, candidate_id: s.id }),
                );
                assert(i < requests.len());
                assert(actions[i] == requests[i]);
                assert(s.peers.contains(s.peers[i]));
            }
        },
        Event::LeaderHeartbeatTick => {
            if s.state == State::Leader {
                assert(s.peers.contains(s.peers[i]));
            }
        },
        _ => {},
    }
}

/// A server becomes a candidate of a new term only by starting an election
/// on the timeout of the term it is in; the new term is the next one.
pub proof fn lemma_candidate_only_by_timeout<I>(s: ServerView<I>, event: Event<I>)
    requires
        s.inv(),
        !(starts_election(s, event) && s.current_term == u64::MAX),
        next(s, event).0.state == State::Candidate,
        !(s.state == State::Candidate && next(s, event).0.current_term == s.current_term),
    ensures
        starts_election(s, event),
        next(s, event).0.current_term == s.current_term + 1,
{
}

/// A request of a later term makes the server a follower in that term.
pub proof fn lemma_higher_term_steps_down<I>(s: ServerView<I>, event: Event<I>)
    requires
        s.inv(),
        event matches Event::RpcReply(_, payload) && match payload {
            RpcPayload::RequestVote(p) => p.term > s.current_term,
            RpcPayload::AppendEntries(p) => p.term > s.current_term,
            _ => false,
        },
    ensures
        next(s, event).0.state == State::Follower,
        next(s, event).0.current_term == match event {
            Event::RpcReply(_, RpcPayload::RequestVote(p)) => p.term,
            Event::RpcReply(_, RpcPayload::AppendEntries(p)) => p.term,
            _ => 0,
        },
{
}

/// Every election timer a tick starts carries the term the machine is in
/// after the tick.
pub proof fn lemma_tick_timers_carry_term<I>(
    pre: MachineView<I>,
    event: Event<I>,
    post: MachineView<I>,
    i: int,
)
    requires
        pre.server.inv(),
        ticked(pre, event, post),
        0 <= i < post.actions.len(),
        post.actions[i] is StartElectionTimeout,
    ensures
        post.actions[i]->StartElectionTimeout_1.term_started == post.server.current_term,
{
    let expected = next(pre.server, event).1;
    assert(emitted_as(pre.timeouts, post.actions[i], expected[i]));
    lemma_timers_carry_current_term(pre.server, event, i);
}

/// Roles across a tick: only a candidate or a leader is leader afterwards,
/// no server dies, and a server that newly becomes a candidate is in the next
/// term.
pub proof fn lemma_tick_roles<I>(pre: MachineView<I>, event: Event<I>, post: MachineView<I>)
    requires
        pre.server.inv(),
        !(starts_election(pre.server, event) && pre.server.current_term == u64::MAX),
        ticked(pre, event, post),
    ensures
        post.server.state == State::Leader ==> pre.server.state == State::Candidate
            || pre.server.state == State::Leader,
        post.server.state != State::Dead,
        post.server.state == State::Candidate && pre.server.state != State::Candidate
            ==> post.server.current_term == pre.server.current_term + 1,
{
    lemma_next_preserves_inv(pre.server, event);
    if post.server.state == State::Leader && pre.server.state != State::Leader {
        lemma_leader_needs_majority(pre.server, event);
    }
    if post.server.state == State::Candidate && pre.server.state != State::Candidate {
        lemma_candidate_only_by_timeout(pre.server, event);
    }
}

/// A reply is handled the same whoever sent it.
pub proof fn lemma_reply_source_ignored<I>(s: ServerView<I>, a: I, b: I, payload: RpcPayload<I>)
    requires
        payload is RequestVoteReply || payload is AppendEntriesReply,
    ensures
        next(s, Event::RpcReply(a, payload)) == next(s, Event::RpcReply(b, payload)),
{
}

/// Requests go to peers; a reply is sent only for a request received, only to
/// its sender, and only as the last action, so at most once.
pub proof fn lemma_rpc_kinds<I>(s: ServerView<I>, event: Event<I>, i: int)
    requires
        s.inv(),
        0 <= i < next(s, event).1.len(),
        next(s, event).1[i] is Rpc,
    ensures
        ({
            let actions = next(s, event).1;
            let dest = actions[i]->Rpc_0;
            let payload = actions[i]->Rpc_1;
            &&& (payload is RequestVote || payload is AppendEntries) ==> s.peers.contains(dest)
            &&& (payload is RequestVoteReply || payload is AppendEntriesReply) ==> {
                &&& i == actions.len() - 1
                &&& event matches Event::RpcReply(src, p) && dest == src && (p is RequestVote
                    || p is AppendEntries)
            }
        }),
{
    lemma_rpc_destinations(s, event, i);
}

/// A server keeps its ID and its peers through any sequence of events.
pub proof fn lemma_run_keeps_identity<I>(s: ServerView<I>, events: Seq<Event<I>>)
    ensures
        run(s, events).id == s.id,
        run(s, events).peers == s.peers,
    decreases events.len(),
{
    if events.len() > 0 {
        lemma_run_keeps_identity(next(s, events[0]).0, events.skip(1));
    }
}

/// After a tick, the machine's actions are the model's, one for one, except
/// that an election timer carries a duration its random source may return.
pub proof fn lemma_ticked_actions<I>(
    pre: MachineView<I>,
    event: Event<I>,
    post: MachineView<I>,
    i: int,
)
    requires
        ticked(pre, event, post),
        0 <= i < next(pre.server, event).1.len(),
    ensures
        post.actions.len() == next(pre.server, event).1.len(),
        ({
            let expected = next(pre.server, event).1[i];
            let actual = post.actions[i];
            match expected {
                Action::StartElectionTimeout(_, ctx) => actual matches Action::StartElectionTimeout(
                    d,
                    c,
                ) && c == ctx && (pre.timeouts)(d),
                _ => actual == expected,
            }
        }),
{
    assert(emitted_as(pre.timeouts, post.actions[i], next(pre.server, event).1[i]));
}

/// `a` starts an election timer in `term`.
pub open spec fn is_timer_of<I>(a: Action<I>, term: u64) -> bool {
    a matches Action::StartElectionTimeout(_, ctx) && ctx.term_started == term
}

/// `Start` changes nothing but starts an election timer in the current term.
pub proof fn lemma_start<I>(s: ServerView<I>)
    ensures
        next(s, Event::Start).0 == s,
        next(s, Event::Start).1.len() == 1,
        is_timer_of(next(s, Event::Start).1[0], s.current_term),
{
}

/// An election timeout of the current term at a non-leader starts an
/// election: the server becomes a candidate of the next term with its own
/// vote alone, asks each peer in order for its vote, then restarts its timer.
pub proof fn lemma_election_start<I>(s: ServerView<I>, ctx: ElectionTimeoutCtx)
    requires
        s.state != State::Leader,
        ctx.term_started == s.current_term,
        s.current_term < u64::MAX,
    ensures
        ({
            let (post, actions) = next(s, Event::ElectionTimeout((), ctx));
            let term = (s.current_term + 1) as u64;
            &&& post == ServerView {
                state: State::Candidate,
                current_term: term,
                voted_for: Some(s.id),
                election_term: term,
                election_votes: 1,
                ..s
            }
            &&& actions.len() == s.peers.len() + 1
            &&& forall|i: int|
                0 <= i < s.peers.len() ==> #[trigger] actions[i] == Action::Rpc(
                    s.peers[i],
                    RpcPayload::RequestVote(RequestVote { term, candidate_id: s.id }),
                )
            &&& is_timer_of(actions[s.peers.len() as int], term)
        }),
{
}

/// A heartbeat tick makes a leader send one heartbeat of its term to each
/// peer in order, recording the term; at any other server it only stops the
/// ticker.
pub proof fn lemma_heartbeat_tick<I>(s: ServerView<I>)
    ensures
        ({
            let (post, actions) = next(s, Event::LeaderHeartbeatTick);
            if s.state == State::Leader {
                &&& post == ServerView { append_log_saved_term: s.current_term, ..s }
                &&& actions.len() == s.peers.len()
                &&& forall|i: int|
                    0 <= i < s.peers.len() ==> #[trigger] actions[i] == Action::Rpc(
                        s.peers[i],
                        RpcPayload::AppendEntries(
                            AppendEntries { term: s.current_term, leader_id: s.id },
                        ),
                    )
            } else {
                &&& post == s
                &&& actions == seq![Action::<I>::StopLeaderHeartbeatTicker]
            }
        }),
{
}

/// A vote reply counts only at a candidate: a later term makes it a follower
/// of that term with no vote; a granted vote of its election adds one vote,
/// and it becomes leader exactly when twice its votes exceed the number of
/// servers (its peers and itself), emitting only the heartbeat ticker; any
/// other reply changes nothing.
pub proof fn lemma_vote_reply<I>(s: ServerView<I>, src: I, r: RequestVoteReply)
    requires
        s.inv(),
    ensures
        ({
            let (post, actions) = next(s, Event::RpcReply(src, RpcPayload::RequestVoteReply(r)));
            let votes = s.election_votes + 1;
            if s.state == State::Candidate && r.term > s.current_term {
                &&& post == ServerView {
                    state: State::Follower,
                    current_term: r.term,
                    voted_for: None,
                    ..s
                }
                &&& actions.len() == 1
                &&& is_timer_of(actions[0], r.term)
            } else if s.state == State::Candidate && r.term == s.current_term && r.granted {
                &&& post.election_votes == votes
                &&& post == ServerView { state: post.state, election_votes: post.election_votes, ..s }
                &&& (post.state == State::Leader) == (2 * votes > s.peers.len() + 1)
                &&& post.state == State::Leader ==> actions == seq![
                    Action::<I>::StartLeaderHeartbeatTicker(s.heartbeat_interval),
                ]
                &&& post.state != State::Leader ==> post.state == State::Candidate
                    && actions.len() == 0
            } else {
                &&& post == s
                &&& actions.len() == 0
            }
        }),
{
}

/// A heartbeat reply of a term after the one of the last heartbeats makes the
/// server a follower of that term that has voted for no one, with a new
/// timer; any other heartbeat reply changes nothing.
pub proof fn lemma_heartbeat_reply<I>(s: ServerView<I>, src: I, r: AppendEntriesReply)
    ensures
        ({
            let (post, actions) = next(
                s,
                Event::RpcReply(src, RpcPayload::AppendEntriesReply(r)),
            );
            if r.term > s.append_log_saved_term {
                &&& post == ServerView {
                    state: State::Follower,
                    current_term: r.term,
                    voted_for: None,
                    ..s
                }
                &&& actions.len() == 1
                &&& is_timer_of(actions[0], r.term)
            } else {
                &&& post == s
                &&& actions.len() == 0
            }
        }),
{
}

/// A vote request of an older term is refused with the server's term, and
/// changes nothing.
pub proof fn lemma_old_vote_request_refused<I>(s: ServerView<I>, src: I, p: RequestVote<I>)
    requires
        s.inv(),
        p.term < s.current_term,
    ensures
        next(s, Event::RpcReply(src, RpcPayload::RequestVote(p))) == (
            s,
            seq![
                Action::Rpc(
                    src,
                    RpcPayload::RequestVoteReply(
                        RequestVoteReply { term: s.current_term, granted: false },
                    ),
                ),
            ],
        ),
{
}

/// A vote request of the current term is granted exactly when the server has
/// voted for no one or for that candidate; granting records the vote and
/// restarts the timer, refusing changes nothing.
pub proof fn lemma_current_vote_request<I>(s: ServerView<I>, src: I, p: RequestVote<I>)
    requires
        s.inv(),
        p.term == s.current_term,
    ensures
        ({
            let (post, actions) = next(s, Event::RpcReply(src, RpcPayload::RequestVote(p)));
            let granted = s.voted_for is None || s.voted_for == Some(p.candidate_id);
            let reply = Action::Rpc(
                src,
                RpcPayload::RequestVoteReply(RequestVoteReply { term: s.current_term, granted }),
            );
            if granted {
                &&& post == ServerView { voted_for: Some(p.candidate_id), ..s }
                &&& actions.len() == 2
                &&& is_timer_of(actions[0], s.current_term)
                &&& actions[1] == reply
            } else {
                &&& post == s
                &&& actions == seq![reply]
            }
        }),
{
}

/// A vote request of a later term is granted, whatever the server's role:
/// the server follows that term, votes for the candidate, restarts its timer
/// twice (on stepping down and on voting) and replies last.
pub proof fn lemma_later_vote_request_granted<I>(s: ServerView<I>, src: I, p: RequestVote<I>)
    requires
        s.inv(),
        p.term > s.current_term,
    ensures
        ({
            let (post, actions) = next(s, Event::RpcReply(src, RpcPayload::RequestVote(p)));
            &&& post == ServerView {
                state: State::Follower,
                current_term: p.term,
                voted_for: Some(p.candidate_id),
                ..s
            }
            &&& actions.len() == 3
            &&& is_timer_of(actions[0], p.term)
            &&& is_timer_of(actions[1], p.term)
            &&& actions[2] == Action::Rpc(
                src,
                RpcPayload::RequestVoteReply(RequestVoteReply { term: p.term, granted: true }),
            )
        }),
{
}

/// A heartbeat of an older term is refused with the server's term, and
/// changes nothing: role, term and vote stay.
pub proof fn lemma_old_heartbeat_refused<I>(s: ServerView<I>, src: I, p: AppendEntries<I>)
    requires
        s.inv(),
        p.term < s.current_term,
    ensures
        next(s, Event::RpcReply(src, RpcPayload::AppendEntries(p))) == (
            s,
            seq![
                Action::Rpc(
                    src,
                    RpcPayload::AppendEntriesReply(
                        AppendEntriesReply { term: s.current_term, success: false },
                    ),
                ),
            ],
        ),
{
}

/// A heartbeat of the current term makes the server a follower of it: a
/// follower keeps its vote and restarts its timer; a candidate or leader
/// forgets its vote and restarts its timer twice. The reply, last, is a
/// success.
pub proof fn lemma_current_heartbeat<I>(s: ServerView<I>, src: I, p: AppendEntries<I>)
    requires
        s.inv(),
        p.term == s.current_term,
    ensures
        ({
            let (post, actions) = next(s, Event::RpcReply(src, RpcPayload::AppendEntries(p)));
            let reply = Action::Rpc(
                src,
                RpcPayload::AppendEntriesReply(
                    AppendEntriesReply { term: s.current_term, success: true },
                ),
            );
            if s.state == State::Follower {
                &&& post == s
                &&& actions.len() == 2
                &&& is_timer_of(actions[0], s.current_term)
                &&& actions[1] == reply
            } else {
                &&& post == ServerView { state: State::Follower, voted_for: None, ..s }
                &&& actions.len() == 3
                &&& is_timer_of(actions[0], s.current_term)
                &&& is_timer_of(actions[1], s.current_term)
                &&& actions[2] == reply
            }
        }),
{
}

/// A heartbeat of a later term makes the server a follower of that term with
/// no vote, restarting its timer twice, and succeeds.
pub proof fn lemma_later_heartbeat<I>(s: ServerView<I>, src: I, p: AppendEntries<I>)
    requires
        s.inv(),
        p.term > s.current_term,
    ensures
        ({
            let (post, actions) = next(s, Event::RpcReply(src, RpcPayload::AppendEntries(p)));
            &&& post == ServerView {
                state: State::Follower,
                current_term: p.term,
                voted_for: None,
                ..s
            }
            &&& actions.len() == 3
            &&& is_timer_of(actions[0], p.term)
            &&& is_timer_of(actions[1], p.term)
            &&& actions[2] == Action::Rpc(
                src,
                RpcPayload::AppendEntriesReply(AppendEntriesReply { term: p.term, success: true }),
            )
        }),
{
}

/// A server that enters a new term has voted for no one in it, unless it
/// started that election itself (voting for itself) or granted a vote of that
/// term in the same step (voting for the candidate).
pub proof fn lemma_new_term_vote<I>(s: ServerView<I>, event: Event<I>)
    requires
        s.inv(),
        next(s, event).0.current_term != s.current_term,
    ensures
        ({
            let post = next(s, event).0;
            ||| post.voted_for is None
            ||| starts_election(s, event) && post.voted_for == Some(s.id)
            ||| event matches Event::RpcReply(_, RpcPayload::RequestVote(p)) && post.voted_for
                == Some(p.candidate_id)
        }),
{
}

} // verus!
