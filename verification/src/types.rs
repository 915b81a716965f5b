//! Messages exchanged between a [`crate::Machine`] and the world around it.
//!
//! The generic parameter `I` is the type of a server ID.
use std::time::Duration;
use vstd::prelude::*;

verus! {

/// The role a server plays in the cluster.
#[derive(Copy, Clone, Debug, PartialEq, Eq, Structural)]
pub enum State {
    Follower,
    Candidate,
    Leader,
    Dead,
}

/// An *input* event that drives the [`crate::Machine`] forward.
///
/// All variants are tuple-like with two elements. The first one contains the
/// actual event payload; the second contains additional context copied
/// directly from the action that triggered this event.
#[derive(Debug)]
pub enum Event<I> {
    Start,
    /// Triggered by [`Action::StartElectionTimeout`].
    ElectionTimeout((), ElectionTimeoutCtx),
    /// Triggered by [`Action::StartLeaderHeartbeatTicker`].
    LeaderHeartbeatTick,
    /// *Source* node ID and the received payload.
    RpcReply(I, RpcPayload<I>),
}

/// An *output* action which indicates that some work is to be carried out.
///
/// All variants are tuple-like with two elements. The first one contains the
/// actual action payload; the second contains additional context to be
/// copied to the event that this action may yield.
#[derive(Debug)]
pub enum Action<I> {
    /// Will trigger one [`Event::ElectionTimeout`].
    ///
    /// The machine may yield several actions of this variant. Whenever a newer
    /// one is issued, the previous one must be cancelled in favour of it.
    StartElectionTimeout(Duration, ElectionTimeoutCtx),
    /// Will trigger events of type [`Event::LeaderHeartbeatTick`] continuously
    /// until [`Action::StopLeaderHeartbeatTicker`] is issued.
    StartLeaderHeartbeatTicker(Duration),
    /// Stops the ticker started by [`Action::StartLeaderHeartbeatTicker`].
    StopLeaderHeartbeatTicker,
    /// *Destination* node ID and the payload to send.
    Rpc(I, RpcPayload<I>),
}

/// The remote procedure calls of the protocol, requests and replies.
#[derive(Debug)]
pub enum RpcPayload<I> {
    RequestVote(RequestVote<I>),
    RequestVoteReply(RequestVoteReply),
    AppendEntries(AppendEntries<I>),
    AppendEntriesReply(AppendEntriesReply),
}

/// The term in which an election timer was started.
#[derive(Debug)]
pub struct ElectionTimeoutCtx {
    pub term_started: u64,
}

/// A candidate asks for a vote in `term`.
#[derive(Debug)]
pub struct RequestVote<I> {
    pub term: u64,
    pub candidate_id: I,
}

/// Answer to a [`RequestVote`].
#[derive(Debug)]
pub struct RequestVoteReply {
    pub term: u64,
    pub granted: bool,
}

/// A leader asserts its leadership for `term` (a heartbeat).
#[derive(Debug)]
pub struct AppendEntries<I> {
    pub term: u64,
    pub leader_id: I,
}

/// Answer to an [`AppendEntries`].
#[derive(Debug)]
pub struct AppendEntriesReply {
    pub term: u64,
    pub success: bool,
}

/// A clone of a server ID; the ID itself where clones are exact.
pub(crate) fn clone_id<I: Clone>(id: &I) -> (r: I)
    ensures
        crate::clone_is_exact::<I>() ==> r == *id,
{
    let r = id.clone();
    assert(vstd::pervasive::strictly_cloned(*id, r));
    r
}

impl Clone for ElectionTimeoutCtx {
    fn clone(&self) -> (r: Self)
        ensures
            r == *self,
    {
        ElectionTimeoutCtx { term_started: self.term_started }
    }
}

impl Clone for RequestVoteReply {
    fn clone(&self) -> (r: Self)
        ensures
            r == *self,
    {
        RequestVoteReply { term: self.term, granted: self.granted }
    }
}

impl Clone for AppendEntriesReply {
    fn clone(&self) -> (r: Self)
        ensures
            r == *self,
    {
        AppendEntriesReply { term: self.term, success: self.success }
    }
}

impl<I: Clone> Clone for RequestVote<I> {
    fn clone(&self) -> (r: Self)
        ensures
            crate::clone_is_exact::<I>() ==> r == *self,
    {
        RequestVote { term: self.term, candidate_id: clone_id(&self.candidate_id) }
    }
}

impl<I: Clone> Clone for AppendEntries<I> {
    fn clone(&self) -> (r: Self)
        ensures
            crate::clone_is_exact::<I>() ==> r == *self,
    {
        AppendEntries { term: self.term, leader_id: clone_id(&self.leader_id) }
    }
}

impl<I: Clone> Clone for RpcPayload<I> {
    fn clone(&self) -> (r: Self)
        ensures
            crate::clone_is_exact::<I>() ==> r == *self,
    {
        match self {
            RpcPayload::RequestVote(p) => RpcPayload::RequestVote(p.clone()),
            RpcPayload::RequestVoteReply(p) => RpcPayload::RequestVoteReply(p.clone()),
            RpcPayload::AppendEntries(p) => RpcPayload::AppendEntries(p.clone()),
            RpcPayload::AppendEntriesReply(p) => RpcPayload::AppendEntriesReply(p.clone()),
        }
    }
}

impl<I: Clone> Clone for Action<I> {
    fn clone(&self) -> (r: Self)
        ensures
            crate::clone_is_exact::<I>() ==> r == *self,
    {
        match self {
            Action::StartElectionTimeout(d, ctx) => Action::StartElectionTimeout(*d, ctx.clone()),
            Action::StartLeaderHeartbeatTicker(d) => Action::StartLeaderHeartbeatTicker(*d),
            Action::StopLeaderHeartbeatTicker => Action::StopLeaderHeartbeatTicker,
            Action::Rpc(dest, p) => Action::Rpc(clone_id(dest), p.clone()),
        }
    }
}

} // verus!
