//! The consensus-facing node model: membership addresses, the
//! initialization gate of cluster mode, the write gate that forwards
//! followers' writes to the leader, and the committed log a node appends
//! to. The election and replication machinery runs outside the library;
//! what is modeled here is every decision the surrounding process asks of
//! it.

use vstd::prelude::*;
use crate::text::clone_chars;

verus! {

/// A cluster member's two addresses.
pub struct Node {
    pub rpc_addr: Vec<char>,
    pub api_addr: Vec<char>,
}

#[verifier::ext_equal]
pub struct NodeView {
    pub rpc_addr: Seq<char>,
    pub api_addr: Seq<char>,
}

impl View for Node {
    type V = NodeView;

    open spec fn view(&self) -> NodeView {
        NodeView { rpc_addr: self.rpc_addr@, api_addr: self.api_addr@ }
    }
}

/// What the write path answers before any envelope reaches the log.
pub enum WriteDecision {
    /// This node leads: the envelope is appended at the returned index.
    Accepted { index: usize },
    /// Another node leads: the client is pointed at its API address.
    ForwardToLeader { leader_api_addr: Vec<char> },
    /// No leader is known yet.
    LeaderUnknown,
    /// Cluster mode before the explicit initialization call.
    NotInitialized,
}

/// One node's consensus-facing state.
pub struct RaftNodeModel {
    pub id: u64,
    pub initialized: bool,
    pub is_leader: bool,
    pub leader_hint: Option<Node>,
    pub log: Vec<Vec<char>>,
    pub last_applied: usize,
}

impl RaftNodeModel {
    pub open spec fn log_view(&self) -> Seq<Seq<char>> {
        self.log@.map_values(|e: Vec<char>| e@)
    }

    /// A standalone node initializes itself at boot; a cluster node waits
    /// for the explicit initialization call. The single member of a
    /// standalone cluster leads it.
    pub fn new(id: u64, standalone: bool) -> (r: RaftNodeModel)
        ensures
            r.id == id,
            r.initialized == standalone,
            r.is_leader == standalone,
            r.leader_hint is None,
            r.log_view() =~= Seq::<Seq<char>>::empty(),
            r.last_applied == 0,
    {
        RaftNodeModel {
            id,
            initialized: standalone,
            is_leader: standalone,
            leader_hint: None,
            log: Vec::new(),
            last_applied: 0,
        }
    }

    /// The explicit cluster initialization: after it, this node can accept
    /// writes as the initial leader of the fresh membership.
    pub fn initialize(&mut self)
        ensures
            final(self).initialized,
            final(self).is_leader,
            final(self).id == old(self).id,
            final(self).log_view() == old(self).log_view(),
            final(self).last_applied == old(self).last_applied,
    {
        self.initialized = true;
        self.is_leader = true;
    }

    /// The write gate: an uninitialized node rejects, a follower points at
    /// the leader it knows, and only the leader appends to the log.
    pub fn client_write(&mut self, envelope: &Vec<char>) -> (r: WriteDecision)
        ensures
            final(self).id == old(self).id,
            final(self).initialized == old(self).initialized,
            final(self).is_leader == old(self).is_leader,
            final(self).last_applied == old(self).last_applied,
            match r {
                WriteDecision::Accepted { index } => old(self).initialized && old(self).is_leader
                    && final(self).log_view() == old(self).log_view().push(envelope@) && index
                    == old(self).log_view().len(),
                WriteDecision::ForwardToLeader { leader_api_addr } => old(self).initialized && !old(
                    self,
                ).is_leader && (old(self).leader_hint matches Some(n) && leader_api_addr@
                    == n@.api_addr) && final(self).log_view() == old(self).log_view(),
                WriteDecision::LeaderUnknown => old(self).initialized && !old(self).is_leader
                    && old(self).leader_hint is None && final(self).log_view() == old(
                    self,
                ).log_view(),
                WriteDecision::NotInitialized => !old(self).initialized && final(self).log_view()
                    == old(self).log_view(),
            },
    {
        if !self.initialized {
            return WriteDecision::NotInitialized;
        }
        if !self.is_leader {
            return match &self.leader_hint {
                Some(n) => WriteDecision::ForwardToLeader {
                    leader_api_addr: clone_chars(&n.api_addr),
                },
                None => WriteDecision::LeaderUnknown,
            };
        }
        let index = self.log.len();
        self.log.push(clone_chars(envelope));
        proof {
            assert(self.log_view() =~= old(self).log_view().push(envelope@));
        }
        WriteDecision::Accepted { index }
    }

    /// The linearizable-read gate: only the leader may answer a strongly
    /// consistent read directly; a follower forwards as a write would.
    pub fn ensure_linearizable(&self) -> (r: bool)
        ensures
            r == (self.initialized && self.is_leader),
    {
        self.initialized && self.is_leader
    }

    /// The next committed entry to feed the apply loop, in log order.
    pub fn next_to_apply(&self) -> (r: Option<&Vec<char>>)
        ensures
            match r {
                Some(e) => self.last_applied < self.log_view().len() && e@ == self.log_view()[
                    self.last_applied as int
                ],
                None => self.last_applied >= self.log_view().len(),
            },
    {
        if self.last_applied < self.log.len() {
            Some(&self.log[self.last_applied])
        } else {
            None
        }
    }

    /// Marks one more entry applied; paired with `next_to_apply` this
    /// walks the log exactly once, in index order.
    pub fn mark_applied(&mut self)
        requires
            old(self).last_applied < old(self).log_view().len(),
        ensures
            final(self).last_applied == old(self).last_applied + 1,
            final(self).log_view() == old(self).log_view(),
            final(self).id == old(self).id,
            final(self).initialized == old(self).initialized,
            final(self).is_leader == old(self).is_leader,
    {
        let n: usize = self.log.len();
        proof {
            assert(self.last_applied < n);
        }
        self.last_applied = self.last_applied + 1;
    }
}

} // verus!
