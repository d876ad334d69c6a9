//! The governance ledger: trusted-member roster, proposals, majority-vote
//! execution and the treasury counter.

use vstd::prelude::*;

use crate::keyed::lemma_remove_insert_is_update;
use crate::types::Contract;
use crate::types::Error;
use crate::types::Proposal;
use crate::types::only_proposals_changed;
use crate::types::only_roster_changed;
use crate::types::only_treasury_changed;

verus! {

/// A just-created proposal: the given ID, proposer and text, no votes yet,
/// not executed.
pub open spec fn is_new_proposal(p: Proposal, id: u64, proposer: u64, description: String) -> bool {
    &&& p.id == id
    &&& p.proposer == proposer
    &&& p.description == description
    &&& p.votes_for == 0
    &&& p.votes_against == 0
    &&& !p.executed
}

/// `execute_proposal` succeeds exactly when the proposal exists, its
/// supporting votes strictly exceed half the roster (rounded down), and it
/// has not been executed before.
pub open spec fn execute_ok(s: Contract, proposal_id: u64) -> bool {
    &&& s.proposals.contains_spec(proposal_id)
    &&& s.proposals.get_spec(proposal_id).votes_for > s.trusted_members@.len() as int / 2
    &&& !s.proposals.get_spec(proposal_id).executed
}

/// How a successful `execute_proposal` changes the state: the proposal is
/// marked executed, in place; its votes and text stay as they are.
pub open spec fn execute_post(pre: Contract, post: Contract, proposal_id: u64) -> bool {
    let p0 = pre.proposals.get_spec(proposal_id);
    let p1 = post.proposals.get_spec(proposal_id);
    &&& only_proposals_changed(pre, post)
    &&& post.proposal_count == pre.proposal_count
    &&& post.proposals.seq() == pre.proposals.seq().update(
        pre.proposals.key_index(proposal_id),
        (proposal_id, p1),
    )
    &&& p1.id == p0.id
    &&& p1.proposer == p0.proposer
    &&& p1.description == p0.description
    &&& p1.votes_for == p0.votes_for
    &&& p1.votes_against == p0.votes_against
    &&& p1.executed
    &&& post.proposals.contains_spec(proposal_id)
    &&& forall|k: u64| post.proposals.contains_spec(k) == pre.proposals.contains_spec(k)
    &&& forall|k: u64|
        k != proposal_id && pre.proposals.contains_spec(k) ==> post.proposals.get_spec(k)
            == pre.proposals.get_spec(k)
}

impl Contract {
    /// Appends a member to the trusted roster. Privileged: only the
    /// ledger's own account may call it. No duplicate check is made; a
    /// member appended twice weighs twice in the majority count.
    pub fn add_trusted_member(&mut self, caller: u64, contract_account: u64, member_id: u64) -> (r:
        Result<(), Error>)
        requires
            old(self).wf(),
        ensures
            final(self).wf(),
            r is Ok <==> caller == contract_account,
            r is Err ==> r == Err::<(), Error>(Error::PermissionDenied) && *final(self) == *old(self),
            r is Ok ==> only_roster_changed(*old(self), *final(self)) && final(self).trusted_members@ == old(self).trusted_members@.push(member_id),
    {
        if caller != contract_account {
            return Err(Error::PermissionDenied);
        }
        self.trusted_members.push(member_id);
        Ok(())
    }

    /// Whether the given identity stands on the trusted roster.
    pub fn is_a_trusted_member(&self, member_id: u64) -> (r: bool)
        ensures
            r == self.trusted_members@.contains(member_id),
    {
        let n = self.trusted_members.len();
        let mut i: usize = 0;
        while i < n
            invariant
                n == self.trusted_members@.len(),
                i <= n,
                forall|j: int| 0 <= j < i ==> #[trigger] self.trusted_members@[j] != member_id,
            decreases n - i,
        {
            if self.trusted_members[i] == member_id {
                return true;
            }
            i += 1;
        }
        proof {
            assert(!self.trusted_members@.contains(member_id));
        }
        false
    }

    /// Creates a proposal under the next proposal ID, with zeroed vote
    /// counters. Only a trusted member may propose.
    pub fn create_proposal(&mut self, caller: u64, description: String) -> (r: Result<u64, Error>)
        requires
            old(self).wf(),
            old(self).proposal_count < u64::MAX,
        ensures
            final(self).wf(),
            r is Ok <==> old(self).trusted_members@.contains(caller),
            r is Err ==> r == Err::<u64, Error>(Error::PermissionDenied) && *final(self) == *old(self),
            r is Ok ==> {
                let id = old(self).proposal_count;
                &&& r == Ok::<u64, Error>(id)
                &&& only_proposals_changed(*old(self), *final(self))
                &&& final(self).proposal_count == id + 1
                &&& final(self).proposals.seq() == old(self).proposals.seq().push(
                    (id, final(self).proposals.get_spec(id)),
                )
                &&& is_new_proposal(final(self).proposals.get_spec(id), id, caller, description)
                &&& final(self).proposals.contains_spec(id)
                &&& forall|k: u64|
                    k != id ==> final(self).proposals.contains_spec(k) == old(self).proposals.contains_spec(k)
                &&& forall|k: u64|
                    k != id && old(self).proposals.contains_spec(k) ==> final(self).proposals.get_spec(k) == old(self).proposals.get_spec(k)
            },
    {
        if !self.is_a_trusted_member(caller) {
            return Err(Error::PermissionDenied);
        }
        let ghost pre = *self;
        let id = self.proposal_count;
        let proposal = Proposal {
            id,
            proposer: caller,
            description,
            votes_for: 0,
            votes_against: 0,
            executed: false,
        };
        proof {
            if self.proposals.contains_spec(id) {
                assert(id < pre.proposal_count);
            }
        }
        self.proposals.push_new(id, proposal);
        self.proposal_count = id + 1;
        proof {
            assert forall|k: u64| self.proposals.contains_spec(k) implies k
                < self.proposal_count by {
                if k != id {
                    assert(pre.proposals.contains_spec(k));
                }
            }
        }
        Ok(id)
    }

    /// Casts one vote on a not-yet-executed proposal. Only a trusted member
    /// may vote; nothing stops a member voting repeatedly, and every vote
    /// counts.
    pub fn vote(&mut self, caller: u64, proposal_id: u64, support: bool) -> (r: Result<(), Error>)
        requires
            old(self).wf(),
            old(self).proposals.contains_spec(proposal_id) ==> old(self).proposals.get_spec(
                proposal_id,
            ).votes_for < u64::MAX && old(self).proposals.get_spec(proposal_id).votes_against
                < u64::MAX,
        ensures
            final(self).wf(),
            r is Ok <==> (old(self).trusted_members@.contains(caller) && old(
                self,
            ).proposals.contains_spec(proposal_id) && !old(self).proposals.get_spec(
                proposal_id,
            ).executed),
            !old(self).trusted_members@.contains(caller) ==> r == Err::<(), Error>(
                Error::PermissionDenied,
            ),
            old(self).trusted_members@.contains(caller) && !old(self).proposals.contains_spec(
                proposal_id,
            ) ==> r == Err::<(), Error>(Error::NotFound),
            old(self).trusted_members@.contains(caller) && old(self).proposals.contains_spec(
                proposal_id,
            ) && old(self).proposals.get_spec(proposal_id).executed ==> r == Err::<(), Error>(
                Error::InvalidState,
            ),
            r is Err ==> *final(self) == *old(self),
            r is Ok ==> {
                let p0 = old(self).proposals.get_spec(proposal_id);
                let p1 = final(self).proposals.get_spec(proposal_id);
                &&& only_proposals_changed(*old(self), *final(self))
                &&& final(self).proposal_count == old(self).proposal_count
                &&& final(self).proposals.seq() == old(self).proposals.seq().update(
                    old(self).proposals.key_index(proposal_id),
                    (proposal_id, p1),
                )
                &&& p1.id == p0.id
                &&& p1.proposer == p0.proposer
                &&& p1.description == p0.description
                &&& p1.executed == p0.executed
                &&& (support ==> p1.votes_for == p0.votes_for + 1 && p1.votes_against
                    == p0.votes_against)
                &&& (!support ==> p1.votes_against == p0.votes_against + 1 && p1.votes_for
                    == p0.votes_for)
                &&& final(self).proposals.contains_spec(proposal_id)
                &&& forall|k: u64|
                    final(self).proposals.contains_spec(k) == old(self).proposals.contains_spec(k)
                &&& forall|k: u64|
                    k != proposal_id && old(self).proposals.contains_spec(k) ==> final(self).proposals.get_spec(k) == old(self).proposals.get_spec(k)
            },
    {
        if !self.is_a_trusted_member(caller) {
            return Err(Error::PermissionDenied);
        }
        let pidx = match self.proposals.index_of(proposal_id) {
            None => {
                return Err(Error::NotFound);
            },
            Some(i) => i,
        };
        if self.proposals.at(pidx).1.executed {
            return Err(Error::InvalidState);
        }
        let ghost pre = *self;
        let (pk, mut proposal) = self.proposals.remove_at(pidx);
        if support {
            proposal.votes_for = proposal.votes_for + 1;
        } else {
            proposal.votes_against = proposal.votes_against + 1;
        }
        self.proposals.insert_at(pidx, pk, proposal);
        proof {
            lemma_remove_insert_is_update(pre.proposals.seq(), pidx as int, (pk, proposal));
            assert forall|k: u64| self.proposals.contains_spec(k) implies k
                < self.proposal_count by {
                if k != proposal_id {
                    assert(pre.proposals.contains_spec(k));
                }
            }
        }
        Ok(())
    }

    /// Executes a proposal whose supporting votes strictly exceed half the
    /// roster, rounded down. Execution is terminal: it can succeed at most
    /// once per proposal, and afterwards only fails.
    pub fn execute_proposal(&mut self, proposal_id: u64) -> (r: Result<(), Error>)
        requires
            old(self).wf(),
        ensures
            final(self).wf(),
            r is Ok <==> execute_ok(*old(self), proposal_id),
            !old(self).proposals.contains_spec(proposal_id) ==> r == Err::<(), Error>(
                Error::NotFound,
            ),
            old(self).proposals.contains_spec(proposal_id) && old(self).proposals.get_spec(
                proposal_id,
            ).votes_for <= old(self).trusted_members@.len() as int / 2 ==> r == Err::<(), Error>(
                Error::PreconditionFailed,
            ),
            old(self).proposals.contains_spec(proposal_id) && old(self).proposals.get_spec(
                proposal_id,
            ).votes_for > old(self).trusted_members@.len() as int / 2 && old(
                self,
            ).proposals.get_spec(proposal_id).executed ==> r == Err::<(), Error>(
                Error::InvalidState,
            ),
            r is Err ==> *final(self) == *old(self),
            r is Ok ==> execute_post(*old(self), *final(self), proposal_id),
    {
        let pidx = match self.proposals.index_of(proposal_id) {
            None => {
                return Err(Error::NotFound);
            },
            Some(i) => i,
        };
        let required_votes = self.trusted_members.len() / 2;
        let p = &self.proposals.at(pidx).1;
        if !(p.votes_for > required_votes as u64) {
            return Err(Error::PreconditionFailed);
        }
        if p.executed {
            return Err(Error::InvalidState);
        }
        let ghost pre = *self;
        let (pk, mut proposal) = self.proposals.remove_at(pidx);
        proposal.executed = true;
        self.proposals.insert_at(pidx, pk, proposal);
        proof {
            lemma_remove_insert_is_update(pre.proposals.seq(), pidx as int, (pk, proposal));
            assert forall|k: u64| self.proposals.contains_spec(k) implies k
                < self.proposal_count by {
                if k != proposal_id {
                    assert(pre.proposals.contains_spec(k));
                }
            }
        }
        Ok(())
    }

    /// Adds the attached value to the treasury counter.
    pub fn contribute_to_treasury(&mut self, deposit: u64)
        requires
            old(self).wf(),
            old(self).treasury + deposit <= u64::MAX,
        ensures
            final(self).wf(),
            only_treasury_changed(*old(self), *final(self)),
            final(self).treasury == old(self).treasury + deposit,
    {
        self.treasury = self.treasury + deposit;
    }

    /// The proposal stored under `proposal_id`.
    pub fn get_proposal(&self, proposal_id: u64) -> (r: &Proposal)
        requires
            self.wf(),
            self.proposals.contains_spec(proposal_id),
        ensures
            *r == self.proposals.get_spec(proposal_id),
    {
        self.proposals.get(proposal_id).unwrap()
    }

    /// Every proposal, oldest first.
    pub fn get_all_proposals(&self) -> (r: Vec<&Proposal>)
        ensures
            r@.len() == self.proposals.seq().len(),
            forall|j: int| 0 <= j < r@.len() ==> r@[j] == (#[trigger] self.proposals.seq()[j]).1,
    {
        let n = self.proposals.len();
        let mut out: Vec<&Proposal> = Vec::new();
        let mut i: usize = 0;
        while i < n
            invariant
                n == self.proposals.seq().len(),
                i <= n,
                out@.len() == i,
                forall|j: int| 0 <= j < i ==> out@[j] == (#[trigger] self.proposals.seq()[j]).1,
            decreases n - i,
        {
            out.push(&self.proposals.at(i).1);
            i += 1;
        }
        out
    }
}

} // verus!
