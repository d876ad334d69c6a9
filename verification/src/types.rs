//! Entity records, the error taxonomy and the root ledger state.
//!
//! Actor identities are plain `u64` account numbers: the host platform
//! resolves its account names to such numbers before a call reaches this
//! core, and transfers name their recipient by the same number.

use vstd::prelude::*;

use crate::keyed::IdSet;
use crate::keyed::KeyedVec;

verus! {

/// Why an operation was rejected. Every rejection leaves the state unchanged.
#[derive(Clone, Copy, Debug, PartialEq, Eq, Structural)]
pub enum Error {
    /// The caller may not perform this privileged or owner-gated action.
    PermissionDenied,
    /// No entity is stored under the given ID.
    NotFound,
    /// The entity has already made its terminal transition.
    InvalidState,
    /// A deadline, attached value or other precondition is not met.
    PreconditionFailed,
    /// The entity to be created already exists.
    AlreadyExists,
}

/// A value movement the host is asked to carry out after the call commits.
#[derive(Clone, Copy, Debug, PartialEq, Eq, Structural)]
pub struct Transfer {
    pub to: u64,
    pub amount: u64,
}

/// One recorded pledge of value to a campaign.
#[derive(Clone, Copy, Debug, PartialEq, Eq, Structural)]
pub struct Contribution {
    pub contributor: u64,
    pub amount: u64,
}

/// An open offer to borrow; `fulfilled` flips once, when a loan is made.
#[derive(Clone, Copy, Debug, PartialEq, Eq, Structural)]
pub struct LoanRequest {
    pub borrower: u64,
    pub amount: u64,
    /// Flat interest rate, as an integer percentage.
    pub interest_rate: u8,
    pub duration: u64,
    pub fulfilled: bool,
}

/// A funded agreement; `repaid` flips once.
#[derive(Clone, Copy, Debug, PartialEq, Eq, Structural)]
pub struct Loan {
    pub loan_id: u64,
    pub borrower: u64,
    pub lender: u64,
    pub amount: u64,
    pub interest_rate: u8,
    pub duration: u64,
    pub start_time: u64,
    pub repaid: bool,
}

/// An append-only record of one withdrawal from a campaign.
#[derive(Clone, Copy, Debug, PartialEq, Eq, Structural)]
pub struct WithdrawalLog {
    pub campaign_id: u64,
    pub withdrawn_by: u64,
    pub amount: u64,
    pub timestamp: u64,
}

/// Per-campaign audit aggregates, kept beside the campaign itself.
#[derive(Clone, Copy, Debug, PartialEq, Eq, Structural)]
pub struct CampaignStats {
    pub total_funds: u64,
    pub total_withdrawn: u64,
    pub number_of_withdrawals: u64,
}

/// A crowdfunding effort with a funding goal and a deadline.
#[derive(Debug)]
pub struct Campaign {
    pub creator: u64,
    pub total_contributions: u64,
    pub contributions: Vec<Contribution>,
    pub crowdfunding_end_time: u64,
    /// One-way flag: set exactly when the pooled funds were paid out
    /// through the one-shot claim path.
    pub claimed: bool,
    pub amount_required: u64,
    pub title: String,
    pub description: String,
    pub images: String,
    pub campaign_code: String,
}

/// A directory record for one actor.
#[derive(Debug)]
pub struct UserProfile {
    pub username: String,
    pub bio: Option<String>,
    pub kyc_verified: bool,
    /// Campaign IDs this actor contributed to, first time first, no repeats.
    pub contributions: Vec<u64>,
    /// Campaign IDs this actor created, oldest first.
    pub created_campaigns: Vec<u64>,
}

/// A governance item requiring trusted-member votes before execution.
#[derive(Debug)]
pub struct Proposal {
    pub id: u64,
    pub proposer: u64,
    pub description: String,
    pub votes_for: u64,
    pub votes_against: u64,
    pub executed: bool,
}

/// Campaigns asking for more than this must come from a KYC-verified creator.
pub const KYC_THRESHOLD: u64 = 5000000;

/// The root ledger state: every keyed collection and monotonic ID counter.
pub struct Contract {
    pub campaigns: KeyedVec<Campaign>,
    pub users: KeyedVec<UserProfile>,
    pub next_campaign_id: u64,
    pub loan_requests: KeyedVec<LoanRequest>,
    pub loans: KeyedVec<Loan>,
    pub next_loan_request_id: u64,
    pub next_loan_id: u64,
    pub treasury: u64,
    pub proposals: KeyedVec<Proposal>,
    /// Actors allowed to create and vote on proposals, in joining order.
    pub trusted_members: Vec<u64>,
    pub proposal_count: u64,
    pub verified_users: IdSet,
    pub banned_users: IdSet,
    pub withdrawal_logs: KeyedVec<Vec<WithdrawalLog>>,
    pub campaign_stats: KeyedVec<CampaignStats>,
}

impl Contract {
    /// Validity of the whole state: unique keys everywhere, and every stored
    /// ID below its collection's monotonic counter (IDs are never reused, so
    /// the next counter value is always fresh).
    pub open spec fn wf(self) -> bool {
        &&& self.campaigns.wf()
        &&& self.users.wf()
        &&& self.loan_requests.wf()
        &&& self.loans.wf()
        &&& self.proposals.wf()
        &&& self.verified_users.wf()
        &&& self.banned_users.wf()
        &&& self.withdrawal_logs.wf()
        &&& self.campaign_stats.wf()
        &&& forall|k: u64| self.campaigns.contains_spec(k) ==> k < self.next_campaign_id
        &&& forall|k: u64| self.loan_requests.contains_spec(k) ==> k < self.next_loan_request_id
        &&& forall|k: u64| self.loans.contains_spec(k) ==> k < self.next_loan_id
        &&& forall|k: u64| self.proposals.contains_spec(k) ==> k < self.proposal_count
    }

    /// An empty ledger: no entities, all counters at zero.
    pub fn init() -> (r: Contract)
        ensures
            r.wf(),
            r.campaigns.seq() == Seq::<(u64, Campaign)>::empty(),
            r.users.seq() == Seq::<(u64, UserProfile)>::empty(),
            r.loan_requests.seq() == Seq::<(u64, LoanRequest)>::empty(),
            r.loans.seq() == Seq::<(u64, Loan)>::empty(),
            r.proposals.seq() == Seq::<(u64, Proposal)>::empty(),
            r.trusted_members@ == Seq::<u64>::empty(),
            r.verified_users.seq() == Seq::<u64>::empty(),
            r.banned_users.seq() == Seq::<u64>::empty(),
            r.withdrawal_logs.seq() == Seq::<(u64, Vec<WithdrawalLog>)>::empty(),
            r.campaign_stats.seq() == Seq::<(u64, CampaignStats)>::empty(),
            r.next_campaign_id == 0,
            r.next_loan_request_id == 0,
            r.next_loan_id == 0,
            r.proposal_count == 0,
            r.treasury == 0,
    {
        let r = Contract {
            campaigns: KeyedVec::new(),
            users: KeyedVec::new(),
            next_campaign_id: 0,
            loan_requests: KeyedVec::new(),
            loans: KeyedVec::new(),
            next_loan_request_id: 0,
            next_loan_id: 0,
            treasury: 0,
            proposals: KeyedVec::new(),
            trusted_members: Vec::new(),
            proposal_count: 0,
            verified_users: IdSet::new(),
            banned_users: IdSet::new(),
            withdrawal_logs: KeyedVec::new(),
            campaign_stats: KeyedVec::new(),
        };
        proof {
            assert(r.trusted_members@ =~= Seq::<u64>::empty());
        }
        r
    }
}

/// Only the user directory changed.
pub open spec fn only_users_changed(pre: Contract, post: Contract) -> bool {
    post == Contract { users: post.users, ..pre }
}

/// Only the campaign ledger (and its ID counter) changed.
pub open spec fn only_campaigns_changed(pre: Contract, post: Contract) -> bool {
    post == Contract { campaigns: post.campaigns, next_campaign_id: post.next_campaign_id, ..pre }
}

/// Only the campaign ledger, its counter and the creator's directory record
/// changed.
pub open spec fn only_campaigns_and_users_changed(pre: Contract, post: Contract) -> bool {
    post == Contract {
        campaigns: post.campaigns,
        next_campaign_id: post.next_campaign_id,
        users: post.users,
        ..pre
    }
}

/// Only a campaign and its audit aggregates changed.
pub open spec fn only_campaigns_and_stats_changed(pre: Contract, post: Contract) -> bool {
    post == Contract { campaigns: post.campaigns, campaign_stats: post.campaign_stats, ..pre }
}

/// Only the loan-request ledger (and its ID counter) changed.
pub open spec fn only_loan_requests_changed(pre: Contract, post: Contract) -> bool {
    post == Contract {
        loan_requests: post.loan_requests,
        next_loan_request_id: post.next_loan_request_id,
        ..pre
    }
}

/// Only the loan ledgers (requests, loans and the loan ID counter) changed.
pub open spec fn only_loan_ledgers_changed(pre: Contract, post: Contract) -> bool {
    post == Contract {
        loan_requests: post.loan_requests,
        loans: post.loans,
        next_loan_id: post.next_loan_id,
        ..pre
    }
}

/// Only the loan ledger changed.
pub open spec fn only_loans_changed(pre: Contract, post: Contract) -> bool {
    post == Contract { loans: post.loans, ..pre }
}

/// Only the proposal ledger (and its ID counter) changed.
pub open spec fn only_proposals_changed(pre: Contract, post: Contract) -> bool {
    post == Contract { proposals: post.proposals, proposal_count: post.proposal_count, ..pre }
}

/// Only the trusted-member roster changed.
pub open spec fn only_roster_changed(pre: Contract, post: Contract) -> bool {
    post == Contract { trusted_members: post.trusted_members, ..pre }
}

/// Only the treasury counter changed.
pub open spec fn only_treasury_changed(pre: Contract, post: Contract) -> bool {
    post == Contract { treasury: post.treasury, ..pre }
}

/// Only the verified-user set changed.
pub open spec fn only_verified_changed(pre: Contract, post: Contract) -> bool {
    post == Contract { verified_users: post.verified_users, ..pre }
}

/// Only the banned-user set changed.
pub open spec fn only_banned_changed(pre: Contract, post: Contract) -> bool {
    post == Contract { banned_users: post.banned_users, ..pre }
}

/// The profile fields other than the contribution list are unchanged.
pub open spec fn same_profile_except_contributions(a: UserProfile, b: UserProfile) -> bool {
    &&& b.username == a.username
    &&& b.bio == a.bio
    &&& b.kyc_verified == a.kyc_verified
    &&& b.created_campaigns@ == a.created_campaigns@
}

/// The profile fields other than the created-campaign list are unchanged.
pub open spec fn same_profile_except_created(a: UserProfile, b: UserProfile) -> bool {
    &&& b.username == a.username
    &&& b.bio == a.bio
    &&& b.kyc_verified == a.kyc_verified
    &&& b.contributions@ == a.contributions@
}

/// The campaign fields that are immutable after creation are unchanged.
pub open spec fn same_campaign_meta(a: Campaign, b: Campaign) -> bool {
    &&& b.creator == a.creator
    &&& b.crowdfunding_end_time == a.crowdfunding_end_time
    &&& b.title == a.title
    &&& b.description == a.description
    &&& b.images == a.images
    &&& b.campaign_code == a.campaign_code
}

} // verus!
