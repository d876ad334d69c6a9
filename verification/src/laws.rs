//! Ledger-wide laws, stated over the same spec functions the operation
//! contracts use, so that what each operation promises composes across
//! calls.

use vstd::prelude::*;

use crate::campaigns::create_campaign_ok;
use crate::campaigns::create_campaign_post;
use crate::campaigns::withdraw_ok;
use crate::campaigns::withdraw_post;
use crate::dao::execute_ok;
use crate::dao::execute_post;
use crate::loans::repay_ok;
use crate::loans::repay_post;
use crate::types::Contract;
use crate::types::KYC_THRESHOLD;
use crate::users::create_profile_post;

verus! {

/// Funds are claimed at most once: a successful `withdraw` marks the
/// campaign claimed without touching its pooled total, and afterwards the
/// claim path can never succeed again, at any time.
pub proof fn lemma_claim_happens_at_most_once(
    pre: Contract,
    post: Contract,
    now: u64,
    later: u64,
    campaign_id: u64,
)
    requires
        withdraw_ok(pre, now, campaign_id),
        withdraw_post(pre, post, campaign_id),
    ensures
        post.campaigns.get_spec(campaign_id).claimed,
        post.campaigns.get_spec(campaign_id).total_contributions == pre.campaigns.get_spec(
            campaign_id,
        ).total_contributions,
        !withdraw_ok(post, later, campaign_id),
{
}

/// The KYC gate: a campaign asking for more than [`KYC_THRESHOLD`] can be
/// created exactly when the creator's profile is KYC-verified.
pub proof fn lemma_kyc_gate(s: Contract, caller: u64, amount_required: u64)
    requires
        s.users.contains_spec(caller),
        amount_required > KYC_THRESHOLD,
    ensures
        create_campaign_ok(s, caller, amount_required) <==> s.users.get_spec(
            caller,
        ).kyc_verified,
{
}

/// What a successful `create_campaign` produces is on the ledger and has
/// no contributions yet.
pub proof fn lemma_new_campaign_is_empty(
    pre: Contract,
    post: Contract,
    caller: u64,
    end_time: u64,
    amount_required: u64,
    title: String,
    description: String,
    images: String,
    campaign_code: String,
)
    requires
        create_campaign_post(
            pre,
            post,
            caller,
            end_time,
            amount_required,
            title,
            description,
            images,
            campaign_code,
        ),
    ensures
        post.campaigns.contains_spec(pre.next_campaign_id),
        post.campaigns.get_spec(pre.next_campaign_id).total_contributions == 0,
        post.campaigns.get_spec(pre.next_campaign_id).contributions@.len() == 0,
{
}

/// Repayment is owed at exactly principal plus floored flat interest: for
/// an outstanding loan of the caller, `repay_loan` can succeed exactly
/// when the attached value reaches that figure.
pub proof fn lemma_repay_exact_threshold(s: Contract, caller: u64, loan_id: u64, deposit: u64)
    requires
        s.loans.contains_spec(loan_id),
        s.loans.get_spec(loan_id).borrower == caller,
        !s.loans.get_spec(loan_id).repaid,
    ensures
        repay_ok(s, caller, loan_id, deposit) <==> deposit >= s.loans.get_spec(loan_id).amount + (
        s.loans.get_spec(loan_id).amount as int) * (s.loans.get_spec(loan_id).interest_rate
            as int) / 100,
{
}

/// `repaid` flips exactly once: a successful repayment marks the loan
/// repaid, and afterwards no repayment of it, by anyone and with any
/// attached value, can succeed.
pub proof fn lemma_repaid_flips_once(
    pre: Contract,
    post: Contract,
    caller: u64,
    loan_id: u64,
    deposit: u64,
)
    requires
        repay_ok(pre, caller, loan_id, deposit),
        repay_post(pre, post, loan_id),
    ensures
        !pre.loans.get_spec(loan_id).repaid,
        post.loans.contains_spec(loan_id),
        post.loans.get_spec(loan_id).repaid,
        forall|who: u64, d: u64| !repay_ok(post, who, loan_id, d),
{
}

/// A proposal executes exactly when its supporting votes strictly exceed
/// half the roster size, rounded down, and it was not executed before.
pub proof fn lemma_execute_majority(s: Contract, proposal_id: u64)
    requires
        s.proposals.contains_spec(proposal_id),
        !s.proposals.get_spec(proposal_id).executed,
    ensures
        execute_ok(s, proposal_id) <==> s.proposals.get_spec(proposal_id).votes_for
            > s.trusted_members@.len() as int / 2,
{
}

/// Execution is terminal: after one success the proposal stays on the
/// ledger, marked executed, with its votes intact and still past the vote
/// bar — so a second `execute_proposal` cannot succeed, and by that
/// operation's contract it is rejected as `InvalidState`.
pub proof fn lemma_execute_at_most_once(pre: Contract, post: Contract, proposal_id: u64)
    requires
        execute_ok(pre, proposal_id),
        execute_post(pre, post, proposal_id),
    ensures
        post.proposals.contains_spec(proposal_id),
        post.proposals.get_spec(proposal_id).executed,
        post.proposals.get_spec(proposal_id).votes_for > post.trusted_members@.len() as int / 2,
        !execute_ok(post, proposal_id),
{
}

/// Round trip: creating a profile and then fetching it yields the same
/// username and bio, an unset KYC flag, and empty contribution and
/// creation lists.
pub proof fn lemma_profile_round_trip(
    pre: Contract,
    post: Contract,
    caller: u64,
    username: String,
    bio: Option<String>,
)
    requires
        !pre.users.contains_spec(caller),
        create_profile_post(pre, post, caller, username, bio),
    ensures
        post.users.contains_spec(caller),
        post.users.get_spec(caller).username == username,
        post.users.get_spec(caller).bio == bio,
        !post.users.get_spec(caller).kyc_verified,
        post.users.get_spec(caller).contributions@.len() == 0,
        post.users.get_spec(caller).created_campaigns@.len() == 0,
{
}

} // verus!
