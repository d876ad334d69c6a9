//! The campaign ledger: crowdfunding lifecycle from creation to payout,
//! cancellation or refund.

use vstd::prelude::*;

use crate::keyed::lemma_remove_insert_is_update;
use crate::types::Campaign;
use crate::types::Contract;
use crate::types::Contribution;
use crate::types::Error;
use crate::types::KYC_THRESHOLD;
use crate::types::Transfer;
use crate::types::only_campaigns_and_stats_changed;
use crate::types::only_campaigns_and_users_changed;
use crate::types::only_campaigns_changed;
use crate::types::same_campaign_meta;
use crate::types::same_profile_except_contributions;
use crate::types::same_profile_except_created;

verus! {

/// `create_campaign` succeeds exactly when the creator has a profile and,
/// for a goal above the KYC threshold, is KYC-verified.
pub open spec fn create_campaign_ok(s: Contract, caller: u64, amount_required: u64) -> bool {
    &&& s.users.contains_spec(caller)
    &&& (amount_required > KYC_THRESHOLD ==> s.users.get_spec(caller).kyc_verified)
}

/// A just-created campaign: the given metadata, no contributions, unclaimed.
pub open spec fn is_new_campaign(
    c: Campaign,
    creator: u64,
    end_time: u64,
    amount_required: u64,
    title: String,
    description: String,
    images: String,
    campaign_code: String,
) -> bool {
    &&& c.creator == creator
    &&& c.total_contributions == 0
    &&& c.contributions@ == Seq::<Contribution>::empty()
    &&& c.crowdfunding_end_time == end_time
    &&& !c.claimed
    &&& c.amount_required == amount_required
    &&& c.title == title
    &&& c.description == description
    &&& c.images == images
    &&& c.campaign_code == campaign_code
}

/// How a successful `create_campaign` changes the state: the campaign is
/// appended under the next ID, the counter moves on, and the ID is appended
/// to the creator's created-campaign list.
pub open spec fn create_campaign_post(
    pre: Contract,
    post: Contract,
    caller: u64,
    end_time: u64,
    amount_required: u64,
    title: String,
    description: String,
    images: String,
    campaign_code: String,
) -> bool {
    let id = pre.next_campaign_id;
    let p0 = pre.users.get_spec(caller);
    let p1 = post.users.get_spec(caller);
    &&& only_campaigns_and_users_changed(pre, post)
    &&& post.next_campaign_id == id + 1
    &&& post.campaigns.seq() == pre.campaigns.seq().push(
        (id, post.campaigns.get_spec(id)),
    )
    &&& is_new_campaign(
        post.campaigns.get_spec(id),
        caller,
        end_time,
        amount_required,
        title,
        description,
        images,
        campaign_code,
    )
    &&& post.users.seq() == pre.users.seq().update(pre.users.key_index(caller), (caller, p1))
    &&& same_profile_except_created(p0, p1)
    &&& p1.created_campaigns@ == p0.created_campaigns@.push(id)
    &&& post.campaigns.contains_spec(id)
    &&& forall|k: u64|
        k != id ==> post.campaigns.contains_spec(k) == pre.campaigns.contains_spec(k)
    &&& forall|k: u64|
        k != id && pre.campaigns.contains_spec(k) ==> post.campaigns.get_spec(k)
            == pre.campaigns.get_spec(k)
    &&& post.users.contains_spec(caller)
    &&& forall|k: u64| post.users.contains_spec(k) == pre.users.contains_spec(k)
    &&& forall|k: u64|
        k != caller && pre.users.contains_spec(k) ==> post.users.get_spec(k) == pre.users.get_spec(
            k,
        )
}

/// `contribute` succeeds exactly when the campaign exists, the contributor
/// has a profile, and the deadline has not yet passed.
pub open spec fn contribute_ok(s: Contract, caller: u64, now: u64, campaign_id: u64) -> bool {
    &&& s.campaigns.contains_spec(campaign_id)
    &&& s.users.contains_spec(caller)
    &&& now < s.campaigns.get_spec(campaign_id).crowdfunding_end_time
}

/// How a successful `contribute` changes the state: the pledge is recorded
/// on the campaign, the pooled total grows by the attached value, and the
/// campaign ID is recorded once in the contributor's profile.
pub open spec fn contribute_post(
    pre: Contract,
    post: Contract,
    caller: u64,
    deposit: u64,
    campaign_id: u64,
) -> bool {
    let c0 = pre.campaigns.get_spec(campaign_id);
    let c1 = post.campaigns.get_spec(campaign_id);
    let p0 = pre.users.get_spec(caller);
    let p1 = post.users.get_spec(caller);
    &&& only_campaigns_and_users_changed(pre, post)
    &&& post.next_campaign_id == pre.next_campaign_id
    &&& post.campaigns.seq() == pre.campaigns.seq().update(
        pre.campaigns.key_index(campaign_id),
        (campaign_id, c1),
    )
    &&& same_campaign_meta(c0, c1)
    &&& c1.claimed == c0.claimed
    &&& c1.amount_required == c0.amount_required
    &&& c1.total_contributions == c0.total_contributions + deposit
    &&& c1.contributions@ == c0.contributions@.push(
        Contribution { contributor: caller, amount: deposit },
    )
    &&& post.users.seq() == pre.users.seq().update(pre.users.key_index(caller), (caller, p1))
    &&& same_profile_except_contributions(p0, p1)
    &&& (p0.contributions@.contains(campaign_id) ==> p1.contributions@ == p0.contributions@)
    &&& (!p0.contributions@.contains(campaign_id) ==> p1.contributions@
        == p0.contributions@.push(campaign_id))
    &&& post.campaigns.contains_spec(campaign_id)
    &&& forall|k: u64| post.campaigns.contains_spec(k) == pre.campaigns.contains_spec(k)
    &&& forall|k: u64|
        k != campaign_id && pre.campaigns.contains_spec(k) ==> post.campaigns.get_spec(k)
            == pre.campaigns.get_spec(k)
    &&& post.users.contains_spec(caller)
    &&& forall|k: u64| post.users.contains_spec(k) == pre.users.contains_spec(k)
    &&& forall|k: u64|
        k != caller && pre.users.contains_spec(k) ==> post.users.get_spec(k) == pre.users.get_spec(
            k,
        )
}

/// `withdraw` succeeds exactly when the campaign exists, its deadline has
/// passed, its funds are unclaimed, and its goal is reached.
pub open spec fn withdraw_ok(s: Contract, now: u64, campaign_id: u64) -> bool {
    &&& s.campaigns.contains_spec(campaign_id)
    &&& now > s.campaigns.get_spec(campaign_id).crowdfunding_end_time
    &&& !s.campaigns.get_spec(campaign_id).claimed
    &&& s.campaigns.get_spec(campaign_id).total_contributions >= s.campaigns.get_spec(
        campaign_id,
    ).amount_required
}

/// How a successful `withdraw` changes the state: the campaign is marked
/// claimed, in place; its pooled total and pledges stay as they are.
pub open spec fn withdraw_post(pre: Contract, post: Contract, campaign_id: u64) -> bool {
    let c0 = pre.campaigns.get_spec(campaign_id);
    let c1 = post.campaigns.get_spec(campaign_id);
    &&& only_campaigns_changed(pre, post)
    &&& post.next_campaign_id == pre.next_campaign_id
    &&& post.campaigns.seq() == pre.campaigns.seq().update(
        pre.campaigns.key_index(campaign_id),
        (campaign_id, c1),
    )
    &&& same_campaign_meta(c0, c1)
    &&& c1.claimed == true
    &&& c1.total_contributions == c0.total_contributions
    &&& c1.contributions@ == c0.contributions@
    &&& c1.amount_required == c0.amount_required
    &&& post.campaigns.contains_spec(campaign_id)
    &&& forall|k: u64| post.campaigns.contains_spec(k) == pre.campaigns.contains_spec(k)
    &&& forall|k: u64|
        k != campaign_id && pre.campaigns.contains_spec(k) ==> post.campaigns.get_spec(k)
            == pre.campaigns.get_spec(k)
}

/// `withdraw_funds` succeeds exactly when the campaign exists, the caller
/// created it, the goal is reached, and audit aggregates are seeded for it.
pub open spec fn withdraw_funds_ok(s: Contract, caller: u64, campaign_id: u64) -> bool {
    &&& s.campaigns.contains_spec(campaign_id)
    &&& s.campaigns.get_spec(campaign_id).creator == caller
    &&& s.campaigns.get_spec(campaign_id).total_contributions >= s.campaigns.get_spec(
        campaign_id,
    ).amount_required
    &&& s.campaign_stats.contains_spec(campaign_id)
}

impl Contract {
    /// Creates a campaign under the next campaign ID. The creator must have
    /// a profile; a goal above [`KYC_THRESHOLD`] needs a KYC-verified
    /// creator.
    pub fn create_campaign(
        &mut self,
        caller: u64,
        end_time: u64,
        title: String,
        description: String,
        images: String,
        amount_required: u64,
        campaign_code: String,
    ) -> (r: Result<u64, Error>)
        requires
            old(self).wf(),
            old(self).next_campaign_id < u64::MAX,
        ensures
            final(self).wf(),
            r is Ok <==> create_campaign_ok(*old(self), caller, amount_required),
            !old(self).users.contains_spec(caller) ==> r == Err::<u64, Error>(Error::NotFound),
            old(self).users.contains_spec(caller) && amount_required > KYC_THRESHOLD && !old(
                self,
            ).users.get_spec(caller).kyc_verified ==> r == Err::<u64, Error>(
                Error::PermissionDenied,
            ),
            r is Err ==> *final(self) == *old(self),
            r is Ok ==> r == Ok::<u64, Error>(old(self).next_campaign_id)
                && create_campaign_post(
                *old(self),
                *final(self),
                caller,
                end_time,
                amount_required,
                title,
                description,
                images,
                campaign_code,
            ),
    {
        let uidx = match self.users.index_of(caller) {
            None => {
                return Err(Error::NotFound);
            },
            Some(i) => i,
        };
        if amount_required > KYC_THRESHOLD {
            if !self.users.at(uidx).1.kyc_verified {
                return Err(Error::PermissionDenied);
            }
        }
        let ghost pre = *self;
        let id = self.next_campaign_id;
        proof {
            if self.campaigns.contains_spec(id) {
                assert(id < pre.next_campaign_id);
            }
        }
        let campaign = Campaign {
            creator: caller,
            total_contributions: 0,
            contributions: Vec::new(),
            crowdfunding_end_time: end_time,
            claimed: false,
            amount_required,
            title,
            description,
            images,
            campaign_code,
        };
        proof {
            assert(campaign.contributions@ =~= Seq::<Contribution>::empty());
        }
        self.campaigns.push_new(id, campaign);
        let (uk, mut profile) = self.users.remove_at(uidx);
        profile.created_campaigns.push(id);
        self.users.insert_at(uidx, uk, profile);
        self.next_campaign_id = id + 1;
        proof {
            lemma_remove_insert_is_update(pre.users.seq(), uidx as int, (uk, profile));
            assert forall|k: u64| self.campaigns.contains_spec(k) implies k
                < self.next_campaign_id by {
                if k != id {
                    assert(pre.campaigns.contains_spec(k));
                }
            }
        }
        Ok(id)
    }

    /// Records a pledge of the attached value on a still-running campaign,
    /// and notes the campaign once in the contributor's profile.
    pub fn contribute(&mut self, caller: u64, deposit: u64, now: u64, campaign_id: u64) -> (r:
        Result<(), Error>)
        requires
            old(self).wf(),
            old(self).campaigns.contains_spec(campaign_id) ==> old(self).campaigns.get_spec(
                campaign_id,
            ).total_contributions + deposit <= u64::MAX,
        ensures
            final(self).wf(),
            r is Ok <==> contribute_ok(*old(self), caller, now, campaign_id),
            !old(self).campaigns.contains_spec(campaign_id) ==> r == Err::<(), Error>(
                Error::NotFound,
            ),
            old(self).campaigns.contains_spec(campaign_id) && !old(self).users.contains_spec(
                caller,
            ) ==> r == Err::<(), Error>(Error::NotFound),
            old(self).campaigns.contains_spec(campaign_id) && old(self).users.contains_spec(caller)
                && now >= old(self).campaigns.get_spec(campaign_id).crowdfunding_end_time ==> r
                == Err::<(), Error>(Error::PreconditionFailed),
            r is Err ==> *final(self) == *old(self),
            r is Ok ==> contribute_post(*old(self), *final(self), caller, deposit, campaign_id),
    {
        let cidx = match self.campaigns.index_of(campaign_id) {
            None => {
                return Err(Error::NotFound);
            },
            Some(i) => i,
        };
        let uidx = match self.users.index_of(caller) {
            None => {
                return Err(Error::NotFound);
            },
            Some(i) => i,
        };
        if now >= self.campaigns.at(cidx).1.crowdfunding_end_time {
            return Err(Error::PreconditionFailed);
        }
        let ghost pre = *self;
        let (ck, mut campaign) = self.campaigns.remove_at(cidx);
        campaign.contributions.push(Contribution { contributor: caller, amount: deposit });
        campaign.total_contributions = campaign.total_contributions + deposit;
        self.campaigns.insert_at(cidx, ck, campaign);
        proof {
            lemma_remove_insert_is_update(pre.campaigns.seq(), cidx as int, (ck, campaign));
        }
        let (uk, mut profile) = self.users.remove_at(uidx);
        let m = profile.contributions.len();
        let mut j: usize = 0;
        let mut found = false;
        while j < m
            invariant
                m == profile.contributions@.len(),
                j <= m,
                found == exists|t: int| 0 <= t < j && profile.contributions@[t] == campaign_id,
            decreases m - j,
        {
            if profile.contributions[j] == campaign_id {
                found = true;
            }
            j += 1;
        }
        proof {
            assert(found == profile.contributions@.contains(campaign_id));
        }
        if !found {
            profile.contributions.push(campaign_id);
        }
        self.users.insert_at(uidx, uk, profile);
        proof {
            lemma_remove_insert_is_update(pre.users.seq(), uidx as int, (uk, profile));
            assert forall|k: u64| self.campaigns.contains_spec(k) implies k
                < self.next_campaign_id by {
                if k != campaign_id {
                    assert(pre.campaigns.contains_spec(k));
                }
            }
        }
        Ok(())
    }

    /// The one-shot claim path: after the deadline, with the goal reached
    /// and the funds unclaimed, marks the campaign claimed and asks the host
    /// to move the whole pooled total to the campaign's creator.
    pub fn withdraw(&mut self, now: u64, campaign_id: u64) -> (r: Result<Transfer, Error>)
        requires
            old(self).wf(),
        ensures
            final(self).wf(),
            r is Ok <==> withdraw_ok(*old(self), now, campaign_id),
            !old(self).campaigns.contains_spec(campaign_id) ==> r == Err::<Transfer, Error>(
                Error::NotFound,
            ),
            old(self).campaigns.contains_spec(campaign_id) && now <= old(self).campaigns.get_spec(
                campaign_id,
            ).crowdfunding_end_time ==> r == Err::<Transfer, Error>(Error::PreconditionFailed),
            old(self).campaigns.contains_spec(campaign_id) && now > old(self).campaigns.get_spec(
                campaign_id,
            ).crowdfunding_end_time && old(self).campaigns.get_spec(campaign_id).claimed ==> r
                == Err::<Transfer, Error>(Error::InvalidState),
            old(self).campaigns.contains_spec(campaign_id) && now > old(self).campaigns.get_spec(
                campaign_id,
            ).crowdfunding_end_time && !old(self).campaigns.get_spec(campaign_id).claimed && old(
                self,
            ).campaigns.get_spec(campaign_id).total_contributions < old(self).campaigns.get_spec(
                campaign_id,
            ).amount_required ==> r == Err::<Transfer, Error>(Error::PreconditionFailed),
            r is Err ==> *final(self) == *old(self),
            r is Ok ==> withdraw_post(*old(self), *final(self), campaign_id) && r == Ok::<
                Transfer,
                Error,
            >(
                Transfer {
                    to: old(self).campaigns.get_spec(campaign_id).creator,
                    amount: old(self).campaigns.get_spec(campaign_id).total_contributions,
                },
            ),
    {
        let cidx = match self.campaigns.index_of(campaign_id) {
            None => {
                return Err(Error::NotFound);
            },
            Some(i) => i,
        };
        let c = &self.campaigns.at(cidx).1;
        if now <= c.crowdfunding_end_time {
            return Err(Error::PreconditionFailed);
        }
        if c.claimed {
            return Err(Error::InvalidState);
        }
        if c.total_contributions < c.amount_required {
            return Err(Error::PreconditionFailed);
        }
        let ghost pre = *self;
        let (ck, mut campaign) = self.campaigns.remove_at(cidx);
        campaign.claimed = true;
        let transfer = Transfer { to: campaign.creator, amount: campaign.total_contributions };
        self.campaigns.insert_at(cidx, ck, campaign);
        proof {
            lemma_remove_insert_is_update(pre.campaigns.seq(), cidx as int, (ck, campaign));
            assert forall|k: u64| self.campaigns.contains_spec(k) implies k
                < self.next_campaign_id by {
                if k != campaign_id {
                    assert(pre.campaigns.contains_spec(k));
                }
            }
        }
        Ok(transfer)
    }

    /// The repeatable withdrawal path: the creator drains the pooled total
    /// to any recipient once the goal is reached. The pledge records stay,
    /// the total resets to zero, and the campaign's audit aggregates — which
    /// must have been seeded — are updated. The campaign is not marked
    /// claimed, so the path stays open to later pledges.
    pub fn withdraw_funds(&mut self, caller: u64, campaign_id: u64, recipient: u64) -> (r: Result<
        Transfer,
        Error,
    >)
        requires
            old(self).wf(),
            old(self).campaigns.contains_spec(campaign_id) && old(
                self,
            ).campaign_stats.contains_spec(campaign_id) ==> old(self).campaign_stats.get_spec(
                campaign_id,
            ).total_withdrawn + old(self).campaigns.get_spec(campaign_id).total_contributions
                <= u64::MAX && old(self).campaign_stats.get_spec(
                campaign_id,
            ).number_of_withdrawals < u64::MAX,
        ensures
            final(self).wf(),
            r is Ok <==> withdraw_funds_ok(*old(self), caller, campaign_id),
            !old(self).campaigns.contains_spec(campaign_id) ==> r == Err::<Transfer, Error>(
                Error::NotFound,
            ),
            old(self).campaigns.contains_spec(campaign_id) && old(self).campaigns.get_spec(
                campaign_id,
            ).creator != caller ==> r == Err::<Transfer, Error>(Error::PermissionDenied),
            old(self).campaigns.contains_spec(campaign_id) && old(self).campaigns.get_spec(
                campaign_id,
            ).creator == caller && old(self).campaigns.get_spec(campaign_id).total_contributions
                < old(self).campaigns.get_spec(campaign_id).amount_required ==> r == Err::<
                Transfer,
                Error,
            >(Error::PreconditionFailed),
            old(self).campaigns.contains_spec(campaign_id) && old(self).campaigns.get_spec(
                campaign_id,
            ).creator == caller && old(self).campaigns.get_spec(campaign_id).total_contributions
                >= old(self).campaigns.get_spec(campaign_id).amount_required && !old(
                self,
            ).campaign_stats.contains_spec(campaign_id) ==> r == Err::<Transfer, Error>(
                Error::NotFound,
            ),
            r is Err ==> *final(self) == *old(self),
            r is Ok ==> {
                let c0 = old(self).campaigns.get_spec(campaign_id);
                let c1 = final(self).campaigns.get_spec(campaign_id);
                let s0 = old(self).campaign_stats.get_spec(campaign_id);
                let s1 = final(self).campaign_stats.get_spec(campaign_id);
                &&& only_campaigns_and_stats_changed(*old(self), *final(self))
                &&& final(self).campaigns.seq() == old(self).campaigns.seq().update(
                    old(self).campaigns.key_index(campaign_id),
                    (campaign_id, c1),
                )
                &&& same_campaign_meta(c0, c1)
                &&& c1.claimed == c0.claimed
                &&& c1.amount_required == c0.amount_required
                &&& c1.total_contributions == 0
                &&& c1.contributions@ == c0.contributions@
                &&& final(self).campaign_stats.seq() == old(self).campaign_stats.seq().update(
                    old(self).campaign_stats.key_index(campaign_id),
                    (campaign_id, s1),
                )
                &&& s1.total_funds == s0.total_funds
                &&& s1.total_withdrawn == s0.total_withdrawn + c0.total_contributions
                &&& s1.number_of_withdrawals == s0.number_of_withdrawals + 1
                &&& r == Ok::<Transfer, Error>(
                    Transfer { to: recipient, amount: c0.total_contributions },
                )
            },
    {
        let cidx = match self.campaigns.index_of(campaign_id) {
            None => {
                return Err(Error::NotFound);
            },
            Some(i) => i,
        };
        let c = &self.campaigns.at(cidx).1;
        if c.creator != caller {
            return Err(Error::PermissionDenied);
        }
        if c.total_contributions < c.amount_required {
            return Err(Error::PreconditionFailed);
        }
        let sidx = match self.campaign_stats.index_of(campaign_id) {
            None => {
                return Err(Error::NotFound);
            },
            Some(i) => i,
        };
        let ghost pre = *self;
        let (ck, mut campaign) = self.campaigns.remove_at(cidx);
        let amount_to_withdraw = campaign.total_contributions;
        campaign.total_contributions = 0;
        self.campaigns.insert_at(cidx, ck, campaign);
        let (sk, mut stats) = self.campaign_stats.remove_at(sidx);
        stats.total_withdrawn = stats.total_withdrawn + amount_to_withdraw;
        stats.number_of_withdrawals = stats.number_of_withdrawals + 1;
        self.campaign_stats.insert_at(sidx, sk, stats);
        proof {
            lemma_remove_insert_is_update(pre.campaigns.seq(), cidx as int, (ck, campaign));
            lemma_remove_insert_is_update(pre.campaign_stats.seq(), sidx as int, (sk, stats));
            assert forall|k: u64| self.campaigns.contains_spec(k) implies k
                < self.next_campaign_id by {
                if k != campaign_id {
                    assert(pre.campaigns.contains_spec(k));
                }
            }
        }
        Ok(Transfer { to: recipient, amount: amount_to_withdraw })
    }

    /// Cancels a still-running campaign: only its creator, only before the
    /// deadline. The campaign is removed, and one refund per recorded pledge
    /// is requested — each for the campaign's whole pooled total, not the
    /// pledger's own share, so the requested refunds can exceed what was
    /// collected.
    pub fn cancel_campaign(&mut self, caller: u64, now: u64, campaign_id: u64) -> (r: Result<
        Vec<Transfer>,
        Error,
    >)
        requires
            old(self).wf(),
        ensures
            final(self).wf(),
            r is Ok <==> (old(self).campaigns.contains_spec(campaign_id) && old(
                self,
            ).campaigns.get_spec(campaign_id).creator == caller && now < old(
                self,
            ).campaigns.get_spec(campaign_id).crowdfunding_end_time),
            !old(self).campaigns.contains_spec(campaign_id) ==> r == Err::<Vec<Transfer>, Error>(
                Error::NotFound,
            ),
            old(self).campaigns.contains_spec(campaign_id) && old(self).campaigns.get_spec(
                campaign_id,
            ).creator != caller ==> r == Err::<Vec<Transfer>, Error>(Error::PermissionDenied),
            old(self).campaigns.contains_spec(campaign_id) && old(self).campaigns.get_spec(
                campaign_id,
            ).creator == caller && now >= old(self).campaigns.get_spec(
                campaign_id,
            ).crowdfunding_end_time ==> r == Err::<Vec<Transfer>, Error>(Error::PreconditionFailed),
            r is Err ==> *final(self) == *old(self),
            r is Ok ==> {
                let c0 = old(self).campaigns.get_spec(campaign_id);
                &&& only_campaigns_changed(*old(self), *final(self))
                &&& final(self).next_campaign_id == old(self).next_campaign_id
                &&& final(self).campaigns.seq() == old(self).campaigns.seq().remove(
                    old(self).campaigns.key_index(campaign_id),
                )
                &&& !final(self).campaigns.contains_spec(campaign_id)
                &&& forall|k: u64|
                    k != campaign_id ==> final(self).campaigns.contains_spec(k) == old(self).campaigns.contains_spec(k)
                &&& forall|k: u64|
                    k != campaign_id && old(self).campaigns.contains_spec(k) ==> final(self).campaigns.get_spec(k) == old(self).campaigns.get_spec(k)
                &&& r->Ok_0@.len() == c0.contributions@.len()
                &&& forall|j: int|
                    0 <= j < c0.contributions@.len() ==> r->Ok_0@[j] == (Transfer {
                        to: c0.contributions@[j].contributor,
                        amount: c0.total_contributions,
                    })
            },
    {
        let cidx = match self.campaigns.index_of(campaign_id) {
            None => {
                return Err(Error::NotFound);
            },
            Some(i) => i,
        };
        let c = &self.campaigns.at(cidx).1;
        if c.creator != caller {
            return Err(Error::PermissionDenied);
        }
        if now >= c.crowdfunding_end_time {
            return Err(Error::PreconditionFailed);
        }
        let mut refunds: Vec<Transfer> = Vec::new();
        let m = c.contributions.len();
        let mut j: usize = 0;
        while j < m
            invariant
                cidx < self.campaigns.seq().len(),
                self.campaigns.seq()[cidx as int].1 == *c,
                m == c.contributions@.len(),
                j <= m,
                refunds@.len() == j,
                forall|t: int|
                    0 <= t < j ==> refunds@[t] == (Transfer {
                        to: c.contributions@[t].contributor,
                        amount: c.total_contributions,
                    }),
            decreases m - j,
        {
            refunds.push(
                Transfer { to: c.contributions[j].contributor, amount: c.total_contributions },
            );
            j += 1;
        }
        let ghost pre = *self;
        let _ = self.campaigns.remove_at(cidx);
        proof {
            assert forall|k: u64| self.campaigns.contains_spec(k) implies k
                < self.next_campaign_id by {
                assert(pre.campaigns.contains_spec(k));
            }
        }
        Ok(refunds)
    }

    /// Refunds a failed campaign after its deadline: the goal must not have
    /// been reached. The campaign is removed, and one refund per recorded
    /// pledge is requested — each for the whole pooled total, as with
    /// cancellation.
    pub fn refund_contributors(&mut self, now: u64, campaign_id: u64) -> (r: Result<
        Vec<Transfer>,
        Error,
    >)
        requires
            old(self).wf(),
        ensures
            final(self).wf(),
            r is Ok <==> (old(self).campaigns.contains_spec(campaign_id) && now > old(
                self,
            ).campaigns.get_spec(campaign_id).crowdfunding_end_time && old(
                self,
            ).campaigns.get_spec(campaign_id).total_contributions < old(self).campaigns.get_spec(
                campaign_id,
            ).amount_required),
            !old(self).campaigns.contains_spec(campaign_id) ==> r == Err::<Vec<Transfer>, Error>(
                Error::NotFound,
            ),
            old(self).campaigns.contains_spec(campaign_id) && now <= old(self).campaigns.get_spec(
                campaign_id,
            ).crowdfunding_end_time ==> r == Err::<Vec<Transfer>, Error>(Error::PreconditionFailed),
            old(self).campaigns.contains_spec(campaign_id) && now > old(self).campaigns.get_spec(
                campaign_id,
            ).crowdfunding_end_time && old(self).campaigns.get_spec(
                campaign_id,
            ).total_contributions >= old(self).campaigns.get_spec(campaign_id).amount_required
                ==> r == Err::<Vec<Transfer>, Error>(Error::PreconditionFailed),
            r is Err ==> *final(self) == *old(self),
            r is Ok ==> {
                let c0 = old(self).campaigns.get_spec(campaign_id);
                &&& only_campaigns_changed(*old(self), *final(self))
                &&& final(self).next_campaign_id == old(self).next_campaign_id
                &&& final(self).campaigns.seq() == old(self).campaigns.seq().remove(
                    old(self).campaigns.key_index(campaign_id),
                )
                &&& !final(self).campaigns.contains_spec(campaign_id)
                &&& forall|k: u64|
                    k != campaign_id ==> final(self).campaigns.contains_spec(k) == old(self).campaigns.contains_spec(k)
                &&& forall|k: u64|
                    k != campaign_id && old(self).campaigns.contains_spec(k) ==> final(self).campaigns.get_spec(k) == old(self).campaigns.get_spec(k)
                &&& r->Ok_0@.len() == c0.contributions@.len()
                &&& forall|j: int|
                    0 <= j < c0.contributions@.len() ==> r->Ok_0@[j] == (Transfer {
                        to: c0.contributions@[j].contributor,
                        amount: c0.total_contributions,
                    })
            },
    {
        let cidx = match self.campaigns.index_of(campaign_id) {
            None => {
                return Err(Error::NotFound);
            },
            Some(i) => i,
        };
        let c = &self.campaigns.at(cidx).1;
        if now <= c.crowdfunding_end_time {
            return Err(Error::PreconditionFailed);
        }
        if c.total_contributions >= c.amount_required {
            return Err(Error::PreconditionFailed);
        }
        let mut refunds: Vec<Transfer> = Vec::new();
        let m = c.contributions.len();
        let mut j: usize = 0;
        while j < m
            invariant
                cidx < self.campaigns.seq().len(),
                self.campaigns.seq()[cidx as int].1 == *c,
                m == c.contributions@.len(),
                j <= m,
                refunds@.len() == j,
                forall|t: int|
                    0 <= t < j ==> refunds@[t] == (Transfer {
                        to: c.contributions@[t].contributor,
                        amount: c.total_contributions,
                    }),
            decreases m - j,
        {
            refunds.push(
                Transfer { to: c.contributions[j].contributor, amount: c.total_contributions },
            );
            j += 1;
        }
        let ghost pre = *self;
        let _ = self.campaigns.remove_at(cidx);
        proof {
            assert forall|k: u64| self.campaigns.contains_spec(k) implies k
                < self.next_campaign_id by {
                assert(pre.campaigns.contains_spec(k));
            }
        }
        Ok(refunds)
    }

    /// Changes a campaign's funding goal: only its creator, and only while
    /// no pledge has been recorded yet.
    pub fn modify_funding_goal(&mut self, caller: u64, campaign_id: u64, new_goal: u64) -> (r:
        Result<(), Error>)
        requires
            old(self).wf(),
        ensures
            final(self).wf(),
            r is Ok <==> (old(self).campaigns.contains_spec(campaign_id) && old(
                self,
            ).campaigns.get_spec(campaign_id).creator == caller && old(self).campaigns.get_spec(
                campaign_id,
            ).contributions@.len() == 0),
            !old(self).campaigns.contains_spec(campaign_id) ==> r == Err::<(), Error>(
                Error::NotFound,
            ),
            old(self).campaigns.contains_spec(campaign_id) && old(self).campaigns.get_spec(
                campaign_id,
            ).creator != caller ==> r == Err::<(), Error>(Error::PermissionDenied),
            old(self).campaigns.contains_spec(campaign_id) && old(self).campaigns.get_spec(
                campaign_id,
            ).creator == caller && old(self).campaigns.get_spec(campaign_id).contributions@.len()
                != 0 ==> r == Err::<(), Error>(Error::PreconditionFailed),
            r is Err ==> *final(self) == *old(self),
            r is Ok ==> {
                let c0 = old(self).campaigns.get_spec(campaign_id);
                let c1 = final(self).campaigns.get_spec(campaign_id);
                &&& only_campaigns_changed(*old(self), *final(self))
                &&& final(self).next_campaign_id == old(self).next_campaign_id
                &&& final(self).campaigns.seq() == old(self).campaigns.seq().update(
                    old(self).campaigns.key_index(campaign_id),
                    (campaign_id, c1),
                )
                &&& same_campaign_meta(c0, c1)
                &&& c1.claimed == c0.claimed
                &&& c1.total_contributions == c0.total_contributions
                &&& c1.contributions@ == c0.contributions@
                &&& c1.amount_required == new_goal
            },
    {
        let cidx = match self.campaigns.index_of(campaign_id) {
            None => {
                return Err(Error::NotFound);
            },
            Some(i) => i,
        };
        let c = &self.campaigns.at(cidx).1;
        if c.creator != caller {
            return Err(Error::PermissionDenied);
        }
        if c.contributions.len() != 0 {
            return Err(Error::PreconditionFailed);
        }
        let ghost pre = *self;
        let (ck, mut campaign) = self.campaigns.remove_at(cidx);
        campaign.amount_required = new_goal;
        self.campaigns.insert_at(cidx, ck, campaign);
        proof {
            lemma_remove_insert_is_update(pre.campaigns.seq(), cidx as int, (ck, campaign));
            assert forall|k: u64| self.campaigns.contains_spec(k) implies k
                < self.next_campaign_id by {
                if k != campaign_id {
                    assert(pre.campaigns.contains_spec(k));
                }
            }
        }
        Ok(())
    }

    /// The campaign stored under `campaign_id`.
    pub fn get_campaign(&self, campaign_id: u64) -> (r: &Campaign)
        requires
            self.wf(),
            self.campaigns.contains_spec(campaign_id),
        ensures
            *r == self.campaigns.get_spec(campaign_id),
    {
        self.campaigns.get(campaign_id).unwrap()
    }

    /// Every campaign, oldest first, without its ID.
    pub fn get_all_campaigns_deprecated(&self) -> (r: Vec<&Campaign>)
        ensures
            r@.len() == self.campaigns.seq().len(),
            forall|j: int|
                0 <= j < r@.len() ==> r@[j] == (#[trigger] self.campaigns.seq()[j]).1,
    {
        let n = self.campaigns.len();
        let mut out: Vec<&Campaign> = Vec::new();
        let mut i: usize = 0;
        while i < n
            invariant
                n == self.campaigns.seq().len(),
                i <= n,
                out@.len() == i,
                forall|j: int|
                    0 <= j < i ==> out@[j] == (#[trigger] self.campaigns.seq()[j]).1,
            decreases n - i,
        {
            out.push(&self.campaigns.at(i).1);
            i += 1;
        }
        out
    }

    /// Every campaign, oldest first, with its ID.
    pub fn get_all_the_campaign_deprecated(&self) -> (r: Vec<(u64, &Campaign)>)
        ensures
            r@.len() == self.campaigns.seq().len(),
            forall|j: int|
                0 <= j < r@.len() ==> r@[j].0 == (#[trigger] self.campaigns.seq()[j]).0 && r@[j].1
                    == self.campaigns.seq()[j].1,
    {
        let n = self.campaigns.len();
        let mut out: Vec<(u64, &Campaign)> = Vec::new();
        let mut i: usize = 0;
        while i < n
            invariant
                n == self.campaigns.seq().len(),
                i <= n,
                out@.len() == i,
                forall|j: int|
                    0 <= j < i ==> out@[j].0 == (#[trigger] self.campaigns.seq()[j]).0 && out@[j].1
                        == self.campaigns.seq()[j].1,
            decreases n - i,
        {
            let entry = self.campaigns.at(i);
            out.push((entry.0, &entry.1));
            i += 1;
        }
        out
    }

    /// A page of the campaign list, in insertion order: skips `from_index`
    /// entries, then yields at most `limit`. A negative `from_index` skips
    /// everything; a negative `limit` takes everything that is left.
    pub fn get_all_campaigns(&self, from_index: i32, limit: i32) -> (r: Vec<(u64, &Campaign)>)
        ensures
            from_index < 0 ==> r@.len() == 0,
            from_index >= 0 ==> {
                let s = self.campaigns.seq();
                let start = if from_index as int <= s.len() {
                    from_index as int
                } else {
                    s.len() as int
                };
                let end = if limit < 0 || start + limit as int > s.len() {
                    s.len() as int
                } else {
                    start + limit as int
                };
                &&& r@.len() == end - start
                &&& forall|j: int|
                    0 <= j < r@.len() ==> r@[j].0 == (#[trigger] self.campaigns.seq()[start + j]).0
                        && r@[j].1 == self.campaigns.seq()[start + j].1
            },
    {
        let mut out: Vec<(u64, &Campaign)> = Vec::new();
        if from_index < 0 {
            return out;
        }
        let n = self.campaigns.len();
        let from = from_index as usize;
        let start = if from <= n {
            from
        } else {
            n
        };
        let remaining = n - start;
        let end = if limit < 0 {
            n
        } else if (limit as usize) < remaining {
            start + (limit as usize)
        } else {
            n
        };
        let mut i: usize = start;
        while i < end
            invariant
                n == self.campaigns.seq().len(),
                start <= i <= end <= n,
                out@.len() == i - start,
                forall|j: int|
                    0 <= j < out@.len() ==> out@[j].0 == (#[trigger] self.campaigns.seq()[start
                        + j]).0 && out@[j].1 == self.campaigns.seq()[start + j].1,
            decreases end - i,
        {
            let entry = self.campaigns.at(i);
            out.push((entry.0, &entry.1));
            i += 1;
        }
        out
    }

    /// One line describing where a campaign stands, judged in this order:
    /// claimed, past its deadline, goal reached, still running.
    pub fn get_campaign_status(&self, now: u64, campaign_id: u64) -> (r: String)
        requires
            self.wf(),
            self.campaigns.contains_spec(campaign_id),
        ensures
            ({
                let c = self.campaigns.get_spec(campaign_id);
                if c.claimed {
                    r@ == "Funds claimed"@
                } else if now > c.crowdfunding_end_time {
                    r@ == "Crowdfunding ended"@
                } else if c.total_contributions >= c.amount_required {
                    r@ == "Funding goal reached"@
                } else {
                    r@ == "Crowdfunding active"@
                }
            }),
    {
        let c = self.campaigns.get(campaign_id).unwrap();
        let r;
        if c.claimed {
            r = "Funds claimed".to_string();
            proof {
                vstd::string::to_string_from_display_ensures_for_str("Funds claimed", r);
            }
        } else if now > c.crowdfunding_end_time {
            r = "Crowdfunding ended".to_string();
            proof {
                vstd::string::to_string_from_display_ensures_for_str("Crowdfunding ended", r);
            }
        } else if c.total_contributions >= c.amount_required {
            r = "Funding goal reached".to_string();
            proof {
                vstd::string::to_string_from_display_ensures_for_str("Funding goal reached", r);
            }
        } else {
            r = "Crowdfunding active".to_string();
            proof {
                vstd::string::to_string_from_display_ensures_for_str("Crowdfunding active", r);
            }
        }
        r
    }

    /// The recorded pledges of one campaign, oldest first.
    pub fn get_campaign_contributions(&self, campaign_id: u64) -> (r: Vec<Contribution>)
        requires
            self.wf(),
            self.campaigns.contains_spec(campaign_id),
        ensures
            r@ == self.campaigns.get_spec(campaign_id).contributions@,
    {
        let c = self.campaigns.get(campaign_id).unwrap();
        let n = c.contributions.len();
        let mut out: Vec<Contribution> = Vec::new();
        let mut i: usize = 0;
        while i < n
            invariant
                n == c.contributions@.len(),
                i <= n,
                out@ == c.contributions@.take(i as int),
            decreases n - i,
        {
            out.push(c.contributions[i]);
            proof {
                assert(out@ =~= c.contributions@.take(i + 1 as int));
            }
            i += 1;
        }
        proof {
            assert(out@ =~= c.contributions@);
        }
        out
    }
}

/// What one pledge list contributes to a user's total: the sum of the
/// amounts pledged by that user.
pub open spec fn user_amount_in(c: Seq<Contribution>, user: u64) -> int
    decreases c.len(),
{
    if c.len() == 0 {
        0
    } else {
        user_amount_in(c.drop_last(), user) + if c.last().contributor == user {
            c.last().amount as int
        } else {
            0
        }
    }
}

/// A user's pledges across every campaign still on the ledger.
pub open spec fn user_total(s: Seq<(u64, Campaign)>, user: u64) -> int
    decreases s.len(),
{
    if s.len() == 0 {
        0
    } else {
        user_total(s.drop_last(), user) + user_amount_in(s.last().1.contributions@, user)
    }
}

pub proof fn lemma_user_amount_in_nonneg(c: Seq<Contribution>, user: u64)
    ensures
        user_amount_in(c, user) >= 0,
    decreases c.len(),
{
    if c.len() > 0 {
        lemma_user_amount_in_nonneg(c.drop_last(), user);
    }
}

pub proof fn lemma_user_total_nonneg(s: Seq<(u64, Campaign)>, user: u64)
    ensures
        user_total(s, user) >= 0,
    decreases s.len(),
{
    if s.len() > 0 {
        lemma_user_total_nonneg(s.drop_last(), user);
        lemma_user_amount_in_nonneg(s.last().1.contributions@, user);
    }
}

/// A prefix of a pledge list never sums to more than the whole list.
pub proof fn lemma_user_amount_in_prefix(c: Seq<Contribution>, user: u64, i: int)
    requires
        0 <= i <= c.len(),
    ensures
        user_amount_in(c.take(i), user) <= user_amount_in(c, user),
    decreases c.len() - i,
{
    if i < c.len() {
        assert(c.take(i + 1).drop_last() =~= c.take(i));
        assert(c.take(i + 1).last() == c[i]);
        lemma_user_amount_in_prefix(c, user, i + 1);
    } else {
        assert(c.take(i) =~= c);
    }
}

/// A prefix of the campaign list never sums to more than the whole list.
pub proof fn lemma_user_total_prefix(s: Seq<(u64, Campaign)>, user: u64, i: int)
    requires
        0 <= i <= s.len(),
    ensures
        user_total(s.take(i), user) <= user_total(s, user),
    decreases s.len() - i,
{
    if i < s.len() {
        assert(s.take(i + 1).drop_last() =~= s.take(i));
        assert(s.take(i + 1).last() == s[i]);
        lemma_user_amount_in_nonneg(s[i].1.contributions@, user);
        lemma_user_total_prefix(s, user, i + 1);
    } else {
        assert(s.take(i) =~= s);
    }
}

impl Contract {
    /// The sum of every pledge `user_id` made, across all campaigns still
    /// on the ledger.
    pub fn get_user_total_contributions(&self, user_id: u64) -> (r: u64)
        requires
            self.wf(),
            user_total(self.campaigns.seq(), user_id) <= u64::MAX,
        ensures
            r == user_total(self.campaigns.seq(), user_id),
    {
        let ghost s = self.campaigns.seq();
        let n = self.campaigns.len();
        let mut acc: u64 = 0;
        let mut i: usize = 0;
        while i < n
            invariant
                self.wf(),
                s == self.campaigns.seq(),
                user_total(s, user_id) <= u64::MAX,
                n == s.len(),
                i <= n,
                acc == user_total(s.take(i as int), user_id),
            decreases n - i,
        {
            let c = &self.campaigns.at(i).1;
            let ghost cs = c.contributions@;
            let m = c.contributions.len();
            let mut j: usize = 0;
            while j < m
                invariant
                    self.wf(),
                    s == self.campaigns.seq(),
                    user_total(s, user_id) <= u64::MAX,
                    n == s.len(),
                    i < n,
                    s[i as int].1 == *c,
                    cs == c.contributions@,
                    m == cs.len(),
                    j <= m,
                    acc == user_total(s.take(i as int), user_id) + user_amount_in(
                        cs.take(j as int),
                        user_id,
                    ),
                decreases m - j,
            {
                let entry = c.contributions[j];
                proof {
                    assert(cs.take(j + 1).drop_last() =~= cs.take(j as int));
                    assert(cs.take(j + 1).last() == cs[j as int]);
                    assert(s.take(i + 1).drop_last() =~= s.take(i as int));
                    assert(s.take(i + 1).last() == s[i as int]);
                    lemma_user_amount_in_prefix(cs, user_id, j + 1);
                    lemma_user_total_prefix(s, user_id, i + 1);
                    lemma_user_total_nonneg(s.take(i as int), user_id);
                    lemma_user_amount_in_nonneg(cs.take(j as int), user_id);
                }
                if entry.contributor == user_id {
                    acc = acc + entry.amount;
                }
                j += 1;
            }
            proof {
                assert(cs.take(m as int) =~= cs);
                assert(s.take(i + 1).drop_last() =~= s.take(i as int));
                assert(s.take(i + 1).last() == s[i as int]);
            }
            i += 1;
        }
        proof {
            assert(s.take(n as int) =~= s);
        }
        acc
    }

    /// The sum of `user_id`'s pledges to one campaign.
    pub fn get_user_contribution_to_campaign(&self, campaign_id: u64, user_id: u64) -> (r: Result<
        u64,
        Error,
    >)
        requires
            self.wf(),
            self.campaigns.contains_spec(campaign_id) ==> user_amount_in(
                self.campaigns.get_spec(campaign_id).contributions@,
                user_id,
            ) <= u64::MAX,
        ensures
            r is Ok <==> self.campaigns.contains_spec(campaign_id),
            !self.campaigns.contains_spec(campaign_id) ==> r == Err::<u64, Error>(Error::NotFound),
            r is Ok ==> r == Ok::<u64, Error>(
                user_amount_in(self.campaigns.get_spec(campaign_id).contributions@, user_id) as u64,
            ),
    {
        let c = match self.campaigns.get(campaign_id) {
            None => {
                return Err(Error::NotFound);
            },
            Some(c) => c,
        };
        let ghost cs = c.contributions@;
        let m = c.contributions.len();
        let mut acc: u64 = 0;
        let mut j: usize = 0;
        while j < m
            invariant
                user_amount_in(cs, user_id) <= u64::MAX,
                cs == c.contributions@,
                m == cs.len(),
                j <= m,
                acc == user_amount_in(cs.take(j as int), user_id),
            decreases m - j,
        {
            let entry = c.contributions[j];
            proof {
                assert(cs.take(j + 1).drop_last() =~= cs.take(j as int));
                assert(cs.take(j + 1).last() == cs[j as int]);
                lemma_user_amount_in_prefix(cs, user_id, j + 1);
                lemma_user_amount_in_nonneg(cs.take(j as int), user_id);
            }
            if entry.contributor == user_id {
                acc = acc + entry.amount;
            }
            j += 1;
        }
        proof {
            assert(cs.take(m as int) =~= cs);
        }
        Ok(acc)
    }
}

} // verus!
