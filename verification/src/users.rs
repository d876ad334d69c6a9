//! The user directory: profile records and the privileged KYC operations.

use vstd::prelude::*;

use crate::keyed::lemma_remove_insert_is_update;
use crate::types::Contract;
use crate::types::Error;
use crate::types::UserProfile;
use crate::types::only_users_changed;

verus! {

/// A just-created profile: the given name and bio, KYC unset, empty lists.
pub open spec fn is_fresh_profile(p: UserProfile, username: String, bio: Option<String>) -> bool {
    &&& p.username == username
    &&& p.bio == bio
    &&& !p.kyc_verified
    &&& p.contributions@ == Seq::<u64>::empty()
    &&& p.created_campaigns@ == Seq::<u64>::empty()
}

/// How a successful `create_profile` changes the state: a fresh profile is
/// appended under the caller's identity, and nothing else moves.
pub open spec fn create_profile_post(
    pre: Contract,
    post: Contract,
    caller: u64,
    username: String,
    bio: Option<String>,
) -> bool {
    &&& only_users_changed(pre, post)
    &&& post.users.seq() == pre.users.seq().push((caller, post.users.get_spec(caller)))
    &&& is_fresh_profile(post.users.get_spec(caller), username, bio)
    &&& post.users.contains_spec(caller)
    &&& forall|k: u64| k != caller ==> post.users.contains_spec(k) == pre.users.contains_spec(k)
    &&& forall|k: u64|
        k != caller && pre.users.contains_spec(k) ==> post.users.get_spec(k) == pre.users.get_spec(
            k,
        )
}

impl Contract {
    /// Creates the caller's profile; at most one profile per identity.
    pub fn create_profile(&mut self, caller: u64, username: String, bio: Option<String>) -> (r:
        Result<(), Error>)
        requires
            old(self).wf(),
        ensures
            final(self).wf(),
            r is Ok <==> !old(self).users.contains_spec(caller),
            r is Err ==> r == Err::<(), Error>(Error::AlreadyExists) && *final(self) == *old(self),
            r is Ok ==> create_profile_post(*old(self), *final(self), caller, username, bio),
    {
        if self.users.contains_key(caller) {
            return Err(Error::AlreadyExists);
        }
        let profile = UserProfile {
            username,
            bio,
            kyc_verified: false,
            contributions: Vec::new(),
            created_campaigns: Vec::new(),
        };
        proof {
            assert(profile.contributions@ =~= Seq::<u64>::empty());
            assert(profile.created_campaigns@ =~= Seq::<u64>::empty());
        }
        self.users.push_new(caller, profile);
        Ok(())
    }

    /// Overwrites the caller's bio; the rest of the profile stays.
    pub fn update_profile(&mut self, caller: u64, new_bio: Option<String>) -> (r: Result<
        (),
        Error,
    >)
        requires
            old(self).wf(),
        ensures
            final(self).wf(),
            r is Ok <==> old(self).users.contains_spec(caller),
            r is Err ==> r == Err::<(), Error>(Error::NotFound) && *final(self) == *old(self),
            r is Ok ==> {
                let p0 = old(self).users.get_spec(caller);
                let p1 = final(self).users.get_spec(caller);
                &&& only_users_changed(*old(self), *final(self))
                &&& final(self).users.seq() == old(self).users.seq().update(
                    old(self).users.key_index(caller),
                    (caller, p1),
                )
                &&& p1.username == p0.username
                &&& p1.bio == new_bio
                &&& p1.kyc_verified == p0.kyc_verified
                &&& p1.contributions@ == p0.contributions@
                &&& p1.created_campaigns@ == p0.created_campaigns@
                &&& final(self).users.contains_spec(caller)
                &&& forall|k: u64|
                    final(self).users.contains_spec(k) == old(self).users.contains_spec(k)
                &&& forall|k: u64|
                    k != caller && old(self).users.contains_spec(k) ==> final(self).users.get_spec(k) == old(self).users.get_spec(k)
            },
    {
        let uidx = match self.users.index_of(caller) {
            None => {
                return Err(Error::NotFound);
            },
            Some(i) => i,
        };
        let ghost pre = *self;
        let (uk, mut profile) = self.users.remove_at(uidx);
        profile.bio = new_bio;
        self.users.insert_at(uidx, uk, profile);
        proof {
            lemma_remove_insert_is_update(pre.users.seq(), uidx as int, (uk, profile));
        }
        Ok(())
    }

    /// Marks a user KYC-verified. Privileged: only the ledger's own account
    /// may call it; there is no way back to unverified.
    pub fn verify_kyc(&mut self, caller: u64, contract_account: u64, user_id: u64) -> (r: Result<
        (),
        Error,
    >)
        requires
            old(self).wf(),
        ensures
            final(self).wf(),
            r is Ok <==> (caller == contract_account && old(self).users.contains_spec(user_id)),
            caller != contract_account ==> r == Err::<(), Error>(Error::PermissionDenied),
            caller == contract_account && !old(self).users.contains_spec(user_id) ==> r == Err::<
                (),
                Error,
            >(Error::NotFound),
            r is Err ==> *final(self) == *old(self),
            r is Ok ==> {
                let p0 = old(self).users.get_spec(user_id);
                let p1 = final(self).users.get_spec(user_id);
                &&& only_users_changed(*old(self), *final(self))
                &&& final(self).users.seq() == old(self).users.seq().update(
                    old(self).users.key_index(user_id),
                    (user_id, p1),
                )
                &&& p1.username == p0.username
                &&& p1.bio == p0.bio
                &&& p1.kyc_verified
                &&& p1.contributions@ == p0.contributions@
                &&& p1.created_campaigns@ == p0.created_campaigns@
                &&& final(self).users.contains_spec(user_id)
                &&& forall|k: u64|
                    final(self).users.contains_spec(k) == old(self).users.contains_spec(k)
                &&& forall|k: u64|
                    k != user_id && old(self).users.contains_spec(k) ==> final(self).users.get_spec(k) == old(self).users.get_spec(k)
            },
    {
        if caller != contract_account {
            return Err(Error::PermissionDenied);
        }
        let uidx = match self.users.index_of(user_id) {
            None => {
                return Err(Error::NotFound);
            },
            Some(i) => i,
        };
        let ghost pre = *self;
        let (uk, mut profile) = self.users.remove_at(uidx);
        profile.kyc_verified = true;
        self.users.insert_at(uidx, uk, profile);
        proof {
            lemma_remove_insert_is_update(pre.users.seq(), uidx as int, (uk, profile));
        }
        Ok(())
    }

    /// Deletes a profile. Privileged: only the ledger's own account may call
    /// it; deleting an absent profile is a no-op. References to the identity
    /// elsewhere on the ledger are left dangling on purpose.
    pub fn remove_profile(&mut self, caller: u64, contract_account: u64, user_id: u64) -> (r:
        Result<(), Error>)
        requires
            old(self).wf(),
        ensures
            final(self).wf(),
            r is Ok <==> caller == contract_account,
            r is Err ==> r == Err::<(), Error>(Error::PermissionDenied) && *final(self) == *old(self),
            r is Ok ==> {
                &&& only_users_changed(*old(self), *final(self))
                &&& !final(self).users.contains_spec(user_id)
                &&& (!old(self).users.contains_spec(user_id) ==> final(self).users.seq() == old(
                    self,
                ).users.seq())
                &&& (old(self).users.contains_spec(user_id) ==> final(self).users.seq() == old(
                    self,
                ).users.seq().remove(old(self).users.key_index(user_id)))
                &&& forall|k2: u64|
                    k2 != user_id ==> final(self).users.contains_spec(k2) == old(
                        self,
                    ).users.contains_spec(k2)
                &&& forall|k2: u64|
                    k2 != user_id && old(self).users.contains_spec(k2) ==> final(self).users.get_spec(k2) == old(self).users.get_spec(k2)
            },
    {
        if caller != contract_account {
            return Err(Error::PermissionDenied);
        }
        match self.users.index_of(user_id) {
            None => Ok(()),
            Some(uidx) => {
                let _ = self.users.remove_at(uidx);
                Ok(())
            },
        }
    }

    /// The profile stored under `user_id`.
    pub fn get_user_profile(&self, user_id: u64) -> (r: &UserProfile)
        requires
            self.wf(),
            self.users.contains_spec(user_id),
        ensures
            *r == self.users.get_spec(user_id),
    {
        self.users.get(user_id).unwrap()
    }

    /// Whether the caller already has a profile.
    pub fn do_i_exists(&self, caller: u64) -> (r: bool)
        requires
            self.wf(),
        ensures
            r == self.users.contains_spec(caller),
    {
        self.users.contains_key(caller)
    }

    /// Whether the given identity has a profile.
    pub fn user_exists(&self, account_id: u64) -> (r: bool)
        requires
            self.wf(),
        ensures
            r == self.users.contains_spec(account_id),
    {
        self.users.contains_key(account_id)
    }
}

} // verus!
