//! The compliance registry: the verified and banned identity sets.

use vstd::prelude::*;

use crate::types::Contract;
use crate::types::Error;
use crate::types::only_banned_changed;
use crate::types::only_verified_changed;

verus! {

impl Contract {
    /// Adds a user to the verified set, unless they are banned. Verifying
    /// an already-verified user is a no-op.
    pub fn verify_user(&mut self, user: u64) -> (r: Result<(), Error>)
        requires
            old(self).wf(),
        ensures
            final(self).wf(),
            r is Ok <==> !old(self).banned_users.contains_spec(user),
            r is Err ==> r == Err::<(), Error>(Error::PermissionDenied) && *final(self) == *old(self),
            r is Ok ==> {
                &&& only_verified_changed(*old(self), *final(self))
                &&& final(self).verified_users.contains_spec(user)
                &&& forall|y: u64|
                    y != user ==> final(self).verified_users.contains_spec(y) == old(
                        self,
                    ).verified_users.contains_spec(y)
                &&& (old(self).verified_users.contains_spec(user) ==> final(self).verified_users.seq() == old(self).verified_users.seq())
                &&& (!old(self).verified_users.contains_spec(user) ==> final(self).verified_users.seq() == old(self).verified_users.seq().push(user))
            },
    {
        if self.banned_users.contains(user) {
            return Err(Error::PermissionDenied);
        }
        self.verified_users.insert(user);
        Ok(())
    }

    /// Removes a user from the banned set, unconditionally; removing an
    /// unbanned user is a no-op.
    pub fn unban_user(&mut self, user: u64)
        requires
            old(self).wf(),
        ensures
            final(self).wf(),
            only_banned_changed(*old(self), *final(self)),
            !final(self).banned_users.contains_spec(user),
            forall|y: u64|
                y != user ==> final(self).banned_users.contains_spec(y) == old(
                    self,
                ).banned_users.contains_spec(y),
    {
        self.banned_users.remove(user);
    }
}

} // verus!
