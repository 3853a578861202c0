use vstd::prelude::*;

use crate::id::Id;

verus! {

/// A record of a unique digital asset: its identifier and its current owner,
/// if any. Ownership changes only through `set_user`, which the auction calls
/// when a winner claims the lot.
#[derive(Debug)]
pub struct NFT {
    uid: Id,
    user_id: Option<Id>,
}

impl NFT {
    /// The asset's identifier.
    pub closed spec fn spec_uid(self) -> Id {
        self.uid
    }

    /// The current owner's identifier, if one has been set.
    pub closed spec fn spec_owner(self) -> Option<Id> {
        self.user_id
    }

    /// Mint a record with a fresh identifier and no owner.
    pub fn new() -> (r: NFT)
        ensures
            r.spec_owner() is None,
    {
        NFT { uid: Id::new(), user_id: None }
    }

    /// Hand the asset to the given holder.
    pub fn set_user(&mut self, id: Id)
        ensures
            final(self).spec_uid() == old(self).spec_uid(),
            final(self).spec_owner() == Some(id),
    {
        self.user_id = Some(id);
    }

    /// The asset's identifier.
    pub fn get_uid(&self) -> (r: Id)
        ensures
            r == self.spec_uid(),
    {
        self.uid
    }

    /// The current owner's identifier, if one has been set.
    pub fn get_user_uid(&self) -> (r: Option<Id>)
        ensures
            r == self.spec_owner(),
    {
        self.user_id
    }
}

} // verus!
