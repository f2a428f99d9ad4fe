//! The authorized-user set: the shared set of submitter identities,
//! mutated on a first successful password match. Loading and saving it is
//! flat-file work outside this crate.

use vstd::prelude::*;

use std::collections::HashSet;

verus! {

broadcast use vstd::std_specs::hash::group_hash_axioms;

/// The set of authorized submitter identities, as it is persisted.
pub struct AuthorizedUsersData {
    pub users: HashSet<u64>,
}

impl AuthorizedUsersData {
    pub fn new() -> (r: Self)
        ensures
            r.users@ == Set::<u64>::empty(),
    {
        AuthorizedUsersData { users: HashSet::new() }
    }

    /// Wraps a set of submitter identities for persistence.
    pub fn from_user_ids(user_ids: HashSet<u64>) -> (r: Self)
        ensures
            r.users@ == user_ids@,
    {
        AuthorizedUsersData { users: user_ids }
    }

    /// Hands the persisted set back as submitter identities.
    pub fn to_user_ids(self) -> (r: HashSet<u64>)
        ensures
            r@ == self.users@,
    {
        self.users
    }

    /// Whether a submitter is authorized.
    pub fn contains(&self, user_id: u64) -> (r: bool)
        ensures
            r == self.users@.contains(user_id),
    {
        self.users.contains(&user_id)
    }

    /// Authorizes a submitter; every other member stays.
    pub fn insert(&mut self, user_id: u64)
        ensures
            final(self).users@ == old(self).users@.insert(user_id),
    {
        self.users.insert(user_id);
    }
}

} // verus!
