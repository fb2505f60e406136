//! The persisted document types.

use vstd::prelude::*;
use crate::forms::UserRole;

verus! {

/// A stored user record.  The identifier is assigned by the store on
/// creation; `password` always holds ciphertext once persisted; `created`
/// and `modified` are epoch seconds.
#[derive(Debug)]
pub struct BaseUser {
    pub id: Option<u64>,
    pub password: String,
    pub role: UserRole,
    pub created: i64,
    pub modified: i64,
}

impl Clone for BaseUser {
    fn clone(&self) -> (r: Self)
        ensures
            r == *self,
    {
        BaseUser {
            id: self.id,
            password: self.password.clone(),
            role: self.role,
            created: self.created,
            modified: self.modified,
        }
    }
}

} // verus!
