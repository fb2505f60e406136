//! The document repository: a collection-scoped CRUD facade over the user
//! collection, with an optional unique index on the ciphertext password
//! field.
//!
//! The repository surfaces store-level failures unmodified as `StoreError`
//! and does not interpret them; the user store maps them to domain errors.
//! The load-bearing case is the duplicate-key write failure raised when the
//! unique index rejects a second document with the same ciphertext.

use vstd::prelude::*;
use crate::mongo_models::BaseUser;

verus! {

/// The store-level code that marks a unique-index (duplicate key) write
/// failure.
pub const DUPLICATE_KEY_CODE: u32 = 11000;

/// A store-level failure, passed through to callers unmodified.
#[derive(Debug)]
pub enum StoreError {
    /// A write was rejected; `code` distinguishes a duplicate-key rejection
    /// from other write failures.
    Write { code: u32, message: String },
    /// Any other store failure.
    Other { message: String },
}

/// The domain-level error taxonomy built by the user store.
#[derive(Debug)]
pub enum MongoRepoError {
    PasswordExistsError(String),
    DatabaseUrlError(String),
    WriteError(String),
    UnexpectedError(String),
    NotFoundError(String),
}

/// A partial update, as a `$set`-style update document carries it: each
/// set field replaces the stored one, the rest are left alone.
pub struct UserUpdate {
    pub password: Option<String>,
    pub role: Option<crate::forms::UserRole>,
    pub modified: Option<i64>,
}

/// The document that results from applying a partial update.
pub open spec fn apply_update(doc: BaseUser, up: UserUpdate) -> BaseUser {
    BaseUser {
        id: doc.id,
        password: if up.password is Some {
            up.password.unwrap()
        } else {
            doc.password
        },
        role: if up.role is Some {
            up.role.unwrap()
        } else {
            doc.role
        },
        created: doc.created,
        modified: if up.modified is Some {
            up.modified.unwrap()
        } else {
            doc.modified
        },
    }
}

/// No two documents hold the same ciphertext password.
pub open spec fn passwords_unique(docs: Seq<BaseUser>) -> bool {
    forall|i: int, j: int|
        0 <= i < j < docs.len() ==> docs[i].password@ != docs[j].password@
}

/// Some document holds the ciphertext `c`.
pub open spec fn has_password(docs: Seq<BaseUser>, c: Seq<char>) -> bool {
    exists|i: int| 0 <= i < docs.len() && docs[i].password@ == c
}

/// Some document carries the identifier `id`.
pub open spec fn has_id(docs: Seq<BaseUser>, id: u64) -> bool {
    exists|i: int| 0 <= i < docs.len() && docs[i].id == Some(id)
}

/// The user collection, bound to a named collection inside a named database
/// at construction.  Documents are kept in insertion order; identifiers are
/// assigned from a counter on creation.
pub struct MongoRepo {
    db_name: String,
    col_name: String,
    docs: Vec<BaseUser>,
    next_id: u64,
    unique_index_on_password: bool,
}

impl MongoRepo {
    /// The database the repository was bound to.
    pub closed spec fn spec_db_name(&self) -> Seq<char> {
        self.db_name@
    }

    /// The collection the repository was bound to.
    pub closed spec fn spec_col_name(&self) -> Seq<char> {
        self.col_name@
    }

    /// The stored documents, in insertion order.
    pub closed spec fn spec_docs(&self) -> Seq<BaseUser> {
        self.docs@
    }

    /// The next identifier the store will assign.
    pub closed spec fn spec_next_id(&self) -> u64 {
        self.next_id
    }

    /// Whether the unique index on the password field has been asserted.
    pub closed spec fn spec_index_on(&self) -> bool {
        self.unique_index_on_password
    }

    /// Every identifier is assigned, below the counter, and unique; under
    /// the unique index no ciphertext occurs twice.
    pub open spec fn wf(&self) -> bool {
        &&& forall|i: int|
            0 <= i < self.spec_docs().len() ==> (#[trigger] self.spec_docs()[i].id) is Some
                && self.spec_docs()[i].id.unwrap() < self.spec_next_id()
        &&& forall|i: int, j: int|
            0 <= i < j < self.spec_docs().len() ==> (#[trigger] self.spec_docs()[i].id)
                != (#[trigger] self.spec_docs()[j].id)
        &&& self.spec_index_on() ==> passwords_unique(self.spec_docs())
    }

    /// Binds a fresh, empty repository to the named collection.
    pub fn new(db_name: &str, col_name: &str) -> (r: Self)
        ensures
            r.spec_db_name() == db_name@,
            r.spec_col_name() == col_name@,
            r.spec_docs().len() == 0,
            r.spec_next_id() == 0,
            !r.spec_index_on(),
            r.wf(),
    {
        MongoRepo {
            db_name: db_name.to_owned(),
            col_name: col_name.to_owned(),
            docs: Vec::new(),
            next_id: 0,
            unique_index_on_password: false,
        }
    }

    /// Inserts a document and returns the identifier the store assigned.
    /// Under the unique index, a duplicate ciphertext is rejected with a
    /// duplicate-key write error and the collection is left unchanged.
    pub fn create(&mut self, item: BaseUser) -> (r: Result<u64, StoreError>)
        requires
            old(self).wf(),
            old(self).spec_next_id() < u64::MAX,
            item.id is None,
        ensures
            final(self).wf(),
            final(self).spec_index_on() == old(self).spec_index_on(),
            old(self).spec_index_on() && has_password(old(self).spec_docs(), item.password@)
                ==> (r matches Err(StoreError::Write { code, .. }) && code == DUPLICATE_KEY_CODE
                    && final(self).spec_docs() == old(self).spec_docs()
                    && final(self).spec_next_id() == old(self).spec_next_id()),
            !(old(self).spec_index_on() && has_password(old(self).spec_docs(), item.password@))
                ==> (r matches Ok(id) && id == old(self).spec_next_id()
                    && final(self).spec_docs() == old(self).spec_docs().push(
                        BaseUser { id: Some(old(self).spec_next_id()), ..item }
                    )
                    && final(self).spec_next_id() == old(self).spec_next_id() + 1),
    {
        if self.unique_index_on_password {
            let n = self.docs.len();
            let mut i: usize = 0;
            while i < n
                invariant
                    *self == *old(self),
                    old(self).wf(),
                    self.unique_index_on_password,
                    i <= n,
                    n == self.docs@.len(),
                    forall|j: int| 0 <= j < i ==> self.docs@[j].password@ != item.password@,
                decreases n - i,
            {
                if self.docs[i].password == item.password {
                    proof {
                        assert(has_password(self.docs@, item.password@)) by {
                            assert(0 <= i < self.docs@.len() && self.docs@[i as int].password@
                                == item.password@);
                        }
                    }
                    return Err(StoreError::Write {
                        code: DUPLICATE_KEY_CODE,
                        message: item.password,
                    });
                }
                i = i + 1;
            }
        }
        let id = self.next_id;
        let stored = BaseUser { id: Some(id), ..item };
        self.docs.push(stored);
        self.next_id = id + 1;
        Ok(id)
    }

    /// Looks a document up by its identifier.
    pub fn get_by_id(&self, id: u64) -> (r: Result<Option<BaseUser>, StoreError>)
        ensures
            r is Ok,
            r.unwrap() is Some <==> has_id(self.spec_docs(), id),
            r.unwrap() matches Some(u) ==> u.id == Some(id) && exists|i: int|
                0 <= i < self.spec_docs().len() && #[trigger] self.spec_docs()[i] == u,
    {
        let n = self.docs.len();
        let mut i: usize = 0;
        while i < n
            invariant
                i <= n,
                n == self.docs@.len(),
                forall|j: int| 0 <= j < i ==> (#[trigger] self.docs@[j].id) != Some(id),
            decreases n - i,
        {
            match self.docs[i].id {
                Some(found) => {
                    if found == id {
                        return Ok(Some(self.docs[i].clone()));
                    }
                },
                None => {},
            }
            i = i + 1;
        }
        Ok(None)
    }

    /// Looks a document up by exact ciphertext match on the password field —
    /// the one filter this system uses.  Returns the first match in
    /// insertion order.
    pub fn find_one(&self, password: &String) -> (r: Result<Option<BaseUser>, StoreError>)
        ensures
            r is Ok,
            r.unwrap() is Some <==> has_password(self.spec_docs(), password@),
            r.unwrap() matches Some(u) ==> u.password@ == password@ && exists|i: int|
                0 <= i < self.spec_docs().len() && #[trigger] self.spec_docs()[i] == u,
    {
        let n = self.docs.len();
        let mut i: usize = 0;
        while i < n
            invariant
                i <= n,
                n == self.docs@.len(),
                forall|j: int| 0 <= j < i ==> (#[trigger] self.docs@[j].password@) != password@,
            decreases n - i,
        {
            if self.docs[i].password == *password {
                return Ok(Some(self.docs[i].clone()));
            }
            i = i + 1;
        }
        Ok(None)
    }

    /// Updates the document with the given identifier, applying the set
    /// fields of the update; reports whether a document was modified.
    /// Under the unique index, an update that would duplicate another
    /// document's ciphertext is rejected with a duplicate-key write error.
    pub fn update_by_id(&mut self, id: u64, update: UserUpdate) -> (r: Result<bool, StoreError>)
        requires
            old(self).wf(),
        ensures
            final(self).wf(),
            final(self).spec_next_id() == old(self).spec_next_id(),
            final(self).spec_index_on() == old(self).spec_index_on(),
            !has_id(old(self).spec_docs(), id) ==> (r matches Ok(b) && b == false)
                && final(self).spec_docs() == old(self).spec_docs(),
            has_id(old(self).spec_docs(), id) ==> exists|i: int|
                0 <= i < old(self).spec_docs().len() && (#[trigger] old(self).spec_docs()[i].id)
                    == Some(id) && ({
                    let updated = apply_update(old(self).spec_docs()[i], update);
                    let dup = old(self).spec_index_on() && exists|j: int|
                        0 <= j < old(self).spec_docs().len() && j != i
                            && (#[trigger] old(self).spec_docs()[j].password@) == updated.password@;
                    &&& dup ==> (r matches Err(StoreError::Write { code, .. }) && code
                        == DUPLICATE_KEY_CODE) && final(self).spec_docs() == old(self).spec_docs()
                    &&& !dup ==> (r matches Ok(b) && b == true)
                        && final(self).spec_docs() == old(self).spec_docs().update(i, updated)
                }),
    {
        let n = self.docs.len();
        let mut i: usize = 0;
        while i < n
            invariant
                *self == *old(self),
                old(self).wf(),
                i <= n,
                n == self.docs@.len(),
                forall|k: int| 0 <= k < i ==> (#[trigger] self.docs@[k].id) != Some(id),
            decreases n - i,
        {
            let found = match self.docs[i].id {
                Some(found) => found == id,
                None => false,
            };
            if found {
                let new_password = match update.password {
                    Some(p) => p,
                    None => self.docs[i].password.clone(),
                };
                let new_role = match update.role {
                    Some(role) => role,
                    None => self.docs[i].role,
                };
                let new_modified = match update.modified {
                    Some(m) => m,
                    None => self.docs[i].modified,
                };
                if self.unique_index_on_password {
                    let mut j: usize = 0;
                    while j < n
                        invariant
                            *self == *old(self),
                            old(self).wf(),
                            self.unique_index_on_password,
                            i < n,
                            j <= n,
                            n == self.docs@.len(),
                            self.docs@[i as int].id == Some(id),
                            new_password@ == apply_update(
                                self.docs@[i as int],
                                update,
                            ).password@,
                            forall|k: int|
                                0 <= k < j && k != i ==> (#[trigger] self.docs@[k].password@)
                                    != new_password@,
                        decreases n - j,
                    {
                        if j != i && self.docs[j].password == new_password {
                            proof {
                                assert(has_id(self.docs@, id)) by {
                                    assert(self.docs@[i as int].id == Some(id));
                                }
                            }
                            return Err(StoreError::Write {
                                code: DUPLICATE_KEY_CODE,
                                message: new_password,
                            });
                        }
                        j = j + 1;
                    }
                }
                let updated = BaseUser {
                    id: self.docs[i].id,
                    password: new_password,
                    role: new_role,
                    created: self.docs[i].created,
                    modified: new_modified,
                };
                let ghost pre = self.docs@;
                let slot = &mut self.docs[i];
                *slot = updated;
                proof {
                    assert(has_id(pre, id)) by {
                        assert(pre[i as int].id == Some(id));
                    }
                    assert(self.docs@ =~= pre.update(
                        i as int,
                        apply_update(pre[i as int], update),
                    ));
                }
                return Ok(true);
            }
            i = i + 1;
        }
        Ok(false)
    }

    /// Deletes the document with the given identifier; reports whether a
    /// document was removed.
    pub fn delete_by_id(&mut self, id: u64) -> (r: Result<bool, StoreError>)
        requires
            old(self).wf(),
        ensures
            final(self).wf(),
            r is Ok,
            r.unwrap() == has_id(old(self).spec_docs(), id),
            final(self).spec_next_id() == old(self).spec_next_id(),
            final(self).spec_index_on() == old(self).spec_index_on(),
            has_id(old(self).spec_docs(), id) ==> exists|i: int|
                0 <= i < old(self).spec_docs().len()
                    && (#[trigger] old(self).spec_docs()[i].id) == Some(id)
                    && final(self).spec_docs() == old(self).spec_docs().remove(i),
            !has_id(old(self).spec_docs(), id) ==> final(self).spec_docs() == old(
                self,
            ).spec_docs(),
    {
        let n = self.docs.len();
        let mut i: usize = 0;
        while i < n
            invariant
                *self == *old(self),
                old(self).wf(),
                i <= n,
                n == self.docs@.len(),
                forall|j: int| 0 <= j < i ==> (#[trigger] self.docs@[j].id) != Some(id),
            decreases n - i,
        {
            match self.docs[i].id {
                Some(found) => {
                    if found == id {
                        let ghost pre = self.docs@;
                        self.docs.remove(i);
                        proof {
                            pre.remove_ensures(i as int);
                            assert(has_id(pre, id)) by {
                                assert(0 <= i < pre.len() && pre[i as int].id == Some(id));
                            }
                        }
                        return Ok(true);
                    }
                },
                None => {},
            }
            i = i + 1;
        }
        Ok(false)
    }

    /// (Re-)asserts the unique index on the password field.  Idempotent;
    /// fails if the collection already holds a duplicate ciphertext, and is
    /// then left unchanged.
    pub fn create_unique_index(&mut self) -> (r: Result<(), StoreError>)
        requires
            old(self).wf(),
        ensures
            final(self).wf(),
            final(self).spec_db_name() == old(self).spec_db_name(),
            final(self).spec_col_name() == old(self).spec_col_name(),
            r is Ok <==> passwords_unique(old(self).spec_docs()),
            final(self).spec_docs() == old(self).spec_docs(),
            final(self).spec_next_id() == old(self).spec_next_id(),
            r is Ok ==> final(self).spec_index_on(),
            r is Err ==> final(self).spec_index_on() == old(self).spec_index_on(),
    {
        if self.unique_index_on_password {
            return Ok(());
        }
        let n = self.docs.len();
        let mut i: usize = 0;
        while i < n
            invariant
                *self == *old(self),
                old(self).wf(),
                i <= n,
                n == self.docs@.len(),
                forall|a: int, b: int|
                    0 <= a < b < self.docs@.len() && a < i ==> self.docs@[a].password@
                        != self.docs@[b].password@,
            decreases n - i,
        {
            let mut j: usize = i + 1;
            while j < n
                invariant
                    *self == *old(self),
                    old(self).wf(),
                    i < j <= n,
                    n == self.docs@.len(),
                    forall|b: int| i < b < j ==> self.docs@[i as int].password@
                        != self.docs@[b].password@,
                decreases n - j,
            {
                if self.docs[i].password == self.docs[j].password {
                    proof {
                        assert(!passwords_unique(self.docs@)) by {
                            assert(0 <= i < j < self.docs@.len()
                                && self.docs@[i as int].password@ == self.docs@[j as int].password@);
                        }
                    }
                    return Err(StoreError::Write {
                        code: DUPLICATE_KEY_CODE,
                        message: self.docs[i].password.clone(),
                    });
                }
                j = j + 1;
            }
            i = i + 1;
        }
        self.unique_index_on_password = true;
        Ok(())
    }
}

} // verus!
