//! The user store: builds `BaseUser` documents from credentials and maps
//! store-level failures to the domain error taxonomy.
//!
//! The unique index on the encrypted password is the sole authentication
//! check at login: whoever presents a password whose ciphertext matches a
//! stored record is treated as that user.

use vstd::prelude::*;
use vstd::utf8::encode_utf8;
use crate::forms::AuthUserForm;
use crate::forms::UserRole;
use crate::mongo_crud::DUPLICATE_KEY_CODE;
use crate::mongo_crud::MongoRepo;
use crate::mongo_crud::MongoRepoError;
use crate::mongo_crud::StoreError;
use crate::mongo_crud::has_password;
use crate::mongo_models::BaseUser;
use crate::utils::Cipher;
use crate::utils::MAX_MESSAGE_BYTES;
use crate::utils::encryption_of;

verus! {

/// Builds the document to store for a credential: encrypts the password,
/// defaults a missing role to `Buyer`, and stamps both timestamps with
/// `now` (epoch seconds).  The identifier is left for the store to assign.
pub fn create_user_body(cipher: &Cipher, user: &AuthUserForm, now: i64) -> (r: BaseUser)
    requires
        cipher.wf(),
        encode_utf8(user.spec_password()).len() < MAX_MESSAGE_BYTES,
    ensures
        r.id is None,
        r.password@ == encryption_of(cipher.spec_key(), user.spec_password()),
        r.password@.len() == 4 * ((encode_utf8(user.spec_password()).len() + 30) / 3),
        r.role == user.spec_role().unwrap_or(UserRole::Buyer),
        r.created == now,
        r.modified == now,
{
    let password = cipher.encrypt(user.get_password().as_str());
    let role = match user.get_role() {
        Some(role) => role,
        None => UserRole::Buyer,
    };
    BaseUser { id: None, password, role, created: now, modified: now }
}

/// Binds the repository the user store works against and (re-)asserts the
/// unique index on the password field, as the startup routine does.
pub fn get_users_repo() -> (r: MongoRepo)
    ensures
        r.wf(),
        r.spec_db_name() == "sample_mflix"@,
        r.spec_col_name() == "base_users"@,
        r.spec_docs().len() == 0,
        r.spec_next_id() == 0,
        r.spec_index_on(),
{
    let mut repo = MongoRepo::new("sample_mflix", "base_users");
    let created = repo.create_unique_index();
    proof {
        assert(created is Ok);
    }
    repo
}

/// Registers a credential: encrypts the password, inserts the document and
/// re-reads the stored record to return its canonical form.  A duplicate
/// ciphertext surfaces as `PasswordExistsError` and leaves the collection
/// unchanged; every other write failure maps to `WriteError`; any other
/// store failure maps to `UnexpectedError`.
pub fn register_user(
    repo: &mut MongoRepo,
    cipher: &Cipher,
    user: AuthUserForm,
    now: i64,
) -> (r: Result<BaseUser, MongoRepoError>)
    requires
        old(repo).wf(),
        cipher.wf(),
        old(repo).spec_next_id() < u64::MAX,
        encode_utf8(user.spec_password()).len() < MAX_MESSAGE_BYTES,
    ensures
        final(repo).wf(),
        final(repo).spec_index_on() == old(repo).spec_index_on(),
        ({
            let c = encryption_of(cipher.spec_key(), user.spec_password());
            let conflict = old(repo).spec_index_on() && has_password(old(repo).spec_docs(), c);
            &&& conflict ==> (r matches Err(MongoRepoError::PasswordExistsError(p))
                && p@ == user.spec_password()
                && final(repo).spec_docs() == old(repo).spec_docs()
                && final(repo).spec_next_id() == old(repo).spec_next_id())
            &&& !conflict ==> (r matches Ok(u)
                && u.password@ == c
                && u.password@.len() == 4 * ((encode_utf8(user.spec_password()).len() + 30) / 3)
                && u.role == user.spec_role().unwrap_or(UserRole::Buyer)
                && u.created == now
                && u.modified == now
                && u.id == Some(old(repo).spec_next_id())
                && final(repo).spec_docs() == old(repo).spec_docs().push(u)
                && final(repo).spec_next_id() == old(repo).spec_next_id() + 1)
        }),
{
    let base_user = create_user_body(cipher, &user, now);
    match repo.create(base_user) {
        Ok(id) => {
            proof {
                let docs = repo.spec_docs();
                assert(crate::mongo_crud::has_id(docs, id)) by {
                    assert(docs[docs.len() - 1].id == Some(id));
                }
            }
            match repo.get_by_id(id) {
                Ok(found) => match found {
                    Some(inserted) => {
                        proof {
                            let docs = repo.spec_docs();
                            let i = choose|i: int|
                                0 <= i < docs.len() && #[trigger] docs[i] == inserted;
                            assert(docs[docs.len() - 1].id == Some(id));
                            if i < docs.len() - 1 {
                                assert(docs[i].id != docs[docs.len() - 1].id);
                            }
                        }
                        Ok(inserted)
                    },
                    // defensive: a record that was just inserted should
                    // always be found again
                    None => Err(
                        MongoRepoError::UnexpectedError("User not found".to_string()),
                    ),
                },
                Err(e) => match e {
                    StoreError::Write { message, .. } => Err(
                        MongoRepoError::UnexpectedError(message),
                    ),
                    StoreError::Other { message } => Err(
                        MongoRepoError::UnexpectedError(message),
                    ),
                },
            }
        },
        Err(e) => match e {
            StoreError::Write { code, message } => {
                if code == DUPLICATE_KEY_CODE {
                    Err(MongoRepoError::PasswordExistsError(user.get_password()))
                } else {
                    Err(MongoRepoError::WriteError(message))
                }
            },
            StoreError::Other { message } => Err(MongoRepoError::UnexpectedError(message)),
        },
    }
}

/// Law: registering one plaintext twice yields exactly one success and one
/// conflict, whichever registration commits first.  The first committed
/// registration finds the ciphertext absent and appends its document
/// (`register_user`, no-conflict case); this lemma shows the ciphertext is
/// then present, so by `register_user`'s conflict case the other
/// registration must return `PasswordExistsError` and leave the collection
/// unchanged.
pub proof fn lemma_duplicate_registration(docs: Seq<BaseUser>, winner: BaseUser, c: Seq<char>)
    requires
        !has_password(docs, c),
        winner.password@ == c,
    ensures
        has_password(docs.push(winner), c),
{
    assert(docs.push(winner)[docs.len() as int].password@ == c);
}

/// Law: under the unique index at most one stored document matches a
/// ciphertext, so the record that `login_user` returns on success is
/// exactly the one that registration stored for that password.
pub proof fn lemma_login_unique_match(docs: Seq<BaseUser>, c: Seq<char>, i: int, j: int)
    requires
        crate::mongo_crud::passwords_unique(docs),
        0 <= i < docs.len(),
        0 <= j < docs.len(),
        docs[i].password@ == c,
        docs[j].password@ == c,
    ensures
        i == j,
{
}

/// Logs a credential in: encrypts the supplied password and looks a user up
/// by exact ciphertext match.  Success returns the stored user if and only
/// if some stored record carries that ciphertext; absence maps to
/// `NotFoundError`; any store failure maps to `UnexpectedError`.
pub fn login_user(repo: &MongoRepo, cipher: &Cipher, user: AuthUserForm) -> (r: Result<
    BaseUser,
    MongoRepoError,
>)
    requires
        cipher.wf(),
        encode_utf8(user.spec_password()).len() < MAX_MESSAGE_BYTES,
    ensures
        ({
            let c = encryption_of(cipher.spec_key(), user.spec_password());
            &&& has_password(repo.spec_docs(), c) ==> (r matches Ok(u) && u.password@ == c
                && exists|i: int|
                    0 <= i < repo.spec_docs().len() && #[trigger] repo.spec_docs()[i] == u)
            &&& !has_password(repo.spec_docs(), c) ==> r matches Err(
                MongoRepoError::NotFoundError(_),
            )
        }),
{
    let filter = cipher.encrypt(user.get_password().as_str());
    match repo.find_one(&filter) {
        Ok(found) => match found {
            Some(stored) => Ok(stored),
            None => Err(MongoRepoError::NotFoundError("User not found".to_string())),
        },
        Err(e) => match e {
            StoreError::Write { message, .. } => Err(MongoRepoError::UnexpectedError(message)),
            StoreError::Other { message } => Err(MongoRepoError::UnexpectedError(message)),
        },
    }
}

} // verus!
