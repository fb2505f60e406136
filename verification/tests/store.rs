use authcore::forms::AuthUserForm;
use authcore::forms::UserRole;
use authcore::mongo_crud::MongoRepoError;
use authcore::mongo_models::BaseUser;
use authcore::users::create_user_body;
use authcore::users::get_users_repo;
use authcore::users::login_user;
use authcore::users::register_user;
use authcore::utils::Cipher;

const NOW: i64 = 1_700_000_000;

fn cipher() -> Cipher {
    Cipher::new((0u8..32).collect()).unwrap()
}

fn doc(password: &str) -> BaseUser {
    BaseUser {
        id: None,
        password: password.to_string(),
        role: UserRole::Buyer,
        created: NOW,
        modified: NOW,
    }
}

#[test]
fn repo_create_assigns_ids_in_order() {
    let mut repo = get_users_repo();
    let first = repo.create(doc("cipher-a")).unwrap();
    let second = repo.create(doc("cipher-b")).unwrap();
    assert_ne!(first, second);
    let found = repo.get_by_id(first).unwrap().unwrap();
    assert_eq!(found.password, "cipher-a");
    assert_eq!(found.id, Some(first));
}

#[test]
fn repo_get_by_id_misses_unknown() {
    let mut repo = get_users_repo();
    let id = repo.create(doc("cipher-a")).unwrap();
    assert!(repo.get_by_id(id + 1).unwrap().is_none());
}

#[test]
fn repo_find_one_matches_exact_ciphertext() {
    let mut repo = get_users_repo();
    repo.create(doc("cipher-a")).unwrap();
    repo.create(doc("cipher-b")).unwrap();
    let found = repo.find_one(&"cipher-b".to_string()).unwrap().unwrap();
    assert_eq!(found.password, "cipher-b");
    assert!(repo.find_one(&"cipher-c".to_string()).unwrap().is_none());
}

#[test]
fn repo_unique_index_rejects_duplicates() {
    let mut repo = get_users_repo();
    repo.create(doc("cipher-a")).unwrap();
    let err = repo.create(doc("cipher-a")).unwrap_err();
    match err {
        authcore::mongo_crud::StoreError::Write { code, .. } => {
            assert_eq!(code, authcore::mongo_crud::DUPLICATE_KEY_CODE);
        },
        other => panic!("expected a duplicate-key write error, got {:?}", other),
    }
}

#[test]
fn repo_update_by_id_applies_set_fields() {
    let mut repo = get_users_repo();
    let id = repo.create(doc("cipher-a")).unwrap();
    let modified = repo
        .update_by_id(
            id,
            authcore::mongo_crud::UserUpdate {
                password: None,
                role: Some(UserRole::Seller),
                modified: Some(NOW + 5),
            },
        )
        .unwrap();
    assert!(modified);
    let stored = repo.get_by_id(id).unwrap().unwrap();
    assert_eq!(stored.role, UserRole::Seller);
    assert_eq!(stored.modified, NOW + 5);
    assert_eq!(stored.created, NOW);
    assert_eq!(stored.password, "cipher-a");
}

#[test]
fn repo_update_by_id_misses_unknown() {
    let mut repo = get_users_repo();
    let id = repo.create(doc("cipher-a")).unwrap();
    let modified = repo
        .update_by_id(
            id + 1,
            authcore::mongo_crud::UserUpdate {
                password: None,
                role: None,
                modified: Some(NOW + 5),
            },
        )
        .unwrap();
    assert!(!modified);
}

#[test]
fn repo_update_by_id_keeps_unique_index() {
    let mut repo = get_users_repo();
    let id_a = repo.create(doc("cipher-a")).unwrap();
    repo.create(doc("cipher-b")).unwrap();
    let err = repo
        .update_by_id(
            id_a,
            authcore::mongo_crud::UserUpdate {
                password: Some("cipher-b".to_string()),
                role: None,
                modified: None,
            },
        )
        .unwrap_err();
    match err {
        authcore::mongo_crud::StoreError::Write { code, .. } => {
            assert_eq!(code, authcore::mongo_crud::DUPLICATE_KEY_CODE);
        },
        other => panic!("expected a duplicate-key write error, got {:?}", other),
    }
    // the rejected update left the document alone
    assert_eq!(repo.get_by_id(id_a).unwrap().unwrap().password, "cipher-a");
}

#[test]
fn repo_delete_by_id_removes_exactly_one() {
    let mut repo = get_users_repo();
    let id = repo.create(doc("cipher-a")).unwrap();
    assert!(repo.delete_by_id(id).unwrap());
    assert!(!repo.delete_by_id(id).unwrap());
    assert!(repo.get_by_id(id).unwrap().is_none());
}

#[test]
fn create_user_body_encrypts_and_defaults() {
    let c = cipher();
    let form = AuthUserForm::new("+255712345678".to_string());
    let body = create_user_body(&c, &form, NOW);
    assert!(body.id.is_none());
    assert_ne!(body.password, "+255712345678");
    assert_eq!(body.password, c.encrypt("+255712345678"));
    assert_eq!(body.role, UserRole::Buyer);
    assert_eq!(body.created, NOW);
    assert_eq!(body.modified, NOW);
}

#[test]
fn register_then_login_returns_same_user() {
    let c = cipher();
    let mut repo = get_users_repo();
    let registered = register_user(
        &mut repo,
        &c,
        AuthUserForm::create_buyer("+255712345678".to_string()),
        NOW,
    )
    .unwrap();
    assert_eq!(registered.role, UserRole::Buyer);
    let logged_in = login_user(&repo, &c, AuthUserForm::new("+255712345678".to_string()))
        .unwrap();
    assert_eq!(logged_in.id, registered.id);
    assert_eq!(logged_in.password, registered.password);
}

#[test]
fn duplicate_registration_conflicts_once() {
    let c = cipher();
    let mut repo = get_users_repo();
    let first = register_user(
        &mut repo,
        &c,
        AuthUserForm::create_buyer("+255712345678".to_string()),
        NOW,
    );
    assert!(first.is_ok());
    let second = register_user(
        &mut repo,
        &c,
        AuthUserForm::new("+255712345678".to_string()),
        NOW + 1,
    );
    match second.unwrap_err() {
        MongoRepoError::PasswordExistsError(p) => assert_eq!(p, "+255712345678"),
        other => panic!("expected PasswordExistsError, got {:?}", other),
    }
    // still exactly one stored record for that ciphertext
    let stored = login_user(&repo, &c, AuthUserForm::new("+255712345678".to_string()))
        .unwrap();
    assert_eq!(stored.id, first.unwrap().id);
}

#[test]
fn login_unknown_credential_is_not_found() {
    let c = cipher();
    let mut repo = get_users_repo();
    register_user(
        &mut repo,
        &c,
        AuthUserForm::create_buyer("+255712345678".to_string()),
        NOW,
    )
    .unwrap();
    let miss = login_user(&repo, &c, AuthUserForm::new("+255799999999".to_string()));
    match miss.unwrap_err() {
        MongoRepoError::NotFoundError(_) => {},
        other => panic!("expected NotFoundError, got {:?}", other),
    }
}

#[test]
fn form_accessors_and_validation() {
    let form = AuthUserForm::new("+255712345678".to_string());
    assert_eq!(form.get_password(), "+255712345678");
    assert!(form.get_role().is_none());
    assert!(form.validate());
    let buyer = AuthUserForm::create_buyer("+255712345678".to_string());
    assert_eq!(buyer.get_role(), Some(UserRole::Buyer));
    assert!(!AuthUserForm::new("short".to_string()).validate());
    assert!(!AuthUserForm::new("123456789012345".to_string()).validate());
    assert!(AuthUserForm::new("1234567890".to_string()).validate());
    assert!(AuthUserForm::new("12345678901234".to_string()).validate());
}
