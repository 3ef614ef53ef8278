use collab_api::{
    access_token_response, authorize_impersonation, create_access_token, create_invite_code,
    create_user, destroy_user, get_invite_codes, get_user, get_users, update_invite_code,
    update_user, validate_api_token, Database, ErrorKind, Impersonation, ImpersonationDecision,
    UserId, INVITE_CODE_LENGTH,
};

fn is_url_safe(c: char) -> bool {
    c == '_' || c == '-' || c.is_ascii_alphanumeric()
}

fn kind_of<T>(r: Result<T, collab_api::ApiError>) -> ErrorKind {
    match r {
        Ok(_) => panic!("expected an error"),
        Err(e) => e.kind,
    }
}

#[test]
fn create_user_returns_stored_record() {
    let mut db = Database::new();
    let user = create_user(&mut db, "alice", false).unwrap();
    assert_eq!(user.id, UserId(1));
    assert_eq!(user.github_login, "alice");
    assert!(!user.admin);
    let users = get_users(&db);
    assert_eq!(users.len(), 1);
    assert_eq!(users[0].github_login, "alice");
}

#[test]
fn create_user_twice_conflicts() {
    let mut db = Database::new();
    create_user(&mut db, "alice", false).unwrap();
    let err = create_user(&mut db, "alice", false).unwrap_err();
    assert_eq!(err.kind, ErrorKind::Conflict);
    assert_eq!(err.status_code(), 409);
    assert_eq!(get_users(&db).len(), 1);
}

#[test]
fn user_ids_follow_creation_order() {
    let mut db = Database::new();
    let a = create_user(&mut db, "alice", false).unwrap();
    let b = create_user(&mut db, "bob", true).unwrap();
    assert_eq!(a.id, UserId(1));
    assert_eq!(b.id, UserId(2));
    assert!(b.admin);
}

#[test]
fn create_invite_code_then_list() {
    let mut db = Database::new();
    create_user(&mut db, "alice", false).unwrap();
    create_invite_code(&mut db, 1, 5).unwrap();
    let codes = get_invite_codes(&db, 1);
    assert_eq!(codes.len(), 1);
    assert_eq!(codes[0].remaining_count, 5);
    assert_eq!(codes[0].allowed_usage_count, 5);
    assert_eq!(codes[0].owner_user_id, UserId(1));
    assert_eq!(codes[0].code.chars().count(), INVITE_CODE_LENGTH);
    assert_eq!(INVITE_CODE_LENGTH, 16);
    assert!(codes[0].code.chars().all(is_url_safe));
}

#[test]
fn invite_codes_are_distinct_and_listed_per_owner() {
    let mut db = Database::new();
    create_user(&mut db, "alice", false).unwrap();
    create_user(&mut db, "bob", false).unwrap();
    create_invite_code(&mut db, 1, 2).unwrap();
    create_invite_code(&mut db, 1, 3).unwrap();
    create_invite_code(&mut db, 2, 4).unwrap();
    let alice_codes = get_invite_codes(&db, 1);
    assert_eq!(alice_codes.len(), 2);
    assert_eq!(alice_codes[0].allowed_usage_count, 2);
    assert_eq!(alice_codes[1].allowed_usage_count, 3);
    assert_ne!(alice_codes[0].code, alice_codes[1].code);
    let bob_codes = get_invite_codes(&db, 2);
    assert_eq!(bob_codes.len(), 1);
    assert_eq!(bob_codes[0].remaining_count, 4);
    assert!(get_invite_codes(&db, 3).is_empty());
}

#[test]
fn create_invite_code_for_unknown_user_is_not_found() {
    let mut db = Database::new();
    let err = create_invite_code(&mut db, 7, 5).unwrap_err();
    assert_eq!(err.kind, ErrorKind::NotFound);
    assert!(get_invite_codes(&db, 7).is_empty());
}

#[test]
fn update_invite_code_sets_remaining_count() {
    let mut db = Database::new();
    create_user(&mut db, "alice", false).unwrap();
    create_invite_code(&mut db, 1, 5).unwrap();
    let code = get_invite_codes(&db, 1)[0].code.clone();
    update_invite_code(&mut db, &code, 0).unwrap();
    let codes = get_invite_codes(&db, 1);
    assert_eq!(codes[0].remaining_count, 0);
    assert_eq!(codes[0].allowed_usage_count, 5);
}

#[test]
fn update_invite_code_unknown_is_not_found() {
    let mut db = Database::new();
    let err = update_invite_code(&mut db, "no-such-code", 1).unwrap_err();
    assert_eq!(err.kind, ErrorKind::NotFound);
    assert_eq!(err.status_code(), 404);
}

#[test]
fn update_invite_code_above_allowed_is_rejected() {
    let mut db = Database::new();
    create_user(&mut db, "alice", false).unwrap();
    create_invite_code(&mut db, 1, 5).unwrap();
    let code = get_invite_codes(&db, 1)[0].code.clone();
    assert_eq!(kind_of(update_invite_code(&mut db, &code, 6)), ErrorKind::BadRequest);
    assert_eq!(get_invite_codes(&db, 1)[0].remaining_count, 5);
    update_invite_code(&mut db, &code, 5).unwrap();
}

#[test]
fn get_user_by_login() {
    let mut db = Database::new();
    create_user(&mut db, "alice", true).unwrap();
    let user = get_user(&db, "alice").unwrap();
    assert_eq!(user.id, UserId(1));
    assert!(user.admin);
    assert_eq!(kind_of(get_user(&db, "Alice")), ErrorKind::NotFound);
}

#[test]
fn set_admin_twice_succeeds() {
    let mut db = Database::new();
    create_user(&mut db, "alice", false).unwrap();
    update_user(&mut db, 1, true).unwrap();
    update_user(&mut db, 1, true).unwrap();
    assert!(get_user(&db, "alice").unwrap().admin);
    update_user(&mut db, 1, false).unwrap();
    assert!(!get_user(&db, "alice").unwrap().admin);
}

#[test]
fn update_unknown_user_is_not_found() {
    let mut db = Database::new();
    assert_eq!(kind_of(update_user(&mut db, 3, true)), ErrorKind::NotFound);
}

#[test]
fn destroy_user_twice_fails_the_second_time() {
    let mut db = Database::new();
    create_user(&mut db, "alice", false).unwrap();
    create_user(&mut db, "bob", false).unwrap();
    destroy_user(&mut db, 1).unwrap();
    assert_eq!(kind_of(destroy_user(&mut db, 1)), ErrorKind::NotFound);
    let users = get_users(&db);
    assert_eq!(users.len(), 1);
    assert_eq!(users[0].github_login, "bob");
    let carol = create_user(&mut db, "carol", false).unwrap();
    assert_eq!(carol.id, UserId(3));
}

#[test]
fn access_token_non_admin_impersonation_is_unauthorized() {
    let mut db = Database::new();
    create_user(&mut db, "alice", false).unwrap();
    let imp = Impersonation::ImpersonateLogin("bob".to_string());
    let err = create_access_token(&db, "alice", &imp).unwrap_err();
    assert_eq!(err.kind, ErrorKind::Unauthorized);
    assert_eq!(err.status_code(), 401);
    create_user(&mut db, "bob", false).unwrap();
    assert_eq!(kind_of(create_access_token(&db, "alice", &imp)), ErrorKind::Unauthorized);
}

#[test]
fn access_token_admin_unknown_target_is_unprocessable() {
    let mut db = Database::new();
    create_user(&mut db, "alice", true).unwrap();
    let imp = Impersonation::ImpersonateLogin("bob".to_string());
    let err = create_access_token(&db, "alice", &imp).unwrap_err();
    assert_eq!(err.kind, ErrorKind::UnprocessableEntity);
    assert_eq!(err.status_code(), 422);
}

#[test]
fn access_token_admin_impersonates_existing_user() {
    let mut db = Database::new();
    create_user(&mut db, "alice", true).unwrap();
    create_user(&mut db, "bob", false).unwrap();
    let imp = Impersonation::ImpersonateLogin("bob".to_string());
    assert_eq!(create_access_token(&db, "alice", &imp).unwrap(), UserId(2));
}

#[test]
fn access_token_without_impersonation_is_for_self() {
    let mut db = Database::new();
    create_user(&mut db, "bob", false).unwrap();
    create_user(&mut db, "alice", true).unwrap();
    let id = create_access_token(&db, "alice", &Impersonation::NoImpersonation).unwrap();
    assert_eq!(id, UserId(2));
    let reply = access_token_response(id, Some("sealed".to_string())).unwrap();
    assert_eq!(reply.user_id, UserId(2));
    assert_eq!(reply.encrypted_access_token, "sealed");
    let plain = create_access_token(&db, "bob", &Impersonation::NoImpersonation).unwrap();
    assert_eq!(plain, UserId(1));
}

#[test]
fn access_token_unknown_subject_is_not_found() {
    let db = Database::new();
    let r = create_access_token(&db, "alice", &Impersonation::NoImpersonation);
    assert_eq!(kind_of(r), ErrorKind::NotFound);
}

#[test]
fn access_token_sealing_failure_is_bad_request() {
    let err = access_token_response(UserId(1), None).unwrap_err();
    assert_eq!(err.kind, ErrorKind::BadRequest);
    assert_eq!(err.status_code(), 400);
}

#[test]
fn impersonation_decisions() {
    let mut db = Database::new();
    create_user(&mut db, "bob", false).unwrap();
    let none = Impersonation::NoImpersonation;
    let bob = Impersonation::ImpersonateLogin("bob".to_string());
    let eve = Impersonation::ImpersonateLogin("eve".to_string());
    assert_eq!(authorize_impersonation(&db, false, &none), ImpersonationDecision::ActAsSelf);
    assert_eq!(authorize_impersonation(&db, true, &none), ImpersonationDecision::ActAsSelf);
    assert_eq!(authorize_impersonation(&db, false, &bob), ImpersonationDecision::NotAuthorized);
    assert_eq!(authorize_impersonation(&db, false, &eve), ImpersonationDecision::NotAuthorized);
    assert_eq!(authorize_impersonation(&db, true, &bob), ImpersonationDecision::ActAs(UserId(1)));
    assert_eq!(authorize_impersonation(&db, true, &eve), ImpersonationDecision::TargetMissing);
}

#[test]
fn gate_missing_header_is_bad_request() {
    assert_eq!(kind_of(validate_api_token(None, "secret")), ErrorKind::BadRequest);
}

#[test]
fn gate_malformed_header_is_bad_request() {
    assert_eq!(kind_of(validate_api_token(Some("Bearer secret"), "secret")), ErrorKind::BadRequest);
    assert_eq!(kind_of(validate_api_token(Some("token"), "secret")), ErrorKind::BadRequest);
    assert_eq!(kind_of(validate_api_token(Some(""), "secret")), ErrorKind::BadRequest);
    assert_eq!(kind_of(validate_api_token(Some("Token secret"), "secret")), ErrorKind::BadRequest);
}

#[test]
fn gate_wrong_secret_is_unauthorized() {
    assert_eq!(kind_of(validate_api_token(Some("token wrong"), "secret")), ErrorKind::Unauthorized);
    assert_eq!(kind_of(validate_api_token(Some("token secret "), "secret")), ErrorKind::Unauthorized);
    assert_eq!(kind_of(validate_api_token(Some("token "), "secret")), ErrorKind::Unauthorized);
}

#[test]
fn gate_matching_secret_passes() {
    assert!(validate_api_token(Some("token secret"), "secret").is_ok());
    assert!(validate_api_token(Some("token ünïcode"), "ünïcode").is_ok());
}

#[test]
fn status_codes_of_each_kind() {
    assert_eq!(ErrorKind::BadRequest.status_code(), 400);
    assert_eq!(ErrorKind::Unauthorized.status_code(), 401);
    assert_eq!(ErrorKind::NotFound.status_code(), 404);
    assert_eq!(ErrorKind::Conflict.status_code(), 409);
    assert_eq!(ErrorKind::UnprocessableEntity.status_code(), 422);
    assert_eq!(ErrorKind::Internal.status_code(), 500);
}
