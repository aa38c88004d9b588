use vidhost::auth::{Role, UserClaims};
use vidhost::users::{
    accept_password, get_user, join_group, login, modify_user_state, Lookup, Refusal, StoredGroup, StoredUser,
    UserOperation,
};

fn user(deleted: bool, password: Option<&str>, username: Option<&str>) -> StoredUser {
    StoredUser {
        id: 9,
        username: username.map(str::to_string),
        email: "a@b.c".to_string(),
        password: password.map(str::to_string),
        is_deleted: deleted,
    }
}

#[test]
fn login_of_active_user_checks_its_hash() {
    let c = login(Lookup::Found(user(false, Some("hash"), None)), Role::RegisteredUser).ok().unwrap();
    assert_eq!(c.claims, UserClaims { id: 9, role: Role::RegisteredUser });
    assert_eq!(c.password_hash, "hash");
    let c = login(Lookup::Found(user(false, None, None)), Role::Admin).ok().unwrap();
    assert_eq!(c.claims.role, Role::Admin);
    assert_eq!(c.password_hash, "");
}

#[test]
fn login_refuses_deleted_missing_or_failed() {
    assert_eq!(login(Lookup::Found(user(true, Some("h"), None)), Role::Admin).err(), Some(Refusal::Unauthorized));
    assert_eq!(login(Lookup::Missing, Role::Admin).err(), Some(Refusal::Unauthorized));
    assert_eq!(login(Lookup::Failed, Role::Admin).err(), Some(Refusal::Unauthorized));
    assert_eq!(Refusal::Unauthorized.status_code(), 401);
}

#[test]
fn only_a_matching_password_is_accepted() {
    assert_eq!(accept_password(Some(true), Refusal::Forbidden), Ok(()));
    assert_eq!(accept_password(Some(false), Refusal::Forbidden), Err(Refusal::Forbidden));
    assert_eq!(accept_password(None, Refusal::Unauthorized), Err(Refusal::Unauthorized));
    assert_eq!(Refusal::Forbidden.status_code(), 403);
}

#[test]
fn user_state_follows_the_operation() {
    assert_eq!(modify_user_state(Lookup::Found(5u8), UserOperation::Delete), Ok((5u8, true)));
    assert_eq!(modify_user_state(Lookup::Found(5u8), UserOperation::Restore), Ok((5u8, false)));
    assert_eq!(modify_user_state::<u8>(Lookup::Missing, UserOperation::Delete), Err(Refusal::NotFound));
    assert_eq!(modify_user_state::<u8>(Lookup::Failed, UserOperation::Delete), Err(Refusal::ServerError));
    assert!(UserOperation::Delete.is_deleted_after());
    assert!(!UserOperation::Restore.is_deleted_after());
    assert_eq!(Refusal::NotFound.status_code(), 404);
    assert_eq!(Refusal::ServerError.status_code(), 500);
}

#[test]
fn joining_a_group_checks_its_password() {
    let g = StoredGroup { id: 1, password: Some("gh".to_string()) };
    assert_eq!(join_group(Lookup::Found(g)), Ok("gh".to_string()));
    let open = StoredGroup { id: 2, password: None };
    assert_eq!(join_group(Lookup::Found(open)), Ok(String::new()));
    assert_eq!(join_group(Lookup::Missing), Err(Refusal::NotFound));
    assert_eq!(join_group(Lookup::Failed), Err(Refusal::ServerError));
}

#[test]
fn current_user_is_shown_by_name_and_email() {
    let shown = get_user(Lookup::Found(user(false, None, Some("ann")))).ok().unwrap().unwrap();
    assert_eq!((shown.username.as_str(), shown.email.as_str()), ("ann", "a@b.c"));
    let unnamed = get_user(Lookup::Found(user(false, None, None))).ok().unwrap().unwrap();
    assert_eq!(unnamed.username, "");
    assert!(get_user(Lookup::Missing).ok().unwrap().is_none());
    assert_eq!(get_user(Lookup::Failed).err(), Some(Refusal::ServerError));
}
