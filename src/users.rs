//! The decisions of the user and group services. Looking rows up, checking
//! password hashes and signing tokens are done by the caller; these functions
//! say what follows from their results.

use vstd::prelude::*;
use crate::auth::{Role, UserClaims};
use crate::dtos::UserResponse;

verus! {

/// What looking a single row up in the metadata store gave.
pub enum Lookup<T> {
    Found(T),
    Missing,
    Failed,
}

/// Why a request is refused, as an HTTP status.
#[derive(Clone, Copy, Debug, PartialEq, Eq, Structural)]
pub enum Refusal {
    Unauthorized,
    Forbidden,
    NotFound,
    ServerError,
}

impl Refusal {
    pub fn status_code(&self) -> (r: u16)
        ensures
            r == match *self {
                Refusal::Unauthorized => 401u16,
                Refusal::Forbidden => 403u16,
                Refusal::NotFound => 404u16,
                Refusal::ServerError => 500u16,
            },
    {
        match self {
            Refusal::Unauthorized => 401,
            Refusal::Forbidden => 403,
            Refusal::NotFound => 404,
            Refusal::ServerError => 500,
        }
    }
}

/// A stored user, as far as the services read it.
pub struct StoredUser {
    pub id: i64,
    pub username: Option<String>,
    pub email: String,
    pub password: Option<String>,
    pub is_deleted: bool,
}

/// A stored group, as far as joining it reads it.
pub struct StoredGroup {
    pub id: i64,
    pub password: Option<String>,
}

/// The text of `s`, or the empty text.
pub open spec fn text_or_empty(s: Option<String>) -> Seq<char> {
    match s {
        Some(t) => t@,
        None => Seq::<char>::empty(),
    }
}

fn string_or_empty(s: &Option<String>) -> (r: String)
    ensures
        r@ == text_or_empty(*s),
{
    match s {
        Some(t) => t.clone(),
        None => String::new(),
    }
}

/// A change of a user's state by an administrator.
#[derive(Clone, Copy, Debug, PartialEq, Eq, Structural)]
pub enum UserOperation {
    Delete,
    Restore,
}

impl UserOperation {
    /// Whether the user is marked deleted after the operation.
    pub fn is_deleted_after(&self) -> (r: bool)
        ensures
            r == (*self == UserOperation::Delete),
    {
        match self {
            UserOperation::Delete => true,
            UserOperation::Restore => false,
        }
    }
}

/// Who is logging in, once the password hash has been found.
pub struct LoginCandidate {
    /// The claims to sign if the password matches.
    pub claims: UserClaims,
    /// The stored hash to check the password against.
    pub password_hash: String,
}

/// Decides a login once the user has been looked up by email: a user that
/// is missing or deleted, or a failed lookup, is refused; anyone else gets
/// claims with `user_role`, to be signed if the password matches.
pub fn login(found: Lookup<StoredUser>, user_role: Role) -> (r: Result<LoginCandidate, Refusal>)
    ensures
        match found {
            Lookup::Found(user) => if user.is_deleted {
                r == Err::<LoginCandidate, _>(Refusal::Unauthorized)
            } else {
                &&& r is Ok
                &&& r->Ok_0.claims == (UserClaims { id: user.id, role: user_role })
                &&& r->Ok_0.password_hash@ == text_or_empty(user.password)
            },
            _ => r == Err::<LoginCandidate, _>(Refusal::Unauthorized),
        },
{
    match found {
        Lookup::Found(user) => {
            if user.is_deleted {
                return Err(Refusal::Unauthorized);
            }
            let password_hash = string_or_empty(&user.password);
            Ok(LoginCandidate { claims: UserClaims { id: user.id, role: user_role }, password_hash })
        },
        _ => Err(Refusal::Unauthorized),
    }
}

/// Decides on the result of checking a password: only a successful check
/// that matched lets the request through; a mismatch or a failed check is
/// refused with `refusal`.
pub fn accept_password(verified: Option<bool>, refusal: Refusal) -> (r: Result<(), Refusal>)
    ensures
        r is Ok <==> verified == Some(true),
        r is Err ==> r == Err::<(), _>(refusal),
{
    match verified {
        Some(true) => Ok(()),
        _ => Err(refusal),
    }
}

/// Decides a change of a user's state once the user has been looked up: the
/// user found is handed back with the deletion flag to store.
pub fn modify_user_state<T>(found: Lookup<T>, operation: UserOperation) -> (r: Result<(T, bool), Refusal>)
    ensures
        match found {
            Lookup::Found(user) => r == Ok::<(T, bool), Refusal>(
                (user, operation == UserOperation::Delete),
            ),
            Lookup::Missing => r == Err::<(T, bool), _>(Refusal::NotFound),
            Lookup::Failed => r == Err::<(T, bool), _>(Refusal::ServerError),
        },
{
    match found {
        Lookup::Found(user) => Ok((user, operation.is_deleted_after())),
        Lookup::Missing => Err(Refusal::NotFound),
        Lookup::Failed => Err(Refusal::ServerError),
    }
}

/// Decides a request to join a group once the group has been looked up: the
/// group's stored password hash, to check the given password against.
pub fn join_group(found: Lookup<StoredGroup>) -> (r: Result<String, Refusal>)
    ensures
        match found {
            Lookup::Found(group) => r is Ok && r->Ok_0@ == text_or_empty(group.password),
            Lookup::Missing => r == Err::<String, _>(Refusal::NotFound),
            Lookup::Failed => r == Err::<String, _>(Refusal::ServerError),
        },
{
    match found {
        Lookup::Found(group) => Ok(string_or_empty(&group.password)),
        Lookup::Missing => Err(Refusal::NotFound),
        Lookup::Failed => Err(Refusal::ServerError),
    }
}

/// What to show of the current user: their name (empty if unset) and email,
/// nothing when there is no such user, a server error when the lookup failed.
pub fn get_user(found: Lookup<StoredUser>) -> (r: Result<Option<UserResponse>, Refusal>)
    ensures
        match found {
            Lookup::Found(user) => {
                &&& r is Ok
                &&& r->Ok_0 is Some
                &&& r->Ok_0->Some_0.username@ == text_or_empty(user.username)
                &&& r->Ok_0->Some_0.email == user.email
            },
            Lookup::Missing => r is Ok && r->Ok_0 is None,
            Lookup::Failed => r is Err && r->Err_0 == Refusal::ServerError,
        },
{
    match found {
        Lookup::Found(user) => {
            let username = string_or_empty(&user.username);
            Ok(Some(UserResponse { username, email: user.email }))
        },
        Lookup::Missing => Ok(None),
        Lookup::Failed => Err(Refusal::ServerError),
    }
}

} // verus!
