//! Bodies of requests and responses.

use vstd::prelude::*;

verus! {

/// A group to create, with the password that members must give to join it.
#[derive(Debug, Clone)]
pub struct CreateGroupForm {
    pub name: String,
    pub password: Option<String>,
}

impl CreateGroupForm {
    /// The password to hash: the one given, or the empty password.
    pub fn password_or_empty(&self) -> (r: String)
        ensures
            r@ == match self.password {
                Some(p) => p@,
                None => Seq::<char>::empty(),
            },
    {
        match &self.password {
            Some(p) => p.clone(),
            None => String::new(),
        }
    }

    /// The same group, with `hash` in place of its password.
    pub fn with_hashed_password(self, hash: String) -> (r: CreateGroupForm)
        ensures
            r.name == self.name,
            r.password == Some(hash),
    {
        CreateGroupForm { name: self.name, password: Some(hash) }
    }
}

/// A group as listed to callers.
#[derive(Debug, Clone)]
pub struct GroupResponse {}

/// A request to join a group.
#[derive(Debug, Clone)]
pub struct JoinGroup {
    pub password: String,
}

/// A user as shown to callers.
#[derive(Debug)]
pub struct UserResponse {
    pub username: String,
    pub email: String,
}

/// Credentials given at login.
#[derive(Debug, Clone)]
pub struct UserLogin {
    pub email: String,
    pub password: String,
}

/// A user to register.
#[derive(Debug, Clone)]
pub struct UserRegister {
    pub username: String,
    pub email: String,
    pub password: String,
}

impl UserRegister {
    /// The same user, with `hash` in place of the password.
    pub fn with_password(self, hash: String) -> (r: UserRegister)
        ensures
            r.username == self.username,
            r.email == self.email,
            r.password == hash,
    {
        UserRegister { username: self.username, email: self.email, password: hash }
    }
}

} // verus!
