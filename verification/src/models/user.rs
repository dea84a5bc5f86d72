use vstd::prelude::*;

use super::ModelError;
use crate::text::{blank, is_blank};

verus! {

#[derive(Debug, Clone, Copy, PartialEq, Eq, Hash, Structural)]
pub struct UserId(pub i64);

#[derive(Debug, Clone, Copy, PartialEq, Eq, Structural)]
pub enum UserRole {
    Owner,
    Administrator,
    Manager,
    Sales,
    Accountant,
    Inventory,
    Staff,
}

#[derive(Debug, Clone, Copy, PartialEq, Eq, Structural)]
pub enum UserStatus {
    Active,
    Suspended,
}

#[derive(Debug, Clone, PartialEq, Eq)]
pub struct User {
    pub id: UserId,
    pub username: String,
    pub display_name: String,
    pub password_hash: String,
    pub role: UserRole,
    pub status: UserStatus,
}

impl User {
    /// A new active user; the names must not be blank and the hash not empty.
    pub fn new(id: UserId, username: &str, display_name: &str, password_hash: &str, role: UserRole) -> (r: Result<Self, ModelError>)
        ensures
            is_blank(username@) ==> r == Err::<User, ModelError>(ModelError::EmptyField("username")),
            !is_blank(username@) && is_blank(display_name@) ==> r == Err::<User, ModelError>(
                ModelError::EmptyField("display_name"),
            ),
            !is_blank(username@) && !is_blank(display_name@) && password_hash@.len() == 0 ==> r
                == Err::<User, ModelError>(ModelError::EmptyField("password_hash")),
            !is_blank(username@) && !is_blank(display_name@) && password_hash@.len() > 0 ==> (r matches Ok(u) && u.id == id
                && u.username@ == username@ && u.display_name@ == display_name@
                && u.password_hash@ == password_hash@ && u.role == role && u.status
                == UserStatus::Active),
    {
        if blank(username) {
            return Err(ModelError::EmptyField("username"));
        }
        if blank(display_name) {
            return Err(ModelError::EmptyField("display_name"));
        }
        if password_hash.is_empty() {
            return Err(ModelError::EmptyField("password_hash"));
        }
        Ok(User {
            id,
            username: username.to_owned(),
            display_name: display_name.to_owned(),
            password_hash: password_hash.to_owned(),
            role,
            status: UserStatus::Active,
        })
    }
}

} // verus!
