//! User-facing request and response bodies.

use vstd::prelude::*;

verus! {

/// Public profile of a user, as returned by the profile, search and friend
/// endpoints.
#[derive(Debug, Clone, PartialEq)]
pub struct UserInfo {
    pub id: i32,
    pub username: String,
    pub email: String,
    pub phone: String,
    pub avatar: String,
    pub location: String,
    pub age: i32,
    pub gender: i32,
}

/// Body of the login endpoint.
#[derive(Debug, Clone, PartialEq)]
pub struct LoginModel {
    pub username: String,
    pub password: String,
}

/// Body of the registration endpoint.
#[derive(Debug, Clone, PartialEq)]
pub struct RegisterModel {
    pub username: String,
    pub password: String,
    pub confirm_password: String,
    pub email: String,
}

/// Body of the profile-update endpoint.
#[derive(Debug, Clone, PartialEq)]
pub struct UserInfoUpdateModel {
    pub username: String,
    pub email: String,
    pub phone: String,
    pub avatar: String,
    pub location: String,
    pub age: i32,
    pub gender: i32,
}

/// Body of the password-change endpoint.
#[derive(Debug, Clone, PartialEq)]
pub struct PasswordUpdateModel {
    pub original_password: String,
    pub new_password: String,
    pub confirm_password: String,
}

} // verus!
