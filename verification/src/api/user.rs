//! Decision logic of the user endpoints: credential outcomes, validation,
//! and the row-to-profile conversions.  The store queries and the session
//! cookie itself live with the caller.

use vstd::prelude::*;
use crate::model::ResultModel;
use crate::model::user::{PasswordUpdateModel, RegisterModel, UserInfo};
use crate::schema::{NewUser, User};

verus! {

/// What bcrypt answers when `password` is checked against the stored
/// `hash`: the verdict, or nothing when `hash` is not a bcrypt hash.  The
/// answer depends on the two strings alone.
pub uninterp spec fn bcrypt_verdict(password: Seq<char>, hash: Seq<char>) -> Option<bool>;

/// Relies on `bcrypt::verify`: it re-derives the hash from the salt and
/// cost embedded in `hash` and compares, so the verdict is a function of
/// the two strings alone.
#[verifier::external_body]
fn bcrypt_verify(password: &str, hash: &str) -> (r: Option<bool>)
    ensures
        r == bcrypt_verdict(password@, hash@),
{
    match bcrypt::verify(password, hash) {
        Ok(b) => Some(b),
        Err(_) => None,
    }
}

/// Relies on `bcrypt::hash`: a hash of the password under a freshly drawn
/// random salt, or nothing when the salt could not be drawn.  The salt is
/// random, so nothing is promised of the result.
#[verifier::external_body]
fn bcrypt_hash(password: &str) -> (r: Option<String>)
{
    match bcrypt::hash(password, bcrypt::DEFAULT_COST) {
        Ok(h) => Some(h),
        Err(_) => None,
    }
}

/// The response a failed credential check gives away nothing with.
pub open spec fn is_bad_credentials_response(e: ResultModel<String>) -> bool {
    &&& e.success == false
    &&& e.code == 401
    &&& e.data is None
    &&& e.message matches Some(m) && m@ == "Incorrect username or password."@
}

/// Outcome of a login attempt, given the user row the directory found for
/// the submitted name (its id and stored password hash), or nothing when
/// there is no such user.  On success the caller is told which identity to
/// remember; any failure looks the same to the client.
pub fn login_outcome(entry: Option<(i32, String)>, password: &str) -> (r: (
    ResultModel<String>,
    Option<i32>,
))
    ensures
        match entry {
            None => r.1 is None && is_bad_credentials_response(r.0),
            Some(e) => if bcrypt_verdict(password@, e.1@) == Some(true) {
                &&& r.1 == Some(e.0)
                &&& r.0.success == true
                &&& r.0.code == 200
                &&& r.0.data is None
                &&& r.0.message is None
            } else {
                r.1 is None && is_bad_credentials_response(r.0)
            },
        },
{
    match entry {
        Some((id, hash)) => {
            match bcrypt_verify(password, hash.as_str()) {
                Some(true) => (
                    ResultModel { success: true, code: 200, data: None, message: None },
                    Some(id),
                ),
                _ => (bad_credentials(), None),
            }
        },
        None => (bad_credentials(), None),
    }
}

/// The uniform rejection of a bad name or password.
fn bad_credentials() -> (e: ResultModel<String>)
    ensures
        is_bad_credentials_response(e),
{
    ResultModel {
        success: false,
        code: 401,
        data: None,
        message: Some("Incorrect username or password.".to_owned()),
    }
}

/// Everything the registration endpoint decides before the store is
/// touched: the two passwords must agree, and the accepted password is
/// hashed.  What comes back is the row to insert; the password itself
/// never leaves this function.
pub fn prepare_registration(model: &RegisterModel) -> (r: Result<NewUser, ResultModel<String>>)
    ensures
        match r {
            Ok(nu) => {
                &&& model.confirm_password@ == model.password@
                &&& nu.username@ == model.username@
                &&& nu.email@ == model.email@
            },
            Err(e) => {
                &&& e.success == false
                &&& e.data is None
                &&& if model.confirm_password@ != model.password@ {
                    &&& e.code == 400
                    &&& e.message matches Some(m) && m@
                        == "Mismatch between password and confirm-password."@
                } else {
                    e.code == 500
                }
            },
        },
{
    if !(model.confirm_password == model.password) {
        return Err(ResultModel {
            success: false,
            code: 400,
            data: None,
            message: Some("Mismatch between password and confirm-password.".to_owned()),
        });
    }
    match bcrypt_hash(model.password.as_str()) {
        Some(password_hash) => Ok(NewUser {
            username: model.username.clone(),
            email: model.email.clone(),
            password_hash,
        }),
        None => Err(ResultModel {
            success: false,
            code: 500,
            data: None,
            message: Some("Failed to hash password.".to_owned()),
        }),
    }
}

/// Outcome of a registration once the store has answered: the new row's id
/// becomes the remembered identity, or the store's complaint is passed on.
pub fn register_outcome(result: Result<i32, String>) -> (r: (ResultModel<String>, Option<i32>))
    ensures
        match result {
            Ok(id) => {
                &&& r.1 == Some(id)
                &&& r.0.success == true
                &&& r.0.code == 200
                &&& r.0.data is None
                &&& r.0.message is None
            },
            Err(m) => {
                &&& r.1 is None
                &&& r.0.success == false
                &&& r.0.code == 500
                &&& r.0.data is None
                &&& r.0.message matches Some(msg) && msg@ == m@
            },
        },
{
    match result {
        Ok(id) => (ResultModel { success: true, code: 200, data: None, message: None }, Some(id)),
        Err(m) => (
            ResultModel { success: false, code: 500, data: None, message: Some(m) },
            None,
        ),
    }
}

/// Everything the password-change endpoint decides: the two new passwords
/// must agree, the caller must prove the old one against the stored hash,
/// and the accepted new password is hashed.  What comes back is the hash
/// to store.
pub fn prepare_password_update(model: &PasswordUpdateModel, stored_hash: Option<&String>) -> (r:
    Result<String, ResultModel<String>>)
    ensures
        match r {
            Ok(_) => {
                &&& model.confirm_password@ == model.new_password@
                &&& stored_hash matches Some(h) && bcrypt_verdict(model.original_password@, h@)
                    == Some(true)
            },
            Err(e) => {
                &&& e.data is None
                &&& if model.confirm_password@ != model.new_password@ {
                    &&& e.success == false
                    &&& e.code == 400
                    &&& e.message matches Some(m) && m@
                        == "Mismatch between new-password and confirm-password."@
                } else if !(stored_hash matches Some(h) && bcrypt_verdict(
                    model.original_password@,
                    h@,
                ) == Some(true)) {
                    &&& e.success == false
                    &&& e.code == 401
                    &&& e.message matches Some(m) && m@ == "Incorrect password."@
                } else {
                    e.success == false && e.code == 500
                }
            },
        },
{
    if !(model.confirm_password == model.new_password) {
        return Err(ResultModel {
            success: false,
            code: 400,
            data: None,
            message: Some("Mismatch between new-password and confirm-password.".to_owned()),
        });
    }
    let verified = match stored_hash {
        Some(h) => match bcrypt_verify(model.original_password.as_str(), h.as_str()) {
            Some(true) => true,
            _ => false,
        },
        None => false,
    };
    if !verified {
        return Err(ResultModel {
            success: false,
            code: 401,
            data: None,
            message: Some("Incorrect password.".to_owned()),
        });
    }
    match bcrypt_hash(model.new_password.as_str()) {
        Some(h) => Ok(h),
        None => Err(ResultModel {
            success: false,
            code: 500,
            data: None,
            message: Some("Failed to hash password.".to_owned()),
        }),
    }
}

/// Outcome of the final write of a password change, as this backend has
/// always answered it: the store's complaint keeps the success flag set.
pub fn password_update_outcome(update: Result<(), String>) -> (r: ResultModel<String>)
    ensures
        match update {
            Ok(()) => {
                &&& r.success == true
                &&& r.code == 200
                &&& r.data is None
                &&& r.message is None
            },
            Err(m) => {
                &&& r.success == true
                &&& r.code == 500
                &&& r.data is None
                &&& r.message matches Some(msg) && msg@ == m@
            },
        },
{
    match update {
        Ok(()) => ResultModel { success: true, code: 200, data: None, message: None },
        Err(m) => ResultModel { success: true, code: 500, data: None, message: Some(m) },
    }
}

/// The public profile carried by a user row.
pub fn user_info_of(u: User) -> (r: UserInfo)
    ensures
        r.id == u.id,
        r.username == u.username,
        r.email == u.email,
        r.phone == u.phone,
        r.avatar == u.avatar,
        r.location == u.location,
        r.age == u.age,
        r.gender == u.gender,
{
    UserInfo {
        id: u.id,
        username: u.username,
        email: u.email,
        phone: u.phone,
        avatar: u.avatar,
        location: u.location,
        age: u.age,
        gender: u.gender,
    }
}

/// The public profiles of a page of user rows, in the same order.
pub fn user_infos_of(rows: Vec<User>) -> (r: Vec<UserInfo>)
    ensures
        r@.len() == rows@.len(),
        forall|k: int| 0 <= k < rows@.len() ==> {
            &&& (#[trigger] r@[k]).id == rows@[k].id
            &&& r@[k].username == rows@[k].username
            &&& r@[k].email == rows@[k].email
            &&& r@[k].phone == rows@[k].phone
            &&& r@[k].avatar == rows@[k].avatar
            &&& r@[k].location == rows@[k].location
            &&& r@[k].age == rows@[k].age
            &&& r@[k].gender == rows@[k].gender
        },
{
    let ghost rows0 = rows@;
    let mut rows = rows;
    let mut out: Vec<UserInfo> = Vec::new();
    while rows.len() > 0
        invariant
            out@.len() + rows@.len() == rows0.len(),
            rows@ =~= rows0.skip(out@.len() as int),
            forall|k: int| 0 <= k < out@.len() ==> {
                &&& (#[trigger] out@[k]).id == rows0[k].id
                &&& out@[k].username == rows0[k].username
                &&& out@[k].email == rows0[k].email
                &&& out@[k].phone == rows0[k].phone
                &&& out@[k].avatar == rows0[k].avatar
                &&& out@[k].location == rows0[k].location
                &&& out@[k].age == rows0[k].age
                &&& out@[k].gender == rows0[k].gender
            },
        decreases rows@.len(),
    {
        let ghost rows_before = rows@;
        let u = rows.remove(0);
        proof {
            assert(rows@ =~= rows_before.drop_first());
            assert(u == rows0[out@.len() as int]);
        }
        let info = user_info_of(u);
        out.push(info);
    }
    out
}

/// Outcome of the logout endpoint: forgetting a session always succeeds.
pub fn logout_outcome() -> (r: ResultModel<String>)
    ensures
        r.success == true,
        r.code == 200,
        r.data is None,
        r.message is None,
{
    ResultModel { success: true, code: 200, data: None, message: None }
}

/// The check the befriend endpoint makes first: a user cannot befriend
/// itself.
pub fn validate_add_friend(self_user_id: i32, user_id: i32) -> (r: Result<(), ResultModel<String>>)
    ensures
        match r {
            Ok(()) => self_user_id != user_id,
            Err(e) => {
                &&& self_user_id == user_id
                &&& e.success == false
                &&& e.code == 400
                &&& e.data is None
                &&& e.message matches Some(m) && m@ == "Cannot add yourself as friend."@
            },
        },
{
    if self_user_id == user_id {
        Err(ResultModel {
            success: false,
            code: 400,
            data: None,
            message: Some("Cannot add yourself as friend.".to_owned()),
        })
    } else {
        Ok(())
    }
}

/// What the befriend endpoint answers once the store has said whether the
/// edge already exists, and — only when it did not — whether writing both
/// directions of it worked.
pub fn add_friend_outcome(already_friends: bool, inserted: bool) -> (r: ResultModel<String>)
    ensures
        if already_friends {
            &&& r.success == false
            &&& r.code == 400
            &&& r.data is None
            &&& r.message matches Some(m) && m@ == "Already becomes friends."@
        } else if inserted {
            &&& r.success == true
            &&& r.code == 200
            &&& r.data is None
            &&& r.message is None
        } else {
            &&& r.success == false
            &&& r.code == 500
            &&& r.data is None
            &&& r.message matches Some(m) && m@ == "Failed to add friends."@
        },
{
    if already_friends {
        ResultModel {
            success: false,
            code: 400,
            data: None,
            message: Some("Already becomes friends.".to_owned()),
        }
    } else if inserted {
        ResultModel { success: true, code: 200, data: None, message: None }
    } else {
        ResultModel {
            success: false,
            code: 500,
            data: None,
            message: Some("Failed to add friends.".to_owned()),
        }
    }
}

/// What the unfriend endpoint answers once the store has said whether the
/// edge existed, and — only when it did — whether removing both directions
/// of it worked.
pub fn delete_friend_outcome(was_friends: bool, deleted: bool) -> (r: ResultModel<String>)
    ensures
        if !was_friends {
            &&& r.success == false
            &&& r.code == 400
            &&& r.data is None
            &&& r.message matches Some(m) && m@ == "Hasn't become friends."@
        } else if deleted {
            &&& r.success == true
            &&& r.code == 200
            &&& r.data is None
            &&& r.message is None
        } else {
            &&& r.success == false
            &&& r.code == 500
            &&& r.data is None
            &&& r.message matches Some(m) && m@ == "Failed to delete friends."@
        },
{
    if !was_friends {
        ResultModel {
            success: false,
            code: 400,
            data: None,
            message: Some("Hasn't become friends.".to_owned()),
        }
    } else if deleted {
        ResultModel { success: true, code: 200, data: None, message: None }
    } else {
        ResultModel {
            success: false,
            code: 500,
            data: None,
            message: Some("Failed to delete friends.".to_owned()),
        }
    }
}

} // verus!
