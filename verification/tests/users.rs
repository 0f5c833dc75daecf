//! The user-endpoint decisions, with real bcrypt hashes where credentials
//! are involved.

use message_relay::api::user::{
    add_friend_outcome, delete_friend_outcome, login_outcome, logout_outcome,
    password_update_outcome, prepare_password_update, prepare_registration, register_outcome,
    user_info_of, user_infos_of, validate_add_friend,
};
use message_relay::api::{parse_user_id, require_login};
use message_relay::model::message::HistoryPageModel;
use message_relay::model::user::{PasswordUpdateModel, RegisterModel};
use message_relay::model::{ResultModel, SearchModel};
use message_relay::schema::User;

fn user_row(id: i32, name: &str) -> User {
    User {
        id,
        username: name.to_string(),
        email: format!("{}@example.org", name),
        phone: "555".to_string(),
        avatar: "a.png".to_string(),
        location: "here".to_string(),
        age: 30,
        gender: 1,
        password_hash: "irrelevant".to_string(),
    }
}

#[test]
fn login_succeeds_only_with_the_right_password() {
    let hash = bcrypt::hash("open sesame", 4).unwrap();
    let (ok, identity) = login_outcome(Some((9, hash.clone())), "open sesame");
    assert!(ok.success);
    assert_eq!(ok.code, 200);
    assert_eq!(identity, Some(9));

    let (bad, nobody) = login_outcome(Some((9, hash)), "open says me");
    assert!(!bad.success);
    assert_eq!(bad.code, 401);
    assert_eq!(bad.message.as_deref(), Some("Incorrect username or password."));
    assert_eq!(nobody, None);
}

#[test]
fn login_with_an_unknown_user_or_broken_hash_fails_alike() {
    let (bad, nobody) = login_outcome(None, "whatever");
    assert_eq!((bad.code, nobody), (401, None));
    let (bad2, nobody2) = login_outcome(Some((1, "not a bcrypt hash".to_string())), "whatever");
    assert_eq!((bad2.code, nobody2), (401, None));
}

#[test]
fn registration_rejects_mismatched_passwords() {
    let model = RegisterModel {
        username: "ada".to_string(),
        password: "one".to_string(),
        confirm_password: "two".to_string(),
        email: "ada@example.org".to_string(),
    };
    match prepare_registration(&model) {
        Err(e) => {
            assert_eq!(e.code, 400);
            assert_eq!(
                e.message.as_deref(),
                Some("Mismatch between password and confirm-password.")
            );
        }
        Ok(_) => panic!("mismatch must be rejected"),
    }
}

#[test]
fn registration_hashes_the_password_it_accepts() {
    let model = RegisterModel {
        username: "ada".to_string(),
        password: "correct horse".to_string(),
        confirm_password: "correct horse".to_string(),
        email: "ada@example.org".to_string(),
    };
    let row = prepare_registration(&model).expect("matching passwords are accepted");
    assert_eq!(row.username, "ada");
    assert_eq!(row.email, "ada@example.org");
    assert_ne!(row.password_hash, "correct horse");
    // The stored hash really verifies the password, through the login path.
    let (ok, identity) = login_outcome(Some((5, row.password_hash)), "correct horse");
    assert!(ok.success);
    assert_eq!(identity, Some(5));
}

#[test]
fn registration_outcome_remembers_the_new_identity() {
    let (ok, id) = register_outcome(Ok(31));
    assert!(ok.success);
    assert_eq!((ok.code, id), (200, Some(31)));
    let (bad, none) = register_outcome(Err("duplicate key".to_string()));
    assert!(!bad.success);
    assert_eq!(bad.code, 500);
    assert_eq!(bad.message.as_deref(), Some("duplicate key"));
    assert_eq!(none, None);
}

#[test]
fn password_change_checks_everything_before_hashing() {
    let stored = bcrypt::hash("old pw", 4).unwrap();
    let mismatch = PasswordUpdateModel {
        original_password: "old pw".to_string(),
        new_password: "new pw".to_string(),
        confirm_password: "other".to_string(),
    };
    match prepare_password_update(&mismatch, Some(&stored)) {
        Err(e) => {
            assert_eq!(e.code, 400);
            assert_eq!(
                e.message.as_deref(),
                Some("Mismatch between new-password and confirm-password.")
            );
        }
        Ok(_) => panic!("mismatch must be rejected"),
    }

    let wrong_old = PasswordUpdateModel {
        original_password: "not it".to_string(),
        new_password: "new pw".to_string(),
        confirm_password: "new pw".to_string(),
    };
    match prepare_password_update(&wrong_old, Some(&stored)) {
        Err(e) => {
            assert_eq!(e.code, 401);
            assert_eq!(e.message.as_deref(), Some("Incorrect password."));
        }
        Ok(_) => panic!("wrong old password must be rejected"),
    }

    let no_row = prepare_password_update(&wrong_old, None);
    assert_eq!(no_row.unwrap_err().code, 401);

    let good = PasswordUpdateModel {
        original_password: "old pw".to_string(),
        new_password: "new pw".to_string(),
        confirm_password: "new pw".to_string(),
    };
    let new_hash = prepare_password_update(&good, Some(&stored)).expect("all checks pass");
    let (ok, _) = login_outcome(Some((1, new_hash)), "new pw");
    assert!(ok.success);
}

#[test]
fn password_update_outcome_keeps_this_backends_answers() {
    let ok = password_update_outcome(Ok(()));
    assert!(ok.success);
    assert_eq!(ok.code, 200);
    let bad = password_update_outcome(Err("deadlock".to_string()));
    assert!(bad.success);
    assert_eq!(bad.code, 500);
    assert_eq!(bad.message.as_deref(), Some("deadlock"));
}

#[test]
fn befriending_yourself_or_twice_is_rejected() {
    match validate_add_friend(4, 4) {
        Err(e) => {
            assert_eq!(e.code, 400);
            assert_eq!(e.message.as_deref(), Some("Cannot add yourself as friend."));
        }
        Ok(()) => panic!("self-friendship must be rejected"),
    }
    assert!(validate_add_friend(4, 5).is_ok());

    let already = add_friend_outcome(true, false);
    assert_eq!(already.code, 400);
    assert_eq!(already.message.as_deref(), Some("Already becomes friends."));
    let ok = add_friend_outcome(false, true);
    assert!(ok.success);
    assert_eq!(ok.code, 200);
    let failed = add_friend_outcome(false, false);
    assert_eq!(failed.code, 500);
    assert_eq!(failed.message.as_deref(), Some("Failed to add friends."));
}

#[test]
fn unfriending_needs_an_existing_edge() {
    let missing = delete_friend_outcome(false, false);
    assert_eq!(missing.code, 400);
    assert_eq!(missing.message.as_deref(), Some("Hasn't become friends."));
    let ok = delete_friend_outcome(true, true);
    assert!(ok.success);
    assert_eq!(ok.code, 200);
    let failed = delete_friend_outcome(true, false);
    assert_eq!(failed.code, 500);
    assert_eq!(failed.message.as_deref(), Some("Failed to delete friends."));
}

#[test]
fn logout_always_succeeds() {
    let r = logout_outcome();
    assert!(r.success);
    assert_eq!(r.code, 200);
}

#[test]
fn profiles_come_straight_from_the_rows() {
    let info = user_info_of(user_row(3, "bob"));
    assert_eq!(info.id, 3);
    assert_eq!(info.username, "bob");
    assert_eq!(info.email, "bob@example.org");

    let infos = user_infos_of(vec![user_row(1, "a"), user_row(2, "b")]);
    assert_eq!(infos.len(), 2);
    assert_eq!(infos[0].username, "a");
    assert_eq!(infos[1].username, "b");
}

#[test]
fn page_offsets_count_tens_from_page_one() {
    assert_eq!(HistoryPageModel { page: None }.offset(), 0);
    assert_eq!(HistoryPageModel { page: Some(1) }.offset(), 0);
    assert_eq!(HistoryPageModel { page: Some(3) }.offset(), 20);
    let search = SearchModel { patterns: "%x%".to_string(), page: Some(2) };
    assert_eq!(search.offset(), 10);
}

#[test]
fn the_login_gate_turns_strangers_away() {
    assert_eq!(require_login::<String>(Some(5)), Ok(5));
    match require_login::<String>(None) {
        Err(e) => {
            let _: ResultModel<String> = e.clone();
            assert!(!e.success);
            assert_eq!(e.code, 401);
            assert_eq!(e.message.as_deref(), Some("Not logged in."));
        }
        Ok(_) => panic!("no identity must be rejected"),
    }
}

#[test]
fn identities_read_back_from_their_string_form() {
    assert_eq!(parse_user_id("123"), Some(123));
    assert_eq!(parse_user_id("-45"), Some(-45));
    assert_eq!(parse_user_id("0"), Some(0));
    assert_eq!(parse_user_id(""), None);
    assert_eq!(parse_user_id("12a"), None);
    assert_eq!(parse_user_id("2147483648"), None);
    assert_eq!(parse_user_id("2147483647"), Some(i32::MAX));
}
