//! Account management and session scenarios: admin bootstrap, login,
//! logout, refresh, duplicate usernames and the privilege probes.

use anatomy_backend::api::{ApiError, Status};
use anatomy_backend::authentication::{Admin, Moderator, User};
use anatomy_backend::models;
use anatomy_backend::models::Privilege;
use anatomy_backend::session::Cookies;
use anatomy_backend::store::Db;
use anatomy_backend::users::{
    add_login_cookie, create, login, logout, probe_admin, probe_moderator,
    refresh_session_loggedout, refresh_session_user, remove_login_cookie, Login,
};

fn hash_of(password: &str) -> Vec<u8> {
    let h = sodiumoxide::crypto::pwhash::argon2id13::pwhash(
        password.as_bytes(),
        sodiumoxide::crypto::pwhash::argon2id13::OPSLIMIT_INTERACTIVE,
        sodiumoxide::crypto::pwhash::argon2id13::MEMLIMIT_INTERACTIVE,
    )
    .unwrap();
    h.as_ref().to_vec()
}

/// A store pre-seeded with the admin `{id: 1, username: "root",
/// privilege: 1}` whose password is `x`.
fn seeded() -> Db {
    let mut db = Db::new();
    db.users.push(models::User {
        id: 1,
        username: "root".to_string(),
        password: hash_of("x"),
        privilege: 1,
    });
    db.next_user_id = 2;
    db
}

fn admin_guard(db: &Db, cookies: &Cookies) -> Admin {
    Admin::from_request(db, cookies).expect("admin guard should succeed")
}

#[test]
fn admin_bootstrap() {
    let db = &mut seeded();
    let mut jar = Cookies::empty();

    let r = login(
        db,
        &mut jar,
        &Login { username: "root".to_string(), password: "x".to_string() },
    );
    assert_eq!(r, Ok(Status::Success));
    assert_eq!(jar.user_id, Some(1));

    let admin = admin_guard(db, &jar);
    let r = create(
        db,
        &Login { username: "alice".to_string(), password: "pw".to_string() },
        &admin,
    );
    assert_eq!(r, Ok(Status::Success));

    let mut alice_jar = Cookies::empty();
    let r = login(
        db,
        &mut alice_jar,
        &Login { username: "alice".to_string(), password: "pw".to_string() },
    );
    assert_eq!(r, Ok(Status::Success));

    let r = create(
        db,
        &Login { username: "alice".to_string(), password: "pw2".to_string() },
        &admin,
    );
    assert_eq!(r, Ok(Status::Conflict));
}

#[test]
fn login_unknown_user_is_unauthorized() {
    let db = &mut seeded();
    let mut jar = Cookies::empty();
    let r = login(
        db,
        &mut jar,
        &Login { username: "nobody".to_string(), password: "x".to_string() },
    );
    assert_eq!(r, Ok(Status::Unauthorized));
    assert_eq!(jar.user_id, None);
}

#[test]
fn login_wrong_password_is_unauthorized() {
    let db = &mut seeded();
    let mut jar = Cookies::empty();
    let r = login(
        db,
        &mut jar,
        &Login { username: "root".to_string(), password: "wrong".to_string() },
    );
    assert_eq!(r, Ok(Status::Unauthorized));
    assert_eq!(jar.user_id, None);
}

#[test]
fn login_corrupt_blob_is_storage_error() {
    let mut db = Db::new();
    db.users.push(models::User {
        id: 1,
        username: "root".to_string(),
        password: vec![1, 2, 3],
        privilege: 1,
    });
    db.next_user_id = 2;
    let mut jar = Cookies::empty();
    let r = login(
        &db,
        &mut jar,
        &Login { username: "root".to_string(), password: "x".to_string() },
    );
    assert_eq!(r, Err(ApiError::RecoverHash));
}

#[test]
fn login_then_guard_then_logout() {
    let db = &mut seeded();
    let mut jar = Cookies::empty();
    let r = login(
        db,
        &mut jar,
        &Login { username: "root".to_string(), password: "x".to_string() },
    );
    assert_eq!(r, Ok(Status::Success));
    assert!(User::from_request(db, &jar).is_some());

    logout(&mut jar);
    assert!(User::from_request(db, &jar).is_none());
}

#[test]
fn refresh_keeps_user_and_clears_stale() {
    let db = &mut seeded();
    let mut jar = Cookies::empty();
    add_login_cookie(&mut jar, 1);
    let user = User::from_request(db, &jar).unwrap();
    refresh_session_user(&user, &mut jar);
    assert_eq!(jar.user_id, Some(1));

    let mut stale = Cookies { user_id: Some(999) };
    let r = refresh_session_loggedout(&mut stale);
    assert_eq!(r, Status::Unauthorized);
    assert_eq!(stale.user_id, None);
}

#[test]
fn privilege_probes() {
    let mut db = seeded();
    // a regular user beside the admin
    db.users.push(models::User {
        id: 2,
        username: "bob".to_string(),
        password: hash_of("b"),
        privilege: 0,
    });
    db.next_user_id = 3;

    let anonymous = Cookies::empty();
    assert_eq!(probe_admin(&db, &anonymous), None);
    assert_eq!(probe_moderator(&db, &anonymous), None);

    let bob = Cookies { user_id: Some(2) };
    assert_eq!(probe_admin(&db, &bob), Some(false));
    assert_eq!(probe_moderator(&db, &bob), Some(false));

    let root = Cookies { user_id: Some(1) };
    assert_eq!(probe_admin(&db, &root), Some(true));
    assert_eq!(probe_moderator(&db, &root), Some(true));

    assert!(Moderator::from_request(&db, &bob).is_none());
    assert!(Moderator::from_request(&db, &root).is_some());
}

#[test]
fn remove_login_cookie_is_idempotent() {
    let mut jar = Cookies { user_id: Some(7) };
    remove_login_cookie(&mut jar);
    assert_eq!(jar.user_id, None);
    remove_login_cookie(&mut jar);
    assert_eq!(jar.user_id, None);
}

#[test]
fn privilege_wire_integers() {
    assert_eq!(Privilege::try_from_i32(0), Some(Privilege::User));
    assert_eq!(Privilege::try_from_i32(1), Some(Privilege::Administrator));
    assert_eq!(Privilege::try_from_i32(2), Some(Privilege::Moderator));
    assert_eq!(Privilege::try_from_i32(7), None);
    assert_eq!(Privilege::User.to_i32(), 0);
    assert_eq!(Privilege::Administrator.to_i32(), 1);
    assert_eq!(Privilege::Moderator.to_i32(), 2);
}
