//! Account management and session endpoints: login, logout, session
//! refresh, admin-only account creation, and the privilege probes.

use vstd::prelude::*;

use crate::api::{ApiError, Status};
use crate::authentication::{
    session_resolves, session_resolves_admin, session_resolves_moderator, Admin, Moderator, User,
};
use crate::crypto::{password_verifies, pwhash, pwhash_verify, HASHED_PASSWORD_LEN};

use crate::session::Cookies;
use crate::store::{find_user_by_name, username_taken, Db};

pub mod labelsets;
pub mod quizzes;

verus! {

/// Credentials of a login or account-creation request.
pub struct Login {
    pub username: String,
    pub password: String,
}

/// Set the session cookie to this user id.
pub fn add_login_cookie(cookies: &mut Cookies, user_id: i32)
    ensures
        final(cookies).user_id == Some(user_id),
{
    cookies.user_id = Some(user_id);
}

/// Remove the session cookie if one is present.  Idempotent.
pub fn remove_login_cookie(cookies: &mut Cookies)
    ensures
        final(cookies).user_id is None,
{
    cookies.user_id = None;
}

/// `POST /users/login`: load the user by name; 401 when there is none
/// or the password does not match; 500 when the stored blob cannot be
/// recovered; on a match, seal a fresh session cookie and answer 200.
pub fn login(db: &Db, cookies: &mut Cookies, data: &Login) -> (r: Result<Status, ApiError>)
    requires
        db.wf(),
    ensures
        !username_taken(db.users@, data.username@) ==> r == Ok::<Status, ApiError>(
            Status::Unauthorized,
        ) && *final(cookies) == *old(cookies),
        forall|i: int|
            0 <= i < db.users@.len() && (#[trigger] db.users@[i]).username@ == data.username@
                ==> login_outcome(db.users@[i], *data, r, *old(cookies), *final(cookies)),
{
    match find_user_by_name(&db.users, &data.username) {
        None => Ok(Status::Unauthorized),
        Some(i) => {
            let user = &db.users[i];
            proof {
                lemma_username_unique(*db, data.username@, i as int);
            }
            if user.password.len() != HASHED_PASSWORD_LEN {
                return Err(ApiError::RecoverHash);
            }
            let matches_pw = pwhash_verify(user.password.as_slice(), data.password.as_str());
            if !matches_pw {
                return Ok(Status::Unauthorized);
            }
            add_login_cookie(cookies, user.id);
            Ok(Status::Success)
        },
    }
}

/// What `login` answers and leaves in the jar for the user row carrying
/// the submitted name.
pub open spec fn login_outcome(
    u: crate::models::User,
    data: Login,
    r: Result<Status, ApiError>,
    jar0: Cookies,
    jar1: Cookies,
) -> bool {
    if u.password@.len() != HASHED_PASSWORD_LEN {
        r == Err::<Status, ApiError>(ApiError::RecoverHash) && jar1 == jar0
    } else if password_verifies(u.password@, data.password@) {
        r == Ok::<Status, ApiError>(Status::Success) && jar1.user_id == Some(u.id)
    } else {
        r == Ok::<Status, ApiError>(Status::Unauthorized) && jar1 == jar0
    }
}

/// Under the store invariant, at most one row carries a username.
proof fn lemma_username_unique(db: Db, name: Seq<char>, w: int)
    requires
        db.wf(),
        0 <= w < db.users@.len(),
        db.users@[w].username@ == name,
    ensures
        forall|i: int|
            0 <= i < db.users@.len() && (#[trigger] db.users@[i]).username@ == name ==> i == w,
{
    assert forall|i: int|
        0 <= i < db.users@.len() && (#[trigger] db.users@[i]).username@ == name implies i
        == w by {
        if i < w {
            assert(db.users@[i].username@ != db.users@[w].username@);
        } else if i > w {
            assert(db.users@[w].username@ != db.users@[i].username@);
        }
    }
}

/// `POST /users/logout`: clear the session cookie.  Idempotent.
pub fn logout(cookies: &mut Cookies)
    ensures
        final(cookies).user_id is None,
{
    remove_login_cookie(cookies);
}

/// Insert the new account row once the password blob is in hand:
/// 409 when the username is taken, 200 otherwise.
pub fn create_user_with_hash(db: &mut Db, username: &String, hash: Vec<u8>) -> (r: Status)
    requires
        old(db).wf(),
        old(db).next_user_id < i32::MAX,
    ensures
        final(db).wf(),
        username_taken(old(db).users@, username@) ==> r == Status::Conflict && *final(db) == *old(db),
        !username_taken(old(db).users@, username@) ==> r == Status::Success && final(db).users@.len() == old(db).users@.len() + 1 && final(db).users@.drop_last() == old(db).users@ && final(db).users@.last().id == old(db).next_user_id && final(db).users@.last().username@ == username@ && final(db).users@.last().password@ == hash@
            && final(db).users@.last().privilege == 0 && final(db).next_user_id == old(db).next_user_id + 1,
        final(db).models@ == old(db).models@,
        final(db).labelsets@ == old(db).labelsets@,
        final(db).labels@ == old(db).labels@,
        final(db).quizzes@ == old(db).quizzes@,
        final(db).questions@ == old(db).questions@,
        final(db).userlabelsets@ == old(db).userlabelsets@,
        final(db).userquizzes@ == old(db).userquizzes@,
        old(db).next_user_id <= final(db).next_user_id <= old(db).next_user_id + 1,
        final(db).next_model_id == old(db).next_model_id,
        final(db).next_labelset_id == old(db).next_labelset_id,
        final(db).next_label_id == old(db).next_label_id,
        final(db).next_quiz_id == old(db).next_quiz_id,
        final(db).next_question_id == old(db).next_question_id,
{
    match find_user_by_name(&db.users, username) {
        Some(_) => Status::Conflict,
        None => {
            let row = crate::models::User {
                id: db.next_user_id,
                username: username.clone(),
                password: hash,
                privilege: 0,
            };
            db.users.push(row);
            db.next_user_id = db.next_user_id + 1;
            proof {
                assert(db.users@.drop_last() =~= old(db).users@);
                assert forall|i: int|
                    0 <= i < db.userlabelsets@.len() implies crate::store::has_user_id(
                    db.users@,
                    #[trigger] db.userlabelsets@[i].userid,
                ) by {
                    assert(crate::store::has_user_id(old(db).users@, db.userlabelsets@[i].userid));
                    let m = choose|m: int|
                        0 <= m < old(db).users@.len() && old(db).users@[m].id == db.userlabelsets@[
                            i
                        ].userid;
                    assert(db.users@[m].id == db.userlabelsets@[i].userid);
                }
                assert forall|i: int|
                    0 <= i < db.userquizzes@.len() implies crate::store::has_user_id(
                    db.users@,
                    #[trigger] db.userquizzes@[i].userid,
                ) by {
                    assert(crate::store::has_user_id(old(db).users@, db.userquizzes@[i].userid));
                    let m = choose|m: int|
                        0 <= m < old(db).users@.len() && old(db).users@[m].id == db.userquizzes@[
                            i
                        ].userid;
                    assert(db.users@[m].id == db.userquizzes@[i].userid);
                }
            }
            Status::Success
        },
    }
}

/// `PUT /users/create` (Admin): hash the password at interactive cost
/// and insert a fresh account at the lowest tier.  A taken username
/// answers 409; a hashing failure surfaces as a 500.
pub fn create(db: &mut Db, data: &Login, _auth: &Admin) -> (r: Result<Status, ApiError>)
    requires
        old(db).wf(),
        old(db).next_user_id < i32::MAX,
    ensures
        final(db).wf(),
        username_taken(old(db).users@, data.username@) ==> r == Ok::<Status, ApiError>(
            Status::Conflict,
        ) && *final(db) == *old(db),
        !username_taken(old(db).users@, data.username@) ==> match r {
            Ok(s) => {
                &&& s == Status::Success
                &&& final(db).users@.len() == old(db).users@.len() + 1
                &&& final(db).users@.drop_last() == old(db).users@
                &&& final(db).users@.last().id == old(db).next_user_id
                &&& final(db).users@.last().username@ == data.username@
                &&& final(db).users@.last().privilege == 0
                &&& final(db).users@.last().password@.len() == HASHED_PASSWORD_LEN
                &&& password_verifies(final(db).users@.last().password@, data.password@)
            },
            Err(e) => e == ApiError::HashFailed && *final(db) == *old(db),
        },
        final(db).models@ == old(db).models@,
        final(db).labelsets@ == old(db).labelsets@,
        final(db).labels@ == old(db).labels@,
        final(db).quizzes@ == old(db).quizzes@,
        final(db).questions@ == old(db).questions@,
        final(db).userlabelsets@ == old(db).userlabelsets@,
        final(db).userquizzes@ == old(db).userquizzes@,
        old(db).next_user_id <= final(db).next_user_id <= old(db).next_user_id + 1,
        final(db).next_model_id == old(db).next_model_id,
        final(db).next_labelset_id == old(db).next_labelset_id,
        final(db).next_label_id == old(db).next_label_id,
        final(db).next_quiz_id == old(db).next_quiz_id,
        final(db).next_question_id == old(db).next_question_id,
{
    match find_user_by_name(&db.users, &data.username) {
        Some(_) => Ok(Status::Conflict),
        None => {
            match pwhash(data.password.as_str()) {
                None => Err(ApiError::HashFailed),
                Some(hash) => Ok(create_user_with_hash(db, &data.username, hash)),
            }
        },
    }
}

/// `GET /users/isadmin`, first-ranked route: an Admin-guarded constant.
pub fn is_admin(_admin: &Admin) -> (r: bool)
    ensures
        r,
{
    true
}

/// `GET /users/isadmin`, fallback route: any authenticated user who did
/// not match the first route is no administrator.
pub fn is_not_admin(_user: &User) -> (r: bool)
    ensures
        !r,
{
    false
}

/// `GET /users/ismoderator`, first-ranked route.
pub fn is_moderator(_moderator: &Moderator) -> (r: bool)
    ensures
        r,
{
    true
}

/// `GET /users/ismoderator`, fallback route.
pub fn is_not_moderator(_user: &User) -> (r: bool)
    ensures
        !r,
{
    false
}

/// Route resolution for `GET /users/isadmin`: the Admin-guarded route
/// ranks above the AnyUser fallback, and an anonymous caller matches
/// neither, which the client sees as a 404.
pub fn probe_admin(db: &Db, cookies: &Cookies) -> (r: Option<bool>)
    requires
        db.wf(),
    ensures
        r is Some <==> session_resolves(*db, *cookies),
        r == Some(true) <==> session_resolves_admin(*db, *cookies),
{
    match Admin::from_request(db, cookies) {
        Some(admin) => Some(is_admin(&admin)),
        None => {
            match User::from_request(db, cookies) {
                Some(user) => Some(is_not_admin(&user)),
                None => None,
            }
        },
    }
}

/// Route resolution for `GET /users/ismoderator`, as for `probe_admin`.
pub fn probe_moderator(db: &Db, cookies: &Cookies) -> (r: Option<bool>)
    requires
        db.wf(),
    ensures
        r is Some <==> session_resolves(*db, *cookies),
        r == Some(true) <==> session_resolves_moderator(*db, *cookies),
{
    match Moderator::from_request(db, cookies) {
        Some(moderator) => Some(is_moderator(&moderator)),
        None => {
            match User::from_request(db, cookies) {
                Some(user) => Some(is_not_moderator(&user)),
                None => None,
            }
        },
    }
}

/// `POST /users/refresh`, first-ranked route: an authenticated session
/// is renewed under the same user id.
pub fn refresh_session_user(user: &User, cookies: &mut Cookies)
    ensures
        final(cookies).user_id == Some(user.0.id),
{
    let user_id = user.0.id;
    remove_login_cookie(cookies);
    add_login_cookie(cookies, user_id);
}

/// `POST /users/refresh`, fallback route: no session resolved, so any
/// stale cookie is cleared and the caller sees 401.
pub fn refresh_session_loggedout(cookies: &mut Cookies) -> (r: Status)
    ensures
        final(cookies).user_id is None,
        r == Status::Unauthorized,
{
    remove_login_cookie(cookies);
    Status::Unauthorized
}

} // verus!
