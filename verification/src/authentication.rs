//! Per-request identity guards.  The `AnyUser` guard resolves the
//! session cookie to a row of `users`; the `Moderator` and `Admin`
//! guards narrow it by privilege tier.  A guard that fails forwards:
//! the route does not match, and the client sees a 404.

use vstd::prelude::*;

use crate::models::Privilege;
use crate::session::Cookies;
use crate::store::{find_user_by_id, has_user_id, Db};

verus! {

/// An authenticated request: the session cookie resolved to a user row.
pub struct User(pub crate::models::User);

/// An authenticated request by a moderator or administrator.
pub struct Moderator(pub crate::models::User);

/// An authenticated request by an administrator.
pub struct Admin(pub crate::models::User);

/// The session cookie carries an id that loads a row of `users`.
pub open spec fn session_resolves(db: Db, cookies: Cookies) -> bool {
    match cookies.user_id {
        Some(id) => has_user_id(db.users@, id),
        None => false,
    }
}

/// `row` and `u` carry the same user: same id, name, stored blob and
/// privilege.
pub open spec fn user_matches(row: crate::models::User, u: crate::models::User) -> bool {
    &&& row.id == u.id
    &&& row.username@ == u.username@
    &&& row.password@ == u.password@
    &&& row.privilege == u.privilege
}

/// The stored privilege integer denotes the moderator tier or higher.
pub open spec fn is_moderator_privilege(p: i32) -> bool {
    Privilege::spec_from_i32(p) == Some(Privilege::Moderator) || Privilege::spec_from_i32(p)
        == Some(Privilege::Administrator)
}

/// The stored privilege integer denotes the administrator tier.
pub open spec fn is_admin_privilege(p: i32) -> bool {
    Privilege::spec_from_i32(p) == Some(Privilege::Administrator)
}

/// The cookie resolves to a row of at least the moderator tier.
pub open spec fn session_resolves_moderator(db: Db, cookies: Cookies) -> bool {
    match cookies.user_id {
        Some(id) => exists|i: int|
            0 <= i < db.users@.len() && (#[trigger] db.users@[i]).id == id
                && is_moderator_privilege(db.users@[i].privilege),
        None => false,
    }
}

/// The cookie resolves to a row of the administrator tier.
pub open spec fn session_resolves_admin(db: Db, cookies: Cookies) -> bool {
    match cookies.user_id {
        Some(id) => exists|i: int|
            0 <= i < db.users@.len() && (#[trigger] db.users@[i]).id == id
                && is_admin_privilege(db.users@[i].privilege),
        None => false,
    }
}

impl User {
    /// The AnyUser guard: succeeds exactly when the cookie carries the
    /// id of a stored user, handing out that user's row.
    pub fn from_request(db: &Db, cookies: &Cookies) -> (r: Option<User>)
        ensures
            r is Some <==> session_resolves(*db, *cookies),
            r matches Some(u) ==> cookies.user_id == Some(u.0.id) && exists|i: int|
                0 <= i < db.users@.len() && user_matches(#[trigger] db.users@[i], u.0),
    {
        match cookies.user_id {
            None => None,
            Some(id) => {
                match find_user_by_id(&db.users, id) {
                    None => None,
                    Some(i) => {
                        let row = &db.users[i];
                        let u = crate::models::User {
                            id: row.id,
                            username: row.username.clone(),
                            password: row.password.clone(),
                            privilege: row.privilege,
                        };
                        proof {
                            assert(user_matches(db.users@[i as int], u));
                        }
                        Some(User(u))
                    },
                }
            },
        }
    }
}

impl Moderator {
    /// The Moderator guard: the AnyUser guard, then the privilege must
    /// denote the moderator tier or higher.
    pub fn from_request(db: &Db, cookies: &Cookies) -> (r: Option<Moderator>)
        requires
            db.wf(),
        ensures
            r is Some <==> session_resolves_moderator(*db, *cookies),
            r matches Some(m) ==> cookies.user_id == Some(m.0.id) && is_moderator_privilege(
                m.0.privilege,
            ) && exists|i: int|
                0 <= i < db.users@.len() && user_matches(#[trigger] db.users@[i], m.0),
    {
        match User::from_request(db, cookies) {
            None => None,
            Some(u) => {
                match Privilege::try_from_i32(u.0.privilege) {
                    Some(Privilege::Moderator) | Some(Privilege::Administrator) => {
                        proof {
                            lemma_resolved_row_unique(*db, *cookies, u.0);
                        }
                        Some(Moderator(u.0))
                    },
                    _ => {
                        proof {
                            lemma_resolved_row_unique(*db, *cookies, u.0);
                        }
                        None
                    },
                }
            },
        }
    }
}

impl Admin {
    /// The Admin guard: the AnyUser guard, then the privilege must
    /// denote the administrator tier.
    pub fn from_request(db: &Db, cookies: &Cookies) -> (r: Option<Admin>)
        requires
            db.wf(),
        ensures
            r is Some <==> session_resolves_admin(*db, *cookies),
            r matches Some(a) ==> cookies.user_id == Some(a.0.id) && is_admin_privilege(
                a.0.privilege,
            ) && exists|i: int|
                0 <= i < db.users@.len() && user_matches(#[trigger] db.users@[i], a.0),
    {
        match User::from_request(db, cookies) {
            None => None,
            Some(u) => {
                if u.0.privilege == 1 {
                    proof {
                        lemma_resolved_row_unique(*db, *cookies, u.0);
                    }
                    Some(Admin(u.0))
                } else {
                    proof {
                        lemma_resolved_row_unique(*db, *cookies, u.0);
                    }
                    None
                }
            },
        }
    }
}

/// Under unique user ids, every row carrying the resolved id has the
/// same fields as the handed-out user.
proof fn lemma_resolved_row_unique(db: Db, cookies: Cookies, u: crate::models::User)
    requires
        db.wf(),
        cookies.user_id == Some(u.id),
        exists|i: int| 0 <= i < db.users@.len() && user_matches(#[trigger] db.users@[i], u),
    ensures
        forall|i: int|
            0 <= i < db.users@.len() && (#[trigger] db.users@[i]).id == u.id ==> user_matches(
                db.users@[i],
                u,
            ),
{
    let w = choose|w: int| 0 <= w < db.users@.len() && user_matches(#[trigger] db.users@[w], u);
    assert forall|i: int|
        0 <= i < db.users@.len() && (#[trigger] db.users@[i]).id == u.id implies user_matches(
        db.users@[i],
        u,
    ) by {
        if i < w {
            assert(db.users@[i].id != db.users@[w].id);
        } else if i > w {
            assert(db.users@[w].id != db.users@[i].id);
        }
    }
}

} // verus!
