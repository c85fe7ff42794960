//! Laws that tie the service operations together: what a read answers
//! after a write, how a failed quiz upsert leaves the store, what a
//! fresh session resolves to, and how the privilege tiers nest.

use vstd::prelude::*;

use crate::api::{ApiError, Status};
use crate::authentication::{session_resolves, session_resolves_admin, session_resolves_moderator};
use crate::labels::{
    json_label_views, json_set_matches_row, label_views_of, labelset_upserted, JsonLabelSet,
};
use crate::quiz::{
    json_quiz_matches_row, json_question_views, quiz_upserted, spec_shuffle, JsonQuiz,
};
use crate::session::Cookies;
use crate::store::{
    has_labelset_id, has_quiz_uuid, has_user_id, labelset_at_uuid, quiz_at_uuid, username_taken,
    Db,
};
use crate::users::{login_outcome, Login};

verus! {

/// Law: an upsert of `data` under `uuid` followed by a read of the same
/// UUID answers an aggregate whose labels are exactly the submitted
/// list, in order, and whose name, model and UUID are the submitted
/// ones.  The hypotheses are the postconditions of `labels::put` and of
/// `labels::load_by_uuid` on the state it left behind.
pub proof fn lemma_labelset_upsert_read_back(
    pre: Db,
    post: Db,
    uuid: Seq<char>,
    data: JsonLabelSet,
    j: JsonLabelSet,
    i: int,
)
    requires
        forall|k: int|
            labelset_at_uuid(post.labelsets@, uuid, k) ==> labelset_upserted(pre, post, data, k),
        labelset_at_uuid(post.labelsets@, uuid, i),
        json_set_matches_row(j, post.labelsets@[i], post.labels@),
    ensures
        json_label_views(j.labels@) == json_label_views(data.labels@),
        j.uuid matches Some(u) && u@ == uuid,
        j.name@ == data.name@,
        j.model == data.model,
{
    assert(labelset_upserted(pre, post, data, i));
    assert(json_label_views(j.labels@) == label_views_of(post.labels@, post.labelsets@[i].id));
}

/// Law: an upsert of a quiz under `uuid` followed by a read of the same
/// UUID answers an aggregate that renders the submitted payload: same
/// name, label set, shuffle flag, and the same stored question fields
/// in the same order.  Server-assigned ids are the one part not
/// compared.
pub proof fn lemma_quiz_upsert_read_back(
    pre: Db,
    post: Db,
    uuid: Seq<char>,
    data: JsonQuiz,
    j: JsonQuiz,
    i: int,
)
    requires
        forall|k: int|
            quiz_at_uuid(post.quizzes@, uuid, k) ==> quiz_upserted(pre, post, data, k),
        quiz_at_uuid(post.quizzes@, uuid, i),
        json_quiz_matches_row(j, post.quizzes@[i], post.questions@),
    ensures
        json_question_views(j.questions@) == json_question_views(data.questions@),
        j.name@ == data.name@,
        j.label_set == data.label_set,
        j.shuffle == data.shuffle,
{
    assert(quiz_upserted(pre, post, data, i));
    assert(j.shuffle == (post.quizzes@[i].shuffle == 1));
    assert(post.quizzes@[i].shuffle == spec_shuffle(data.shuffle));
}

/// Law: a quiz upsert whose `labelSet` does not exist is a no-op, so a
/// UUID that found no quiz before the call still finds none after it.
/// The first two hypotheses are the postcondition of `quiz::add` for a
/// missing label set.
pub proof fn lemma_quiz_upsert_missing_labelset(
    pre: Db,
    post: Db,
    data: JsonQuiz,
    target: Seq<char>,
)
    requires
        !has_labelset_id(pre.labelsets@, data.label_set),
        post == pre,
        !has_quiz_uuid(pre.quizzes@, target),
    ensures
        !has_quiz_uuid(post.quizzes@, target),
{
}

/// Law: a login that answered 200 left a cookie on which the AnyUser
/// guard succeeds, and clearing the cookie, as `logout` does, makes the
/// same guard forward again.  The hypotheses are the postcondition of
/// `login` at the row carrying the submitted username.
pub proof fn lemma_login_then_guard(
    db: Db,
    jar0: Cookies,
    jar1: Cookies,
    data: Login,
    r: Result<Status, ApiError>,
    i: int,
)
    requires
        0 <= i < db.users@.len(),
        db.users@[i].username@ == data.username@,
        login_outcome(db.users@[i], data, r, jar0, jar1),
        r == Ok::<Status, ApiError>(Status::Success),
    ensures
        session_resolves(db, jar1),
        !session_resolves(db, Cookies { user_id: None }),
{
    assert(jar1.user_id == Some(db.users@[i].id));
    assert(has_user_id(db.users@, db.users@[i].id));
}

/// Law: creating an account leaves its username taken, so a second
/// creation under the same name answers 409: `create`'s contract sends
/// every call on a taken name to `Status::Conflict` without touching
/// the store.  The hypotheses are the success clause of
/// `create_user_with_hash`.
pub proof fn lemma_duplicate_username_conflict(pre: Db, post: Db, username: Seq<char>)
    requires
        post.users@.len() == pre.users@.len() + 1,
        post.users@.drop_last() == pre.users@,
        post.users@.last().username@ == username,
    ensures
        username_taken(post.users@, username),
{
    assert(post.users@[post.users@.len() - 1].username@ == username);
}

/// Law: the privilege tiers nest.  A cookie that satisfies the Admin
/// guard satisfies the Moderator guard, and one that satisfies the
/// Moderator guard satisfies the AnyUser guard.
pub proof fn lemma_guard_containment(db: Db, cookies: Cookies)
    ensures
        session_resolves_admin(db, cookies) ==> session_resolves_moderator(db, cookies),
        session_resolves_moderator(db, cookies) ==> session_resolves(db, cookies),
{
    if session_resolves_moderator(db, cookies) {
        let id = cookies.user_id.unwrap();
        let w = choose|w: int|
            0 <= w < db.users@.len() && (#[trigger] db.users@[w]).id == id
                && crate::authentication::is_moderator_privilege(db.users@[w].privilege);
        assert(has_user_id(db.users@, id));
    }
    if session_resolves_admin(db, cookies) {
        let id = cookies.user_id.unwrap();
        let w = choose|w: int|
            0 <= w < db.users@.len() && (#[trigger] db.users@[w]).id == id
                && crate::authentication::is_admin_privilege(db.users@[w].privilege);
        assert(crate::authentication::is_moderator_privilege(db.users@[w].privilege));
    }
}

} // verus!
