//! User–quiz membership: which quizzes a user has added, with add,
//! remove and list, all behind the AnyUser guard.

use vstd::prelude::*;

use crate::api::ApiError;
use crate::authentication::User;
use crate::models::{Quiz, UserQuiz};
use crate::store::{
    find_quiz_by_uuid, find_user_quiz, has_quiz_uuid, has_user_quiz, quiz_at_uuid, Db,
};

verus! {

/// Wire form of one membership entry: the quiz's id, UUID and name.
pub struct JsonUserQuiz {
    pub id: i32,
    pub uuid: String,
    pub name: String,
}

/// Ghost record of the wire-visible fields of one entry.
#[verifier::ext_equal]
pub ghost struct UserQuizFields {
    pub id: i32,
    pub uuid: Seq<char>,
    pub name: Seq<char>,
}

/// Wire-visible fields of a stored quiz row.
pub open spec fn quiz_entry_fields(q: Quiz) -> UserQuizFields {
    UserQuizFields { id: q.id, uuid: q.uuid@, name: q.name@ }
}

/// Wire-visible fields of a listed entry.
pub open spec fn json_quiz_entry_fields(j: JsonUserQuiz) -> UserQuizFields {
    UserQuizFields { id: j.id, uuid: j.uuid@, name: j.name@ }
}

impl JsonUserQuiz {
    /// Wire form of one stored quiz row.
    pub fn from_quiz(quiz: &Quiz) -> (r: JsonUserQuiz)
        ensures
            json_quiz_entry_fields(r) == quiz_entry_fields(*quiz),
    {
        JsonUserQuiz { id: quiz.id, uuid: quiz.uuid.clone(), name: quiz.name.clone() }
    }
}

/// Under the store invariant, at most one quiz row carries a UUID.
pub proof fn lemma_quiz_uuid_unique(db: Db, uuid: Seq<char>, w: int)
    requires
        db.wf(),
        quiz_at_uuid(db.quizzes@, uuid, w),
    ensures
        forall|i: int| quiz_at_uuid(db.quizzes@, uuid, i) ==> i == w,
{
    assert forall|i: int| quiz_at_uuid(db.quizzes@, uuid, i) implies i == w by {
        if i < w {
            assert(db.quizzes@[i].uuid@ != db.quizzes@[w].uuid@);
        } else if i > w {
            assert(db.quizzes@[w].uuid@ != db.quizzes@[i].uuid@);
        }
    }
}

/// All tables and counters besides `userquizzes` are as before.
pub open spec fn unchanged_but_user_quizzes(pre: Db, post: Db) -> bool {
    &&& post.users@ == pre.users@
    &&& post.models@ == pre.models@
    &&& post.labelsets@ == pre.labelsets@
    &&& post.labels@ == pre.labels@
    &&& post.quizzes@ == pre.quizzes@
    &&& post.questions@ == pre.questions@
    &&& post.userlabelsets@ == pre.userlabelsets@
    &&& post.next_user_id == pre.next_user_id
    &&& post.next_model_id == pre.next_model_id
    &&& post.next_labelset_id == pre.next_labelset_id
    &&& post.next_label_id == pre.next_label_id
    &&& post.next_quiz_id == pre.next_quiz_id
    &&& post.next_question_id == pre.next_question_id
}

/// `PUT /users/quizzes/<uuid>`: resolve the quiz; 404 when absent;
/// insert the membership pair.  Re-adding an existing pair violates
/// the composite key and surfaces as a storage error.
pub fn add(db: &mut Db, uuid: &String, user: &User) -> (r: Result<Option<()>, ApiError>)
    requires
        old(db).wf(),
        crate::store::has_user_id(old(db).users@, user.0.id),
    ensures
        final(db).wf(),
        !has_quiz_uuid(old(db).quizzes@, uuid@) ==> r == Ok::<Option<()>, ApiError>(None)
            && *final(db) == *old(db),
        forall|i: int|
            #[trigger] quiz_at_uuid(old(db).quizzes@, uuid@, i) ==> {
                let qid = old(db).quizzes@[i].id;
                if has_user_quiz(old(db).userquizzes@, user.0.id, qid) {
                    r == Err::<Option<()>, ApiError>(ApiError::Storage) && *final(db) == *old(db)
                } else {
                    r == Ok::<Option<()>, ApiError>(Some(())) && final(db).userquizzes@ == old(db).userquizzes@.push(UserQuiz { userid: user.0.id, quiz: qid })
                        && unchanged_but_user_quizzes(*old(db), *final(db))
                }
            },
{
    let found = find_quiz_by_uuid(&db.quizzes, uuid);
    match found {
        None => Ok(None),
        Some(i) => {
            let qid = db.quizzes[i].id;
            proof {
                lemma_quiz_uuid_unique(*db, uuid@, i as int);
            }
            match find_user_quiz(&db.userquizzes, user.0.id, qid) {
                Some(_) => Err(ApiError::Storage),
                None => {
                    db.userquizzes.push(UserQuiz { userid: user.0.id, quiz: qid });
                    proof {
                        assert(crate::store::has_quiz_id(db.quizzes@, qid));
                    }
                    Ok(Some(()))
                },
            }
        },
    }
}

/// `DELETE /users/quizzes/<uuid>`: resolve the quiz; 404 when absent;
/// delete the one membership row of this user, 404 when none was
/// present.  The composite key makes more than one row impossible.
pub fn delete(db: &mut Db, uuid: &String, user: &User) -> (r: Result<Option<()>, ApiError>)
    requires
        old(db).wf(),
    ensures
        final(db).wf(),
        !has_quiz_uuid(old(db).quizzes@, uuid@) ==> r == Ok::<Option<()>, ApiError>(None)
            && *final(db) == *old(db),
        forall|i: int|
            #[trigger] quiz_at_uuid(old(db).quizzes@, uuid@, i) ==> {
                let qid = old(db).quizzes@[i].id;
                if has_user_quiz(old(db).userquizzes@, user.0.id, qid) {
                    r == Ok::<Option<()>, ApiError>(Some(())) && !has_user_quiz(
                        final(db).userquizzes@,
                        user.0.id,
                        qid,
                    ) && unchanged_but_user_quizzes(*old(db), *final(db)) && final(db).userquizzes@.len() + 1 == old(db).userquizzes@.len()
                } else {
                    r == Ok::<Option<()>, ApiError>(None) && *final(db) == *old(db)
                }
            },
{
    let found = find_quiz_by_uuid(&db.quizzes, uuid);
    match found {
        None => Ok(None),
        Some(i) => {
            let qid = db.quizzes[i].id;
            proof {
                lemma_quiz_uuid_unique(*db, uuid@, i as int);
            }
            match find_user_quiz(&db.userquizzes, user.0.id, qid) {
                None => Ok(None),
                Some(k) => {
                    let ghost pre_rows = db.userquizzes@;
                    db.userquizzes.remove(k);
                    proof {
                        assert forall|m: int|
                            0 <= m < db.userquizzes@.len() implies !(
                        (#[trigger] db.userquizzes@[m]).userid == user.0.id
                            && db.userquizzes@[m].quiz == qid) by {
                            if m < k as int {
                                assert(db.userquizzes@[m] == pre_rows[m]);
                                if pre_rows[m].userid == user.0.id && pre_rows[m].quiz == qid {
                                    assert(false);
                                }
                            } else {
                                assert(db.userquizzes@[m] == pre_rows[m + 1]);
                                if pre_rows[m + 1].userid == user.0.id && pre_rows[m + 1].quiz
                                    == qid {
                                    assert(false);
                                }
                            }
                        }
                    }
                    Ok(Some(()))
                },
            }
        },
    }
}

/// Predicate: user `uid` has added this quiz.
pub open spec fn member_quiz_of_user(rows: Seq<UserQuiz>, uid: i32) -> spec_fn(Quiz) -> bool {
    |q: Quiz| has_user_quiz(rows, uid, q.id)
}

/// Field projection of a list of quiz rows.
pub open spec fn quiz_entry_views(qs: Seq<Quiz>) -> Seq<UserQuizFields> {
    qs.map_values(|q: Quiz| quiz_entry_fields(q))
}

/// Field projection of a listed answer.
pub open spec fn json_quiz_entry_views(js: Seq<JsonUserQuiz>) -> Seq<UserQuizFields> {
    js.map_values(|j: JsonUserQuiz| json_quiz_entry_fields(j))
}

/// The wire-visible entries `GET /users/quizzes` answers: the quizzes
/// whose id the user has added, in table order.
pub open spec fn user_quiz_views(db: Db, uid: i32) -> Seq<UserQuizFields> {
    quiz_entry_views(db.quizzes@.filter(member_quiz_of_user(db.userquizzes@, uid)))
}

/// `GET /users/quizzes`: list the quizzes this user has added.
pub fn get(db: &Db, user: &User) -> (r: Vec<JsonUserQuiz>)
    ensures
        json_quiz_entry_views(r@) == user_quiz_views(*db, user.0.id),
{
    let mut out: Vec<JsonUserQuiz> = Vec::new();
    let n = db.quizzes.len();
    let mut i: usize = 0;
    proof {
        reveal(Seq::filter);
        assert(json_quiz_entry_views(out@) =~= quiz_entry_views(
            db.quizzes@.take(0).filter(member_quiz_of_user(db.userquizzes@, user.0.id)),
        ));
    }
    while i < n
        invariant
            i <= n,
            n == db.quizzes@.len(),
            json_quiz_entry_views(out@) == quiz_entry_views(
                db.quizzes@.take(i as int).filter(
                    member_quiz_of_user(db.userquizzes@, user.0.id),
                ),
            ),
        decreases n - i,
    {
        let ghost pred = member_quiz_of_user(db.userquizzes@, user.0.id);
        let ghost t0 = db.quizzes@.take(i as int);
        let ghost t1 = db.quizzes@.take(i as int + 1);
        let ghost out0 = out@;
        proof {
            reveal(Seq::filter);
            assert(t1.drop_last() =~= t0);
            assert(t1.last() == db.quizzes@[i as int]);
        }
        let quiz = &db.quizzes[i];
        let member = find_user_quiz(&db.userquizzes, user.0.id, quiz.id);
        if member.is_some() {
            let entry = JsonUserQuiz::from_quiz(quiz);
            let ghost ev = entry;
            out.push(entry);
            proof {
                assert(pred(db.quizzes@[i as int]));
                assert(t1.filter(pred) == t0.filter(pred).push(db.quizzes@[i as int]));
                assert(out@.len() == out0.len() + 1);
                assert(json_quiz_entry_views(out0).len() == out0.len());
                assert(json_quiz_entry_views(out@).len() == out@.len());
                assert(quiz_entry_views(t1.filter(pred)).len() == t1.filter(pred).len());
                assert forall|k: int|
                    0 <= k < json_quiz_entry_views(out@).len() implies json_quiz_entry_views(
                    out@,
                )[k] =~~= quiz_entry_views(t1.filter(pred))[k] by {
                    if k < out0.len() {
                        assert(out@[k] == out0[k]);
                        assert(json_quiz_entry_views(out0)[k] == json_quiz_entry_fields(out0[k]));
                        assert(t1.filter(pred)[k] == t0.filter(pred)[k]);
                    } else {
                        assert(out@[k] == ev);
                        assert(t1.filter(pred)[k] == db.quizzes@[i as int]);
                    }
                }
                assert(json_quiz_entry_views(out@) =~~= quiz_entry_views(t1.filter(pred)));
            }
        } else {
            proof {
                assert(!pred(db.quizzes@[i as int]));
                assert(t1.filter(pred) == t0.filter(pred));
            }
        }
        i += 1;
    }
    proof {
        assert(db.quizzes@.take(n as int) =~= db.quizzes@);
    }
    out
}

} // verus!
