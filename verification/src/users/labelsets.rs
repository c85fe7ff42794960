//! User–label-set membership: which label sets a user has added, with
//! add, remove and list, all behind the AnyUser guard.

use vstd::prelude::*;

use crate::api::ApiError;
use crate::authentication::User;
use crate::models::{LabelSet, UserLabelSet};
use crate::store::{
    find_labelset_by_uuid, find_user_labelset, has_labelset_uuid, has_user_labelset,
    labelset_at_uuid, Db,
};

verus! {

/// Wire form of one membership entry: the set's name, id and UUID.
pub struct JsonUserLabelSets {
    pub name: String,
    pub id: i32,
    pub uuid: String,
}

/// Ghost record of the wire-visible fields of one entry.
#[verifier::ext_equal]
pub ghost struct UserSetFields {
    pub name: Seq<char>,
    pub id: i32,
    pub uuid: Seq<char>,
}

/// Wire-visible fields of a stored set row.
pub open spec fn set_entry_fields(s: LabelSet) -> UserSetFields {
    UserSetFields { name: s.name@, id: s.id, uuid: s.uuid@ }
}

/// Wire-visible fields of a listed entry.
pub open spec fn json_entry_fields(j: JsonUserLabelSets) -> UserSetFields {
    UserSetFields { name: j.name@, id: j.id, uuid: j.uuid@ }
}

impl JsonUserLabelSets {
    /// Wire form of one stored set row.
    pub fn from_set(set: &LabelSet) -> (r: JsonUserLabelSets)
        ensures
            json_entry_fields(r) == set_entry_fields(*set),
    {
        JsonUserLabelSets { name: set.name.clone(), id: set.id, uuid: set.uuid.clone() }
    }
}

/// `PUT /users/labelsets/<uuid>`: resolve the set; 404 when absent;
/// insert the membership pair.  Re-adding an existing pair violates
/// the composite key and surfaces as a storage error.
pub fn add(db: &mut Db, uuid: &String, user: &User) -> (r: Result<Option<()>, ApiError>)
    requires
        old(db).wf(),
        crate::store::has_user_id(old(db).users@, user.0.id),
    ensures
        final(db).wf(),
        !has_labelset_uuid(old(db).labelsets@, uuid@) ==> r == Ok::<Option<()>, ApiError>(None)
            && *final(db) == *old(db),
        forall|i: int|
            #[trigger] labelset_at_uuid(old(db).labelsets@, uuid@, i) ==> {
                let sid = old(db).labelsets@[i].id;
                if has_user_labelset(old(db).userlabelsets@, user.0.id, sid) {
                    r == Err::<Option<()>, ApiError>(ApiError::Storage) && *final(db) == *old(db)
                } else {
                    r == Ok::<Option<()>, ApiError>(Some(())) && final(db).userlabelsets@ == old(db).userlabelsets@.push(UserLabelSet { userid: user.0.id, labelset: sid })
                        && unchanged_but_user_labelsets(*old(db), *final(db))
                }
            },
{
    let found = find_labelset_by_uuid(&db.labelsets, uuid);
    match found {
        None => Ok(None),
        Some(i) => {
            let sid = db.labelsets[i].id;
            proof {
                lemma_labelset_uuid_unique(*db, uuid@, i as int);
            }
            match find_user_labelset(&db.userlabelsets, user.0.id, sid) {
                Some(_) => Err(ApiError::Storage),
                None => {
                    db.userlabelsets.push(UserLabelSet { userid: user.0.id, labelset: sid });
                    Ok(Some(()))
                },
            }
        },
    }
}

/// All tables and counters besides `userlabelsets` are as before.
pub open spec fn unchanged_but_user_labelsets(pre: Db, post: Db) -> bool {
    &&& post.users@ == pre.users@
    &&& post.models@ == pre.models@
    &&& post.labelsets@ == pre.labelsets@
    &&& post.labels@ == pre.labels@
    &&& post.quizzes@ == pre.quizzes@
    &&& post.questions@ == pre.questions@
    &&& post.userquizzes@ == pre.userquizzes@
    &&& post.next_user_id == pre.next_user_id
    &&& post.next_model_id == pre.next_model_id
    &&& post.next_labelset_id == pre.next_labelset_id
    &&& post.next_label_id == pre.next_label_id
    &&& post.next_quiz_id == pre.next_quiz_id
    &&& post.next_question_id == pre.next_question_id
}

/// Under the store invariant, at most one set row carries a UUID.
pub proof fn lemma_labelset_uuid_unique(db: Db, uuid: Seq<char>, w: int)
    requires
        db.wf(),
        labelset_at_uuid(db.labelsets@, uuid, w),
    ensures
        forall|i: int| labelset_at_uuid(db.labelsets@, uuid, i) ==> i == w,
{
    assert forall|i: int| labelset_at_uuid(db.labelsets@, uuid, i) implies i == w by {
        if i < w {
            assert(db.labelsets@[i].uuid@ != db.labelsets@[w].uuid@);
        } else if i > w {
            assert(db.labelsets@[w].uuid@ != db.labelsets@[i].uuid@);
        }
    }
}

/// `DELETE /users/labelsets/<uuid>`: resolve the set; 404 when absent;
/// delete the one membership row of this user, 404 when none was
/// present.  The composite key makes more than one row impossible.
pub fn delete(db: &mut Db, uuid: &String, user: &User) -> (r: Result<Option<()>, ApiError>)
    requires
        old(db).wf(),
    ensures
        final(db).wf(),
        !has_labelset_uuid(old(db).labelsets@, uuid@) ==> r == Ok::<Option<()>, ApiError>(None)
            && *final(db) == *old(db),
        forall|i: int|
            #[trigger] labelset_at_uuid(old(db).labelsets@, uuid@, i) ==> {
                let sid = old(db).labelsets@[i].id;
                if has_user_labelset(old(db).userlabelsets@, user.0.id, sid) {
                    r == Ok::<Option<()>, ApiError>(Some(())) && !has_user_labelset(
                        final(db).userlabelsets@,
                        user.0.id,
                        sid,
                    ) && unchanged_but_user_labelsets(*old(db), *final(db)) && final(db).userlabelsets@.len() + 1 == old(db).userlabelsets@.len()
                } else {
                    r == Ok::<Option<()>, ApiError>(None) && *final(db) == *old(db)
                }
            },
{
    let found = find_labelset_by_uuid(&db.labelsets, uuid);
    match found {
        None => Ok(None),
        Some(i) => {
            let sid = db.labelsets[i].id;
            proof {
                lemma_labelset_uuid_unique(*db, uuid@, i as int);
            }
            match find_user_labelset(&db.userlabelsets, user.0.id, sid) {
                None => Ok(None),
                Some(k) => {
                    let ghost pre_rows = db.userlabelsets@;
                    db.userlabelsets.remove(k);
                    proof {
                        assert forall|m: int|
                            0 <= m < db.userlabelsets@.len() implies !(
                        (#[trigger] db.userlabelsets@[m]).userid == user.0.id
                            && db.userlabelsets@[m].labelset == sid) by {
                            if m < k as int {
                                assert(db.userlabelsets@[m] == pre_rows[m]);
                                if pre_rows[m].userid == user.0.id && pre_rows[m].labelset
                                    == sid {
                                    assert(false);
                                }
                            } else {
                                assert(db.userlabelsets@[m] == pre_rows[m + 1]);
                                if pre_rows[m + 1].userid == user.0.id && pre_rows[m
                                    + 1].labelset == sid {
                                    assert(false);
                                }
                            }
                        }
                    }
                    Ok(Some(()))
                },
            }
        },
    }
}

/// Predicate: user `uid` has added this set.
pub open spec fn member_set_of_user(rows: Seq<UserLabelSet>, uid: i32) -> spec_fn(
    LabelSet,
) -> bool {
    |s: LabelSet| has_user_labelset(rows, uid, s.id)
}

/// Field projection of a list of set rows.
pub open spec fn set_entry_views(ss: Seq<LabelSet>) -> Seq<UserSetFields> {
    ss.map_values(|s: LabelSet| set_entry_fields(s))
}

/// Field projection of a listed answer.
pub open spec fn json_entry_views(js: Seq<JsonUserLabelSets>) -> Seq<UserSetFields> {
    js.map_values(|j: JsonUserLabelSets| json_entry_fields(j))
}

/// The wire-visible entries `GET /users/labelsets` answers: the sets
/// whose id the user has added, in table order.
pub open spec fn user_set_views(db: Db, uid: i32) -> Seq<UserSetFields> {
    set_entry_views(db.labelsets@.filter(member_set_of_user(db.userlabelsets@, uid)))
}

/// `GET /users/labelsets`: list the sets this user has added.
pub fn get(db: &Db, user: &User) -> (r: Vec<JsonUserLabelSets>)
    ensures
        json_entry_views(r@) == user_set_views(*db, user.0.id),
{
    let mut out: Vec<JsonUserLabelSets> = Vec::new();
    let n = db.labelsets.len();
    let mut i: usize = 0;
    proof {
        reveal(Seq::filter);
        assert(json_entry_views(out@) =~= set_entry_views(
            db.labelsets@.take(0).filter(member_set_of_user(db.userlabelsets@, user.0.id)),
        ));
    }
    while i < n
        invariant
            i <= n,
            n == db.labelsets@.len(),
            json_entry_views(out@) == set_entry_views(
                db.labelsets@.take(i as int).filter(
                    member_set_of_user(db.userlabelsets@, user.0.id),
                ),
            ),
        decreases n - i,
    {
        let ghost pred = member_set_of_user(db.userlabelsets@, user.0.id);
        let ghost t0 = db.labelsets@.take(i as int);
        let ghost t1 = db.labelsets@.take(i as int + 1);
        let ghost out0 = out@;
        proof {
            reveal(Seq::filter);
            assert(t1.drop_last() =~= t0);
            assert(t1.last() == db.labelsets@[i as int]);
        }
        let set = &db.labelsets[i];
        let member = find_user_labelset(&db.userlabelsets, user.0.id, set.id);
        if member.is_some() {
            let entry = JsonUserLabelSets::from_set(set);
            let ghost ev = entry;
            out.push(entry);
            proof {
                assert(pred(db.labelsets@[i as int]));
                assert(t1.filter(pred) == t0.filter(pred).push(db.labelsets@[i as int]));
                assert(out@.len() == out0.len() + 1);
                assert(json_entry_views(out0).len() == out0.len());
                assert(json_entry_views(out@).len() == out@.len());
                assert(set_entry_views(t1.filter(pred)).len() == t1.filter(pred).len());
                assert forall|k: int|
                    0 <= k < json_entry_views(out@).len() implies json_entry_views(out@)[k]
                    =~~= set_entry_views(t1.filter(pred))[k] by {
                    if k < out0.len() {
                        assert(out@[k] == out0[k]);
                        assert(json_entry_views(out0)[k] == json_entry_fields(out0[k]));
                        assert(t1.filter(pred)[k] == t0.filter(pred)[k]);
                    } else {
                        assert(out@[k] == ev);
                        assert(t1.filter(pred)[k] == db.labelsets@[i as int]);
                    }
                }
                assert(json_entry_views(out@) =~~= set_entry_views(t1.filter(pred)));
            }
        } else {
            proof {
                assert(!pred(db.labelsets@[i as int]));
                assert(t1.filter(pred) == t0.filter(pred));
            }
        }
        i += 1;
    }
    proof {
        assert(db.labelsets@.take(n as int) =~= db.labelsets@);
    }
    out
}

} // verus!
