//! Label-set authoring: upsert-by-UUID of a named label set together
//! with its replaceable list of labels, reads by id and by UUID, and
//! deletion with its label cascade.

use vstd::prelude::*;

use crate::api::ApiError;
use crate::models::{Label, LabelSet, NewLabel, NewLabelSet};
use crate::store::{
    find_labelset_by_id, find_labelset_by_uuid, has_labelset_uuid, labels_except, labels_of,
    labelset_at_uuid, lemma_filter_absorb, lemma_filter_all, lemma_filter_distinct_by,
    lemma_filter_elems_in, lemma_filter_none, not_of_labelset, of_labelset, remove_labels_of, Db,
};
use crate::util;

verus! {

/// Wire aggregate of a label set (camelCase JSON on the wire).
pub struct JsonLabelSet {
    pub id: Option<i32>,
    pub uuid: Option<String>,
    pub name: String,
    pub model: i32,
    pub labels: Vec<JsonLabel>,
}

/// Wire form of one label.
pub struct JsonLabel {
    pub colour: String,
    pub name: String,
    pub vertices: String,
}

/// Ghost record of the wire-visible fields of one label; both a stored
/// row and a submitted label project onto it.
#[verifier::ext_equal]
pub ghost struct LabelFields {
    pub name: Seq<char>,
    pub colour: Seq<char>,
    pub vertices: Seq<char>,
}

/// Wire-visible fields of a stored label row.
pub open spec fn label_fields(l: Label) -> LabelFields {
    LabelFields { name: l.name@, colour: l.colour@, vertices: l.vertices@ }
}

/// Wire-visible fields of a submitted label.
pub open spec fn json_label_fields(j: JsonLabel) -> LabelFields {
    LabelFields { name: j.name@, colour: j.colour@, vertices: j.vertices@ }
}

/// Field projection of a whole label table.
pub open spec fn label_views(ls: Seq<Label>) -> Seq<LabelFields> {
    ls.map_values(|l: Label| label_fields(l))
}

/// Field projection of a submitted label list.
pub open spec fn json_label_views(js: Seq<JsonLabel>) -> Seq<LabelFields> {
    js.map_values(|j: JsonLabel| json_label_fields(j))
}

/// Wire-visible fields of the labels of set `sid`, in table order.
pub open spec fn label_views_of(ls: Seq<Label>, sid: i32) -> Seq<LabelFields> {
    label_views(labels_of(ls, sid))
}

/// The label rows a successful upsert of `js` writes: parent `sid`,
/// fresh ids counted from `start`, submitted fields kept in order.
pub open spec fn upsert_label_rows(js: Seq<JsonLabel>, sid: i32, start: int) -> Seq<Label> {
    Seq::new(
        js.len(),
        |k: int|
            Label {
                id: (start + k) as i32,
                labelset: sid,
                name: js[k].name,
                colour: js[k].colour,
                vertices: js[k].vertices,
            },
    )
}

impl JsonLabel {
    /// Wire form of one stored label row.
    pub fn from_label(l: &Label) -> (r: JsonLabel)
        ensures
            json_label_fields(r) == label_fields(*l),
    {
        JsonLabel { colour: l.colour.clone(), name: l.name.clone(), vertices: l.vertices.clone() }
    }

    /// The row contents this label contributes to set `labelset`.
    pub fn to_new_label(&self, labelset: i32) -> (r: NewLabel)
        ensures
            r.labelset == labelset,
            r.name@ == self.name@,
            r.colour@ == self.colour@,
            r.vertices@ == self.vertices@,
    {
        NewLabel {
            labelset,
            name: self.name.clone(),
            colour: self.colour.clone(),
            vertices: self.vertices.clone(),
        }
    }
}

/// The wire aggregate `j` renders the stored set row `s` whose labels
/// stand in `labels`.
pub open spec fn json_set_matches_row(j: JsonLabelSet, s: LabelSet, labels: Seq<Label>) -> bool {
    &&& j.id == Some(s.id)
    &&& j.uuid matches Some(u) && u@ == s.uuid@
    &&& j.name@ == s.name@
    &&& j.model == s.model
    &&& json_label_views(j.labels@) == label_views_of(labels, s.id)
}

impl JsonLabelSet {
    /// Rebuild the wire aggregate from a stored set row and its labels.
    pub fn from_db(set: LabelSet, labels: Vec<Label>) -> (r: JsonLabelSet)
        ensures
            r.id == Some(set.id),
            r.uuid == Some(set.uuid),
            r.name == set.name,
            r.model == set.model,
            json_label_views(r.labels@) == label_views(labels@),
    {
        let mut out: Vec<JsonLabel> = Vec::new();
        let n = labels.len();
        let mut i: usize = 0;
        proof {
            assert(json_label_views(out@) =~= label_views(labels@.take(0)));
        }
        while i < n
            invariant
                i <= n,
                n == labels@.len(),
                json_label_views(out@) == label_views(labels@.take(i as int)),
            decreases n - i,
        {
            let ghost out0 = out@;
            let jl = JsonLabel::from_label(&labels[i]);
            let ghost jlv = jl;
            out.push(jl);
            proof {
                let t1 = labels@.take(i as int + 1);
                assert(out@.len() == out0.len() + 1);
                assert(json_label_views(out0).len() == out0.len());
                assert(label_views(labels@.take(i as int)).len() == i as int);
                assert(out0.len() == i as int);
                assert(t1.len() == i as int + 1);
                assert(json_label_views(out@).len() == out@.len());
                assert(label_views(t1).len() == t1.len());
                assert forall|k: int|
                    0 <= k < json_label_views(out@).len() implies json_label_views(out@)[k]
                    =~~= label_views(t1)[k] by {
                    assert(t1[k] == labels@[k]);
                    if k < out0.len() {
                        assert(out@[k] == out0[k]);
                        assert(json_label_views(out0)[k] == json_label_fields(out0[k]));
                        assert(label_views(labels@.take(i as int))[k] == label_fields(
                            labels@[k],
                        ));
                    } else {
                        assert(out@[k] == jlv);
                    }
                }
                assert(json_label_views(out@) =~~= label_views(t1));
            }
            i += 1;
        }
        proof {
            assert(labels@.take(n as int) =~= labels@);
        }
        JsonLabelSet { id: Some(set.id), uuid: Some(set.uuid), name: set.name, model: set.model, labels: out }
    }

    /// The `labelsets` row contents this payload writes under `uuid`.
    pub fn to_new_label_set(&self, uuid: &String) -> (r: NewLabelSet)
        ensures
            r.uuid@ == uuid@,
            r.name@ == self.name@,
            r.model == self.model,
    {
        NewLabelSet { uuid: uuid.clone(), name: self.name.clone(), model: self.model }
    }
}

/// Copies of the label rows of set `sid`, in table order.
fn collect_label_rows_of(labels: &Vec<Label>, sid: i32) -> (r: Vec<Label>)
    ensures
        r@ == labels_of(labels@, sid),
{
    let mut out: Vec<Label> = Vec::new();
    let n = labels.len();
    let mut i: usize = 0;
    while i < n
        invariant
            i <= n,
            n == labels@.len(),
            out@ == labels_of(labels@.take(i as int), sid),
        decreases n - i,
    {
        let ghost t0 = labels@.take(i as int);
        let ghost t1 = labels@.take(i as int + 1);
        proof {
            reveal(Seq::filter);
            assert(t1.drop_last() =~= t0);
            assert(t1.last() == labels@[i as int]);
        }
        if labels[i].labelset == sid {
            let l = &labels[i];
            let copy = Label {
                id: l.id,
                labelset: l.labelset,
                name: l.name.clone(),
                colour: l.colour.clone(),
                vertices: l.vertices.clone(),
            };
            assert(copy == labels@[i as int]);
            out.push(copy);
        }
        i += 1;
    }
    proof {
        assert(labels@.take(n as int) =~= labels@);
    }
    out
}

/// The row of `post.labelsets` at index `i` carries the submitted name
/// and model, its labels are exactly the submitted list, and the labels
/// of every other set are as they were in `pre`.
pub open spec fn labelset_upserted(
    pre: Db,
    post: Db,
    data: JsonLabelSet,
    i: int,
) -> bool {
    let s = post.labelsets@[i];
    &&& s.name@ == data.name@
    &&& s.model == data.model
    &&& json_label_views(data.labels@) == label_views_of(post.labels@, s.id)
    &&& forall|sid: i32|
        sid != s.id ==> labels_of(post.labels@, sid) == labels_of(pre.labels@, sid)
}

/// Upsert the label set with UUID `uuid` (`PUT /labels/<uuid>`): create
/// or overwrite the `labelsets` row keyed by that UUID, then replace its
/// labels with the submitted list, all in one committed step.  Answers
/// the canonical UUID.
pub fn put(db: &mut Db, uuid: &String, data: &JsonLabelSet) -> (r: Result<String, ApiError>)
    requires
        old(db).wf(),
        old(db).next_labelset_id < i32::MAX,
        old(db).next_label_id + data.labels@.len() < i32::MAX,
    ensures
        final(db).wf(),
        r matches Ok(u) && u@ == uuid@,
        has_labelset_uuid(final(db).labelsets@, uuid@),
        forall|i: int|
            #[trigger] labelset_at_uuid(final(db).labelsets@, uuid@, i) ==> labelset_upserted(
                *old(db),
                *final(db),
                *data,
                i,
            ),
        forall|i: int, j: int|
            labelset_at_uuid(old(db).labelsets@, uuid@, i) && labelset_at_uuid(
                final(db).labelsets@,
                uuid@,
                j,
            ) ==> final(db).labelsets@[j].id == old(db).labelsets@[i].id,
        forall|i: int|
            0 <= i < old(db).labelsets@.len() && old(db).labelsets@[i].uuid@ != uuid@
                ==> final(db).labelsets@.contains(old(db).labelsets@[i]),
        forall|i: int|
            0 <= i < final(db).labelsets@.len() && final(db).labelsets@[i].uuid@ != uuid@
                ==> old(db).labelsets@.contains(final(db).labelsets@[i]),
        final(db).users@ == old(db).users@,
        final(db).models@ == old(db).models@,
        final(db).quizzes@ == old(db).quizzes@,
        final(db).questions@ == old(db).questions@,
        final(db).userlabelsets@ == old(db).userlabelsets@,
        final(db).userquizzes@ == old(db).userquizzes@,
        old(db).next_labelset_id <= final(db).next_labelset_id <= old(db).next_labelset_id + 1,
        final(db).next_label_id == old(db).next_label_id + data.labels@.len(),
        final(db).next_user_id == old(db).next_user_id,
        final(db).next_model_id == old(db).next_model_id,
        final(db).next_quiz_id == old(db).next_quiz_id,
        final(db).next_question_id == old(db).next_question_id,
{
    let ghost pre = *db;
    let found = find_labelset_by_uuid(&db.labelsets, uuid);
    let sid: i32;
    let ghost set_idx: int;
    let ghost existed: bool;
    match found {
        Some(i) => {
            sid = db.labelsets[i].id;
            let row = LabelSet {
                id: sid,
                uuid: uuid.clone(),
                name: data.name.clone(),
                model: data.model,
            };
            db.labelsets.set(i, row);
            proof {
                set_idx = i as int;
                existed = true;
            }
        }
        None => {
            sid = db.next_labelset_id;
            db.next_labelset_id = db.next_labelset_id + 1;
            let row = LabelSet {
                id: sid,
                uuid: uuid.clone(),
                name: data.name.clone(),
                model: data.model,
            };
            db.labelsets.push(row);
            proof {
                set_idx = db.labelsets@.len() - 1;
                existed = false;
            }
        }
    }
    let ghost sets1 = db.labelsets@;
    let ghost nls = db.next_labelset_id;
    proof {
        let presets = pre.labelsets@;
        // shape of the rewritten table
        assert(forall|j: int| 0 <= j < sets1.len() && j != set_idx ==> sets1[j] == presets[j]);
        assert(labelset_at_uuid(sets1, uuid@, set_idx));
        assert(sets1[set_idx].id == sid);
        assert(sets1[set_idx].name@ == data.name@);
        assert(sets1[set_idx].model == data.model);
        // the uuid row sits at set_idx and nowhere else
        assert forall|j: int| labelset_at_uuid(sets1, uuid@, j) implies j == set_idx by {
            if j != set_idx {
                assert(sets1[j] == presets[j]);
                assert(labelset_at_uuid(presets, uuid@, j));
                if existed {
                    assert(presets[set_idx].uuid@ == uuid@);
                    if j < set_idx {
                        assert(presets[j].uuid@ != presets[set_idx].uuid@);
                    } else {
                        assert(presets[set_idx].uuid@ != presets[j].uuid@);
                    }
                }
            }
        }
        // any prior row of this uuid had id `sid`
        assert forall|i: int| labelset_at_uuid(presets, uuid@, i) implies presets[i].id == sid by {
            if existed {
                if i < set_idx {
                    assert(presets[i].uuid@ != presets[set_idx].uuid@);
                } else if i > set_idx {
                    assert(presets[set_idx].uuid@ != presets[i].uuid@);
                }
            }
        }
        // ids and uuids stay unique and bounded
        assert forall|i: int, j: int| 0 <= i < j < sets1.len() implies sets1[i].id != sets1[j].id
            && sets1[i].uuid@ != sets1[j].uuid@ by {
            if existed {
                assert(sets1[set_idx].id == presets[set_idx].id);
                assert(sets1[set_idx].uuid@ == presets[set_idx].uuid@);
            } else {
                if j == set_idx {
                    assert(1 <= presets[i].id < sid);
                    assert(!labelset_at_uuid(presets, uuid@, i));
                    assert(presets[i].uuid@ != uuid@);
                }
            }
        }
        assert forall|i: int| 0 <= i < sets1.len() implies 1 <= #[trigger] sets1[i].id
            < db.next_labelset_id by {
            if existed {
                assert(sets1[set_idx].id == presets[set_idx].id);
            }
        }
        // every old id survives, and `sid` is present
        assert forall|id: i32|
            crate::store::has_labelset_id(presets, id) implies crate::store::has_labelset_id(
            sets1,
            id,
        ) by {
            let w = choose|w: int| 0 <= w < presets.len() && presets[w].id == id;
            if w == set_idx {
                assert(sets1[set_idx].id == id);
            } else {
                assert(sets1[w].id == id);
            }
        }
        assert(crate::store::has_labelset_id(sets1, sid));
        // rows of other uuids are preserved, in both directions
        assert forall|j: int|
            0 <= j < presets.len() && presets[j].uuid@ != uuid@ implies sets1.contains(
            presets[j],
        ) by {
            assert(j != set_idx ==> sets1[j] == presets[j]);
            if existed && j == set_idx {
                assert(presets[set_idx].uuid@ == uuid@);
            }
        }
        assert forall|j: int|
            0 <= j < sets1.len() && sets1[j].uuid@ != uuid@ implies presets.contains(
            sets1[j],
        ) by {
            assert(j != set_idx);
            assert(sets1[j] == presets[j]);
        }
    }
    remove_labels_of(&mut db.labels, sid);
    let ghost base = db.labels@;
    let ghost start = db.next_label_id as int;
    let n = data.labels.len();
    let mut k: usize = 0;
    while k < n
        invariant
            k <= n,
            n == data.labels@.len(),
            db.next_label_id == start + k,
            start + n < i32::MAX,
            1 <= start,
            db.labels@ == base + upsert_label_rows(data.labels@.take(k as int), sid, start),
            db.labelsets@ == sets1,
            db.users@ == pre.users@,
            db.models@ == pre.models@,
            db.quizzes@ == pre.quizzes@,
            db.questions@ == pre.questions@,
            db.userlabelsets@ == pre.userlabelsets@,
            db.userquizzes@ == pre.userquizzes@,
            db.next_user_id == pre.next_user_id,
            db.next_model_id == pre.next_model_id,
            db.next_labelset_id == nls,
            nls == pre.next_labelset_id || nls == pre.next_labelset_id + 1,
            db.next_quiz_id == pre.next_quiz_id,
            db.next_question_id == pre.next_question_id,
        decreases n - k,
    {
        let jl = &data.labels[k];
        let id = db.next_label_id;
        let row = Label {
            id,
            labelset: sid,
            name: jl.name.clone(),
            colour: jl.colour.clone(),
            vertices: jl.vertices.clone(),
        };
        db.labels.push(row);
        db.next_label_id = db.next_label_id + 1;
        proof {
            assert(db.labels@ =~= base + upsert_label_rows(
                data.labels@.take(k as int + 1),
                sid,
                start,
            ));
        }
        k += 1;
    }
    proof {
        assert(data.labels@.take(n as int) =~= data.labels@);
        lemma_put_post(pre, *db, uuid@, *data, set_idx, sid, base, start);
    }
    Ok(uuid.clone())
}

/// Everything `put` promises, derived from the state its body has
/// established: the set table was rewritten at `set_idx`, the label
/// table is the old one minus set `sid` plus the submitted rows.
proof fn lemma_put_post(
    pre: Db,
    post: Db,
    uuid: Seq<char>,
    data: JsonLabelSet,
    set_idx: int,
    sid: i32,
    base: Seq<Label>,
    start: int,
)
    requires
        pre.wf(),
        pre.next_labelset_id < i32::MAX,
        start == pre.next_label_id,
        start + data.labels@.len() < i32::MAX,
        base == labels_except(pre.labels@, sid),
        post.labels@ == base + upsert_label_rows(data.labels@, sid, start),
        post.next_label_id == start + data.labels@.len(),
        post.users@ == pre.users@,
        post.models@ == pre.models@,
        post.quizzes@ == pre.quizzes@,
        post.questions@ == pre.questions@,
        post.userlabelsets@ == pre.userlabelsets@,
        post.userquizzes@ == pre.userquizzes@,
        post.next_user_id == pre.next_user_id,
        post.next_model_id == pre.next_model_id,
        post.next_quiz_id == pre.next_quiz_id,
        post.next_question_id == pre.next_question_id,
        post.next_labelset_id == pre.next_labelset_id || post.next_labelset_id
            == pre.next_labelset_id + 1,
        // the rewritten set table
        labelset_at_uuid(post.labelsets@, uuid, set_idx),
        post.labelsets@[set_idx].id == sid,
        post.labelsets@[set_idx].name@ == data.name@,
        post.labelsets@[set_idx].model == data.model,
        forall|j: int| labelset_at_uuid(post.labelsets@, uuid, j) ==> j == set_idx,
        forall|i: int, j: int|
            0 <= i < j < post.labelsets@.len() ==> post.labelsets@[i].id != post.labelsets@[j].id,
        forall|i: int, j: int|
            0 <= i < j < post.labelsets@.len() ==> post.labelsets@[i].uuid@ != post.labelsets@[
                j
            ].uuid@,
        forall|i: int|
            0 <= i < post.labelsets@.len() ==> 1 <= #[trigger] post.labelsets@[i].id
                < post.next_labelset_id,
        // every old id is still present, and new rows reuse old ids or
        // take the fresh one
        forall|id: i32|
            crate::store::has_labelset_id(pre.labelsets@, id) ==> crate::store::has_labelset_id(
                post.labelsets@,
                id,
            ),
        crate::store::has_labelset_id(post.labelsets@, sid),
    ensures
        post.wf(),
        has_labelset_uuid(post.labelsets@, uuid),
        forall|i: int|
            labelset_at_uuid(post.labelsets@, uuid, i) ==> labelset_upserted(pre, post, data, i),
{
    let news = upsert_label_rows(data.labels@, sid, start);
    let key = |l: Label| l.id as int;
    // facts about base
    lemma_filter_elems_in(pre.labels@, not_of_labelset(sid));
    lemma_filter_distinct_by(pre.labels@, not_of_labelset(sid), key);
    assert forall|k: int| 0 <= k < base.len() implies 1 <= #[trigger] base[k].id < start
        && base[k].labelset != sid && crate::store::has_labelset_id(
        post.labelsets@,
        base[k].labelset,
    ) by {
        assert(pre.labels@.contains(base[k]));
        let m = choose|m: int| 0 <= m < pre.labels@.len() && pre.labels@[m] == base[k];
        assert(1 <= pre.labels@[m].id < pre.next_label_id);
        assert(crate::store::has_labelset_id(pre.labelsets@, pre.labels@[m].labelset));
        pre.labels@.lemma_filter_pred(not_of_labelset(sid), k);
    }
    // facts about news
    assert(forall|k: int|
        0 <= k < news.len() ==> (#[trigger] news[k]).id == start + k && news[k].labelset == sid);
    // labels_wf
    assert forall|i: int, j: int|
        0 <= i < j < post.labels@.len() implies post.labels@[i].id != post.labels@[j].id by {
        let bl = base.len() as int;
        if j < bl {
            assert(key(base[i]) != key(base[j]));
        } else if i >= bl {
            assert(post.labels@[i] == news[i - bl]);
            assert(post.labels@[j] == news[j - bl]);
        } else {
            assert(post.labels@[i] == base[i]);
            assert(post.labels@[j] == news[j - bl]);
            assert(base[i].id < start);
            assert(news[j - bl].id == start + (j - bl));
        }
    }
    assert forall|i: int| 0 <= i < post.labels@.len() implies 1 <= (#[trigger] post.labels@[i]).id
        < post.next_label_id && crate::store::has_labelset_id(
        post.labelsets@,
        post.labels@[i].labelset,
    ) by {
        let bl = base.len() as int;
        if i < bl {
            assert(post.labels@[i] == base[i]);
        } else {
            assert(post.labels@[i] == news[i - bl]);
        }
    }
    assert(post.labels_wf());
    // the other tables are untouched, so their clauses carry over
    assert(post.users_wf());
    assert(post.models_wf());
    assert(post.labelsets_wf());
    assert(post.quizzes_wf());
    assert(post.questions_wf());
    assert(post.memberships_wf());
    assert(post.wf());
    // the upserted content
    Seq::filter_distributes_over_add(base, news, of_labelset(sid));
    assert forall|k: int| 0 <= k < base.len() implies !(of_labelset(sid)(#[trigger] base[k])) by {}
    lemma_filter_none(base, of_labelset(sid));
    assert forall|k: int| 0 <= k < news.len() implies of_labelset(sid)(#[trigger] news[k]) by {}
    lemma_filter_all(news, of_labelset(sid));
    assert(labels_of(post.labels@, sid) =~= news);
    assert(label_views(news) =~~= json_label_views(data.labels@));
    assert forall|sid2: i32| sid2 != sid implies labels_of(post.labels@, sid2) == labels_of(
        pre.labels@,
        sid2,
    ) by {
        Seq::filter_distributes_over_add(base, news, of_labelset(sid2));
        assert forall|k: int| 0 <= k < news.len() implies !(of_labelset(sid2)(
            #[trigger] news[k],
        )) by {}
        lemma_filter_none(news, of_labelset(sid2));
        assert forall|x: Label| #[trigger] of_labelset(sid2)(x) implies not_of_labelset(sid)(
            x,
        ) by {}
        lemma_filter_absorb(pre.labels@, not_of_labelset(sid), of_labelset(sid2));
        assert(labels_of(post.labels@, sid2) =~= labels_of(pre.labels@, sid2));
    }
    assert forall|i: int| labelset_at_uuid(post.labelsets@, uuid, i) implies labelset_upserted(
        pre,
        post,
        data,
        i,
    ) by {
        assert(i == set_idx);
    }
}

/// `POST /labels/`: assign a fresh UUID and delegate to `put`.
pub fn create(db: &mut Db, data: &JsonLabelSet) -> (r: Result<String, ApiError>)
    requires
        old(db).wf(),
        old(db).next_labelset_id < i32::MAX,
        old(db).next_label_id + data.labels@.len() < i32::MAX,
    ensures
        final(db).wf(),
        r matches Ok(u) && util::is_uuid_text(u@) && has_labelset_uuid(final(db).labelsets@, u@)
            && forall|i: int|
            #[trigger] labelset_at_uuid(final(db).labelsets@, u@, i) ==> labelset_upserted(
                *old(db),
                *final(db),
                *data,
                i,
            ),
        final(db).users@ == old(db).users@,
        final(db).models@ == old(db).models@,
        final(db).quizzes@ == old(db).quizzes@,
        final(db).questions@ == old(db).questions@,
        final(db).userlabelsets@ == old(db).userlabelsets@,
        final(db).userquizzes@ == old(db).userquizzes@,
        old(db).next_labelset_id <= final(db).next_labelset_id <= old(db).next_labelset_id + 1,
        final(db).next_label_id == old(db).next_label_id + data.labels@.len(),
        final(db).next_user_id == old(db).next_user_id,
        final(db).next_model_id == old(db).next_model_id,
        final(db).next_quiz_id == old(db).next_quiz_id,
        final(db).next_question_id == old(db).next_question_id,
{
    let uuid = util::create_uuid();
    put(db, &uuid, data)
}

/// `GET /labels/uuid/<uuid>`: the aggregate of the set with that UUID,
/// or `None` when there is none.
pub fn load_by_uuid(db: &Db, uuid: &String) -> (r: Option<JsonLabelSet>)
    ensures
        match r {
            Some(j) => exists|i: int|
                #[trigger] labelset_at_uuid(db.labelsets@, uuid@, i) && json_set_matches_row(
                    j,
                    db.labelsets@[i],
                    db.labels@,
                ),
            None => !has_labelset_uuid(db.labelsets@, uuid@),
        },
{
    let found = find_labelset_by_uuid(&db.labelsets, uuid);
    match found {
        None => None,
        Some(i) => {
            let s = &db.labelsets[i];
            let row = LabelSet {
                id: s.id,
                uuid: s.uuid.clone(),
                name: s.name.clone(),
                model: s.model,
            };
            let rows = collect_label_rows_of(&db.labels, row.id);
            let result = JsonLabelSet::from_db(row, rows);
            proof {
                assert(labelset_at_uuid(db.labelsets@, uuid@, i as int));
                assert(json_set_matches_row(result, db.labelsets@[i as int], db.labels@));
            }
            Some(result)
        },
    }
}

/// `GET /labels/<id>`: the aggregate of the set with that integer id,
/// or `None` when there is none.
pub fn load(db: &Db, id: i32) -> (r: Option<JsonLabelSet>)
    ensures
        match r {
            Some(j) => exists|i: int|
                0 <= i < db.labelsets@.len() && (#[trigger] db.labelsets@[i]).id == id
                    && json_set_matches_row(j, db.labelsets@[i], db.labels@),
            None => !crate::store::has_labelset_id(db.labelsets@, id),
        },
{
    let found = find_labelset_by_id(&db.labelsets, id);
    match found {
        None => None,
        Some(i) => {
            let s = &db.labelsets[i];
            let row = LabelSet {
                id: s.id,
                uuid: s.uuid.clone(),
                name: s.name.clone(),
                model: s.model,
            };
            let rows = collect_label_rows_of(&db.labels, row.id);
            let result = JsonLabelSet::from_db(row, rows);
            proof {
                assert(json_set_matches_row(result, db.labelsets@[i as int], db.labels@));
            }
            Some(result)
        },
    }
}

/// `DELETE /labels/<uuid>`: remove the set with that UUID and every
/// label it owns.  Membership rows that refer to the set are
/// deliberately left in place, mirroring the service's cascade gap.
pub fn delete(db: &mut Db, uuid: &String) -> (r: Option<()>)
    requires
        old(db).wf(),
    ensures
        final(db).wf(),
        r == Some(()) <==> has_labelset_uuid(old(db).labelsets@, uuid@),
        r is None ==> *final(db) == *old(db),
        r == Some(()) ==> !has_labelset_uuid(final(db).labelsets@, uuid@),
        r == Some(()) ==> forall|i: int|
            #[trigger] labelset_at_uuid(old(db).labelsets@, uuid@, i) ==> final(db).labelsets@ == old(db).labelsets@.remove(i) && final(db).labels@ == labels_except(
                old(db).labels@,
                old(db).labelsets@[i].id,
            ) && forall|j: int|
                0 <= j < final(db).labels@.len() ==> (#[trigger] final(db).labels@[j]).labelset
                    != old(db).labelsets@[i].id,
        final(db).users@ == old(db).users@,
        final(db).models@ == old(db).models@,
        final(db).quizzes@ == old(db).quizzes@,
        final(db).questions@ == old(db).questions@,
        final(db).userlabelsets@ == old(db).userlabelsets@,
        final(db).userquizzes@ == old(db).userquizzes@,
        final(db).next_user_id == old(db).next_user_id,
        final(db).next_model_id == old(db).next_model_id,
        final(db).next_labelset_id == old(db).next_labelset_id,
        final(db).next_label_id == old(db).next_label_id,
        final(db).next_quiz_id == old(db).next_quiz_id,
        final(db).next_question_id == old(db).next_question_id,
{
    let ghost pre = *db;
    let found = find_labelset_by_uuid(&db.labelsets, uuid);
    match found {
        None => None,
        Some(i) => {
            let sid = db.labelsets[i].id;
            db.labelsets.remove(i);
            remove_labels_of(&mut db.labels, sid);
            proof {
                lemma_delete_labelset_post(pre, *db, uuid@, i as int, sid);
            }
            Some(())
        },
    }
}

/// Well-formedness and the cascade shape after deleting the set at
/// `set_idx` and filtering its labels away.
proof fn lemma_delete_labelset_post(pre: Db, post: Db, uuid: Seq<char>, set_idx: int, sid: i32)
    requires
        pre.wf(),
        labelset_at_uuid(pre.labelsets@, uuid, set_idx),
        pre.labelsets@[set_idx].id == sid,
        post.labelsets@ == pre.labelsets@.remove(set_idx),
        post.labels@ == labels_except(pre.labels@, sid),
        post.users@ == pre.users@,
        post.models@ == pre.models@,
        post.quizzes@ == pre.quizzes@,
        post.questions@ == pre.questions@,
        post.userlabelsets@ == pre.userlabelsets@,
        post.userquizzes@ == pre.userquizzes@,
        post.next_user_id == pre.next_user_id,
        post.next_model_id == pre.next_model_id,
        post.next_labelset_id == pre.next_labelset_id,
        post.next_label_id == pre.next_label_id,
        post.next_quiz_id == pre.next_quiz_id,
        post.next_question_id == pre.next_question_id,
    ensures
        post.wf(),
        !has_labelset_uuid(post.labelsets@, uuid),
        forall|j: int| 0 <= j < post.labels@.len() ==> (#[trigger] post.labels@[j]).labelset != sid,
{
    let key = |l: Label| l.id as int;
    lemma_filter_elems_in(pre.labels@, not_of_labelset(sid));
    lemma_filter_distinct_by(pre.labels@, not_of_labelset(sid), key);
    assert forall|k: int| 0 <= k < post.labels@.len() implies 1 <= (#[trigger] post.labels@[k]).id
        < post.next_label_id && post.labels@[k].labelset != sid && crate::store::has_labelset_id(
        post.labelsets@,
        post.labels@[k].labelset,
    ) by {
        assert(pre.labels@.contains(post.labels@[k]));
        let m = choose|m: int| 0 <= m < pre.labels@.len() && pre.labels@[m] == post.labels@[k];
        assert(1 <= pre.labels@[m].id < pre.next_label_id);
        pre.labels@.lemma_filter_pred(not_of_labelset(sid), k);
        assert(crate::store::has_labelset_id(pre.labelsets@, pre.labels@[m].labelset));
        let w = choose|w: int|
            0 <= w < pre.labelsets@.len() && pre.labelsets@[w].id == pre.labels@[m].labelset;
        assert(w != set_idx);
        if w < set_idx {
            assert(post.labelsets@[w].id == pre.labels@[m].labelset);
        } else {
            assert(post.labelsets@[w - 1].id == pre.labels@[m].labelset);
        }
    }
    let flt = pre.labels@.filter(not_of_labelset(sid));
    assert(post.labels@ == flt);
    assert(forall|a: int, b: int|
        0 <= a < b < flt.len() ==> key(#[trigger] flt[a]) != key(#[trigger] flt[b]));
    assert forall|i: int, j: int|
        0 <= i < j < post.labels@.len() implies post.labels@[i].id != post.labels@[j].id by {
        assert(key(flt[i]) != key(flt[j]));
    }
    assert(post.labels_wf());
    assert forall|j: int| labelset_at_uuid(pre.labelsets@, uuid, j) implies j == set_idx by {}
    assert forall|j: int| 0 <= j < post.labelsets@.len() implies post.labelsets@[j].uuid@
        != uuid by {
        if j < set_idx {
            assert(post.labelsets@[j] == pre.labelsets@[j]);
        } else {
            assert(post.labelsets@[j] == pre.labelsets@[j + 1]);
        }
    }
    assert(post.labelsets_wf());
    assert(post.wf());
}

} // verus!
