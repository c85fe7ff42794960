//! The relational store: every table of the schema as an in-memory vector
//! of rows, together with the global invariants that each committed state
//! must satisfy and the row-level helpers the service operations build on.

use vstd::prelude::*;

use crate::models::{Label, LabelSet, Model, Question, Quiz, User, UserLabelSet, UserQuiz};

verus! {

/// The whole relational state.  The `next_*` counters model the
/// auto-assigned surrogate ids: every existing id is strictly below the
/// counter of its table, so a counter value is always fresh.
pub struct Db {
    pub users: Vec<User>,
    pub models: Vec<Model>,
    pub labelsets: Vec<LabelSet>,
    pub labels: Vec<Label>,
    pub quizzes: Vec<Quiz>,
    pub questions: Vec<Question>,
    pub userlabelsets: Vec<UserLabelSet>,
    pub userquizzes: Vec<UserQuiz>,
    pub next_user_id: i32,
    pub next_model_id: i32,
    pub next_labelset_id: i32,
    pub next_label_id: i32,
    pub next_quiz_id: i32,
    pub next_question_id: i32,
}

// ---------------------------------------------------------------------
// Spec-level predicates over single tables.
// ---------------------------------------------------------------------

/// Some row of `users` carries this username.
pub open spec fn username_taken(users: Seq<User>, name: Seq<char>) -> bool {
    exists|i: int| 0 <= i < users.len() && users[i].username@ == name
}

/// Some row of `users` carries this id.
pub open spec fn has_user_id(users: Seq<User>, id: i32) -> bool {
    exists|i: int| 0 <= i < users.len() && users[i].id == id
}

/// Some row of `models` carries this id.
pub open spec fn has_model_id(models: Seq<Model>, id: i32) -> bool {
    exists|i: int| 0 <= i < models.len() && models[i].id == id
}

/// Some row of `labelsets` carries this id.
pub open spec fn has_labelset_id(sets: Seq<LabelSet>, id: i32) -> bool {
    exists|i: int| 0 <= i < sets.len() && sets[i].id == id
}

/// Row `i` of `labelsets` carries this UUID.
pub open spec fn labelset_at_uuid(sets: Seq<LabelSet>, uuid: Seq<char>, i: int) -> bool {
    0 <= i < sets.len() && sets[i].uuid@ == uuid
}

/// Some row of `labelsets` carries this UUID.
pub open spec fn has_labelset_uuid(sets: Seq<LabelSet>, uuid: Seq<char>) -> bool {
    exists|i: int| labelset_at_uuid(sets, uuid, i)
}

/// Some row of `quizzes` carries this id.
pub open spec fn has_quiz_id(quizzes: Seq<Quiz>, id: i32) -> bool {
    exists|i: int| 0 <= i < quizzes.len() && quizzes[i].id == id
}

/// Row `i` of `quizzes` carries this UUID.
pub open spec fn quiz_at_uuid(quizzes: Seq<Quiz>, uuid: Seq<char>, i: int) -> bool {
    0 <= i < quizzes.len() && quizzes[i].uuid@ == uuid
}

/// Some row of `quizzes` carries this UUID.
pub open spec fn has_quiz_uuid(quizzes: Seq<Quiz>, uuid: Seq<char>) -> bool {
    exists|i: int| quiz_at_uuid(quizzes, uuid, i)
}

/// The `(userid, labelset)` pair is present.
pub open spec fn has_user_labelset(rows: Seq<UserLabelSet>, userid: i32, labelset: i32) -> bool {
    exists|i: int| 0 <= i < rows.len() && rows[i].userid == userid && rows[i].labelset == labelset
}

/// The `(userid, quiz)` pair is present.
pub open spec fn has_user_quiz(rows: Seq<UserQuiz>, userid: i32, quiz: i32) -> bool {
    exists|i: int| 0 <= i < rows.len() && rows[i].userid == userid && rows[i].quiz == quiz
}

// ---------------------------------------------------------------------
// Order-preserving projections of the child tables.  Each predicate is a
// named spec function so that every mention of, say, "belongs to label
// set `sid`" denotes the same function value.
// ---------------------------------------------------------------------

/// Predicate: the label belongs to label set `sid`.
pub open spec fn of_labelset(sid: i32) -> spec_fn(Label) -> bool {
    |l: Label| l.labelset == sid
}

/// Predicate: the label does not belong to label set `sid`.
pub open spec fn not_of_labelset(sid: i32) -> spec_fn(Label) -> bool {
    |l: Label| l.labelset != sid
}

/// Predicate: the question belongs to quiz `qid`.
pub open spec fn of_quiz(qid: i32) -> spec_fn(Question) -> bool {
    |q: Question| q.quiz == qid
}

/// Predicate: the question does not belong to quiz `qid`.
pub open spec fn not_of_quiz(qid: i32) -> spec_fn(Question) -> bool {
    |q: Question| q.quiz != qid
}

/// Predicate: the membership row does not refer to quiz `qid`.
pub open spec fn membership_not_of_quiz(qid: i32) -> spec_fn(UserQuiz) -> bool {
    |r: UserQuiz| r.quiz != qid
}

/// The labels whose parent is `sid`, in table order.
pub open spec fn labels_of(ls: Seq<Label>, sid: i32) -> Seq<Label> {
    ls.filter(of_labelset(sid))
}

/// The labels whose parent is not `sid`, in table order.
pub open spec fn labels_except(ls: Seq<Label>, sid: i32) -> Seq<Label> {
    ls.filter(not_of_labelset(sid))
}

/// The questions whose parent is `qid`, in table order.
pub open spec fn questions_of(qs: Seq<Question>, qid: i32) -> Seq<Question> {
    qs.filter(of_quiz(qid))
}

/// The questions whose parent is not `qid`, in table order.
pub open spec fn questions_except(qs: Seq<Question>, qid: i32) -> Seq<Question> {
    qs.filter(not_of_quiz(qid))
}

/// The quiz-membership rows that do not refer to quiz `qid`, in table order.
pub open spec fn user_quizzes_except(rows: Seq<UserQuiz>, qid: i32) -> Seq<UserQuiz> {
    rows.filter(membership_not_of_quiz(qid))
}

// ---------------------------------------------------------------------
// Facts about `Seq::filter` beyond what vstd states.
// ---------------------------------------------------------------------

/// A filter over elements that all satisfy the predicate keeps the
/// sequence as it is.
pub proof fn lemma_filter_all<A>(s: Seq<A>, pred: spec_fn(A) -> bool)
    requires
        forall|i: int| 0 <= i < s.len() ==> pred(#[trigger] s[i]),
    ensures
        s.filter(pred) == s,
    decreases s.len(),
{
    reveal(Seq::filter);
    if s.len() == 0 {
        assert(s.filter(pred) =~= s);
    } else {
        assert forall|i: int| 0 <= i < s.drop_last().len() implies pred(#[trigger] s.drop_last()[i]) by {
            assert(s.drop_last()[i] == s[i]);
        }
        lemma_filter_all(s.drop_last(), pred);
        assert(pred(s.last()));
        assert(s.drop_last().push(s.last()) =~= s);
    }
}

/// A filter over elements that all falsify the predicate is empty.
pub proof fn lemma_filter_none<A>(s: Seq<A>, pred: spec_fn(A) -> bool)
    requires
        forall|i: int| 0 <= i < s.len() ==> !pred(#[trigger] s[i]),
    ensures
        s.filter(pred) == Seq::<A>::empty(),
    decreases s.len(),
{
    reveal(Seq::filter);
    if s.len() == 0 {
        assert(s.filter(pred) =~= Seq::<A>::empty());
    } else {
        assert forall|i: int| 0 <= i < s.drop_last().len() implies !pred(
            #[trigger] s.drop_last()[i],
        ) by {
            assert(s.drop_last()[i] == s[i]);
        }
        lemma_filter_none(s.drop_last(), pred);
    }
}

/// Every element of a filtered sequence occurs in the original.
pub proof fn lemma_filter_elems_in<A>(s: Seq<A>, pred: spec_fn(A) -> bool)
    ensures
        forall|k: int|
            0 <= k < s.filter(pred).len() ==> s.contains(#[trigger] s.filter(pred)[k]),
    decreases s.len(),
{
    reveal(Seq::filter);
    if s.len() > 0 {
        lemma_filter_elems_in(s.drop_last(), pred);
        let out = s.filter(pred);
        let rest = s.drop_last().filter(pred);
        assert forall|k: int| 0 <= k < out.len() implies s.contains(#[trigger] out[k]) by {
            if k < rest.len() {
                assert(s.drop_last().contains(rest[k]));
                let m = choose|m: int|
                    0 <= m < s.drop_last().len() && s.drop_last()[m] == rest[k];
                assert(s[m] == rest[k]);
            } else {
                assert(out[k] == s.last());
                assert(s[s.len() - 1] == s.last());
            }
        }
    }
}

/// Filtering a second time with a stronger predicate ignores the first
/// filter.
pub proof fn lemma_filter_absorb<A>(s: Seq<A>, p: spec_fn(A) -> bool, q: spec_fn(A) -> bool)
    requires
        forall|x: A| #[trigger] q(x) ==> p(x),
    ensures
        s.filter(p).filter(q) == s.filter(q),
    decreases s.len(),
{
    reveal(Seq::filter);
    if s.len() > 0 {
        lemma_filter_absorb(s.drop_last(), p, q);
        if p(s.last()) {
            assert(s.filter(p) == s.drop_last().filter(p).push(s.last()));
            assert(s.filter(p).drop_last() =~= s.drop_last().filter(p));
            assert(s.filter(p).last() == s.last());
        }
    }
}

/// A filter keeps keys pairwise distinct when they were distinct before.
pub proof fn lemma_filter_distinct_by<A>(s: Seq<A>, pred: spec_fn(A) -> bool, key: spec_fn(A) -> int)
    requires
        forall|i: int, j: int| 0 <= i < j < s.len() ==> key(s[i]) != key(s[j]),
    ensures
        forall|i: int, j: int|
            0 <= i < j < s.filter(pred).len() ==> key(#[trigger] s.filter(pred)[i]) != key(
                #[trigger] s.filter(pred)[j],
            ),
    decreases s.len(),
{
    reveal(Seq::filter);
    if s.len() > 0 {
        assert forall|i: int, j: int| 0 <= i < j < s.drop_last().len() implies key(
            s.drop_last()[i],
        ) != key(s.drop_last()[j]) by {
            assert(s.drop_last()[i] == s[i]);
            assert(s.drop_last()[j] == s[j]);
        }
        lemma_filter_distinct_by(s.drop_last(), pred, key);
        lemma_filter_elems_in(s.drop_last(), pred);
        let out = s.filter(pred);
        let rest = s.drop_last().filter(pred);
        assert forall|i: int, j: int| 0 <= i < j < out.len() implies key(out[i]) != key(out[j]) by {
            if j < rest.len() {
                assert(out[i] == rest[i] && out[j] == rest[j]);
            } else if pred(s.last()) && j == out.len() - 1 && out.len() == rest.len() + 1 {
                assert(out[j] == s.last());
                assert(out[i] == rest[i]);
                assert(s.drop_last().contains(rest[i]));
                let m = choose|m: int|
                    0 <= m < s.drop_last().len() && s.drop_last()[m] == rest[i];
                assert(s[m] == rest[i]);
                assert(key(s[m]) != key(s[s.len() - 1]));
            }
        }
    }
}

// ---------------------------------------------------------------------
// The global invariant.
// ---------------------------------------------------------------------

impl Db {
    /// Ids of `users` are unique and below the counter.
    pub open spec fn users_wf(self) -> bool {
        &&& forall|i: int, j: int|
            0 <= i < j < self.users@.len() ==> self.users@[i].id != self.users@[j].id
        &&& forall|i: int, j: int|
            0 <= i < j < self.users@.len()
                ==> self.users@[i].username@ != self.users@[j].username@
        &&& forall|i: int|
            0 <= i < self.users@.len() ==> 1 <= #[trigger] self.users@[i].id < self.next_user_id
    }

    /// Ids of `models` are unique and below the counter.
    pub open spec fn models_wf(self) -> bool {
        &&& forall|i: int, j: int|
            0 <= i < j < self.models@.len() ==> self.models@[i].id != self.models@[j].id
        &&& forall|i: int|
            0 <= i < self.models@.len() ==> 1 <= #[trigger] self.models@[i].id < self.next_model_id
    }

    /// Ids and UUIDs of `labelsets` are unique; ids are below the counter.
    pub open spec fn labelsets_wf(self) -> bool {
        &&& forall|i: int, j: int|
            0 <= i < j < self.labelsets@.len() ==> self.labelsets@[i].id != self.labelsets@[j].id
        &&& forall|i: int, j: int|
            0 <= i < j < self.labelsets@.len()
                ==> self.labelsets@[i].uuid@ != self.labelsets@[j].uuid@
        &&& forall|i: int|
            0 <= i < self.labelsets@.len()
                ==> 1 <= #[trigger] self.labelsets@[i].id < self.next_labelset_id
    }

    /// Ids of `labels` are unique and below the counter; every label's
    /// parent exists.
    pub open spec fn labels_wf(self) -> bool {
        &&& forall|i: int, j: int|
            0 <= i < j < self.labels@.len() ==> self.labels@[i].id != self.labels@[j].id
        &&& forall|i: int|
            0 <= i < self.labels@.len() ==> 1 <= #[trigger] self.labels@[i].id < self.next_label_id
        &&& forall|i: int|
            0 <= i < self.labels@.len()
                ==> has_labelset_id(self.labelsets@, #[trigger] self.labels@[i].labelset)
    }

    /// Ids and UUIDs of `quizzes` are unique; ids are below the counter;
    /// the shuffle flag is stored as 0 or 1.
    pub open spec fn quizzes_wf(self) -> bool {
        &&& forall|i: int, j: int|
            0 <= i < j < self.quizzes@.len() ==> self.quizzes@[i].id != self.quizzes@[j].id
        &&& forall|i: int, j: int|
            0 <= i < j < self.quizzes@.len()
                ==> self.quizzes@[i].uuid@ != self.quizzes@[j].uuid@
        &&& forall|i: int|
            0 <= i < self.quizzes@.len()
                ==> 1 <= #[trigger] self.quizzes@[i].id < self.next_quiz_id
        &&& forall|i: int|
            0 <= i < self.quizzes@.len() ==> 0 <= (#[trigger] self.quizzes@[i]).shuffle <= 1
    }

    /// Ids of `questions` are unique and below the counter; every
    /// question's parent exists; the show-regions flag is stored as
    /// 0 or 1.
    pub open spec fn questions_wf(self) -> bool {
        &&& forall|i: int, j: int|
            0 <= i < j < self.questions@.len() ==> self.questions@[i].id != self.questions@[j].id
        &&& forall|i: int|
            0 <= i < self.questions@.len()
                ==> 1 <= #[trigger] self.questions@[i].id < self.next_question_id
        &&& forall|i: int|
            0 <= i < self.questions@.len()
                ==> has_quiz_id(self.quizzes@, #[trigger] self.questions@[i].quiz)
        &&& forall|i: int|
            0 <= i < self.questions@.len() ==> 0 <= (#[trigger] self.questions@[i]).showregions
                <= 1
    }

    /// Membership pairs are keys, and their user ends exist.  Deleting a
    /// label set deliberately leaves its membership rows behind, so no
    /// foreign-key clause ties `labelset` here; quiz deletion does
    /// cascade, so the `quiz` end always exists.
    pub open spec fn memberships_wf(self) -> bool {
        &&& forall|i: int, j: int|
            0 <= i < j < self.userlabelsets@.len()
                ==> !(self.userlabelsets@[i].userid == self.userlabelsets@[j].userid
                    && self.userlabelsets@[i].labelset == self.userlabelsets@[j].labelset)
        &&& forall|i: int|
            0 <= i < self.userlabelsets@.len()
                ==> has_user_id(self.users@, #[trigger] self.userlabelsets@[i].userid)
        &&& forall|i: int, j: int|
            0 <= i < j < self.userquizzes@.len()
                ==> !(self.userquizzes@[i].userid == self.userquizzes@[j].userid
                    && self.userquizzes@[i].quiz == self.userquizzes@[j].quiz)
        &&& forall|i: int|
            0 <= i < self.userquizzes@.len()
                ==> has_user_id(self.users@, #[trigger] self.userquizzes@[i].userid)
        &&& forall|i: int|
            0 <= i < self.userquizzes@.len()
                ==> has_quiz_id(self.quizzes@, #[trigger] self.userquizzes@[i].quiz)
    }

    /// The global invariant: holds of every committed state.
    pub open spec fn wf(self) -> bool {
        &&& self.users_wf()
        &&& self.models_wf()
        &&& self.labelsets_wf()
        &&& self.labels_wf()
        &&& self.quizzes_wf()
        &&& self.questions_wf()
        &&& self.memberships_wf()
        &&& 1 <= self.next_user_id
        &&& 1 <= self.next_model_id
        &&& 1 <= self.next_labelset_id
        &&& 1 <= self.next_label_id
        &&& 1 <= self.next_quiz_id
        &&& 1 <= self.next_question_id
    }

    /// A store with no rows at all.
    pub fn new() -> (db: Db)
        ensures
            db.wf(),
            db.users@.len() == 0,
            db.models@.len() == 0,
            db.labelsets@.len() == 0,
            db.labels@.len() == 0,
            db.quizzes@.len() == 0,
            db.questions@.len() == 0,
            db.userlabelsets@.len() == 0,
            db.userquizzes@.len() == 0,
            db.next_user_id == 1,
            db.next_model_id == 1,
            db.next_labelset_id == 1,
            db.next_label_id == 1,
            db.next_quiz_id == 1,
            db.next_question_id == 1,
    {
        Db {
            users: Vec::new(),
            models: Vec::new(),
            labelsets: Vec::new(),
            labels: Vec::new(),
            quizzes: Vec::new(),
            questions: Vec::new(),
            userlabelsets: Vec::new(),
            userquizzes: Vec::new(),
            next_user_id: 1,
            next_model_id: 1,
            next_labelset_id: 1,
            next_label_id: 1,
            next_quiz_id: 1,
            next_question_id: 1,
        }
    }
}

// ---------------------------------------------------------------------
// Exec row lookups.  Each returns the index of the first matching row.
// ---------------------------------------------------------------------

/// Index of the first user whose username equals `name`.
pub fn find_user_by_name(users: &Vec<User>, name: &String) -> (r: Option<usize>)
    ensures
        match r {
            Some(i) => i < users@.len() && users@[i as int].username@ == name@,
            None => !username_taken(users@, name@),
        },
{
    let n = users.len();
    let mut i: usize = 0;
    while i < n
        invariant
            i <= n,
            n == users@.len(),
            forall|j: int| 0 <= j < i ==> users@[j].username@ != name@,
        decreases n - i,
    {
        if users[i].username.eq(name) {
            return Some(i);
        }
        i += 1;
    }
    None
}

/// Index of the first user whose id equals `id`.
pub fn find_user_by_id(users: &Vec<User>, id: i32) -> (r: Option<usize>)
    ensures
        match r {
            Some(i) => i < users@.len() && users@[i as int].id == id,
            None => !has_user_id(users@, id),
        },
{
    let n = users.len();
    let mut i: usize = 0;
    while i < n
        invariant
            i <= n,
            n == users@.len(),
            forall|j: int| 0 <= j < i ==> users@[j].id != id,
        decreases n - i,
    {
        if users[i].id == id {
            return Some(i);
        }
        i += 1;
    }
    None
}

/// Index of the first model whose id equals `id`.
pub fn find_model_by_id(models: &Vec<Model>, id: i32) -> (r: Option<usize>)
    ensures
        match r {
            Some(i) => i < models@.len() && models@[i as int].id == id,
            None => !has_model_id(models@, id),
        },
{
    let n = models.len();
    let mut i: usize = 0;
    while i < n
        invariant
            i <= n,
            n == models@.len(),
            forall|j: int| 0 <= j < i ==> models@[j].id != id,
        decreases n - i,
    {
        if models[i].id == id {
            return Some(i);
        }
        i += 1;
    }
    None
}

/// Index of the first label set whose UUID equals `uuid`.
pub fn find_labelset_by_uuid(sets: &Vec<LabelSet>, uuid: &String) -> (r: Option<usize>)
    ensures
        match r {
            Some(i) => labelset_at_uuid(sets@, uuid@, i as int),
            None => !has_labelset_uuid(sets@, uuid@),
        },
{
    let n = sets.len();
    let mut i: usize = 0;
    while i < n
        invariant
            i <= n,
            n == sets@.len(),
            forall|j: int| 0 <= j < i ==> sets@[j].uuid@ != uuid@,
        decreases n - i,
    {
        if sets[i].uuid.eq(uuid) {
            return Some(i);
        }
        i += 1;
    }
    None
}

/// Index of the first label set whose id equals `id`.
pub fn find_labelset_by_id(sets: &Vec<LabelSet>, id: i32) -> (r: Option<usize>)
    ensures
        match r {
            Some(i) => i < sets@.len() && sets@[i as int].id == id,
            None => !has_labelset_id(sets@, id),
        },
{
    let n = sets.len();
    let mut i: usize = 0;
    while i < n
        invariant
            i <= n,
            n == sets@.len(),
            forall|j: int| 0 <= j < i ==> sets@[j].id != id,
        decreases n - i,
    {
        if sets[i].id == id {
            return Some(i);
        }
        i += 1;
    }
    None
}

/// Index of the first quiz whose UUID equals `uuid`.
pub fn find_quiz_by_uuid(quizzes: &Vec<Quiz>, uuid: &String) -> (r: Option<usize>)
    ensures
        match r {
            Some(i) => quiz_at_uuid(quizzes@, uuid@, i as int),
            None => !has_quiz_uuid(quizzes@, uuid@),
        },
{
    let n = quizzes.len();
    let mut i: usize = 0;
    while i < n
        invariant
            i <= n,
            n == quizzes@.len(),
            forall|j: int| 0 <= j < i ==> quizzes@[j].uuid@ != uuid@,
        decreases n - i,
    {
        if quizzes[i].uuid.eq(uuid) {
            return Some(i);
        }
        i += 1;
    }
    None
}

/// Index of the membership row for the pair `(userid, labelset)`.
pub fn find_user_labelset(rows: &Vec<UserLabelSet>, userid: i32, labelset: i32) -> (r: Option<
    usize,
>)
    ensures
        match r {
            Some(i) => i < rows@.len() && rows@[i as int].userid == userid && rows@[
                i as int
            ].labelset == labelset,
            None => !has_user_labelset(rows@, userid, labelset),
        },
{
    let n = rows.len();
    let mut i: usize = 0;
    while i < n
        invariant
            i <= n,
            n == rows@.len(),
            forall|j: int|
                0 <= j < i ==> !(rows@[j].userid == userid && rows@[j].labelset == labelset),
        decreases n - i,
    {
        if rows[i].userid == userid && rows[i].labelset == labelset {
            return Some(i);
        }
        i += 1;
    }
    None
}

/// A filter keeps key pairs pairwise distinct when they were distinct
/// before.
pub proof fn lemma_filter_distinct_by_pair<A>(
    s: Seq<A>,
    pred: spec_fn(A) -> bool,
    key: spec_fn(A) -> (int, int),
)
    requires
        forall|i: int, j: int| 0 <= i < j < s.len() ==> key(s[i]) != key(s[j]),
    ensures
        forall|i: int, j: int|
            0 <= i < j < s.filter(pred).len() ==> key(#[trigger] s.filter(pred)[i]) != key(
                #[trigger] s.filter(pred)[j],
            ),
    decreases s.len(),
{
    reveal(Seq::filter);
    if s.len() > 0 {
        assert forall|i: int, j: int| 0 <= i < j < s.drop_last().len() implies key(
            s.drop_last()[i],
        ) != key(s.drop_last()[j]) by {
            assert(s.drop_last()[i] == s[i]);
            assert(s.drop_last()[j] == s[j]);
        }
        lemma_filter_distinct_by_pair(s.drop_last(), pred, key);
        lemma_filter_elems_in(s.drop_last(), pred);
        let out = s.filter(pred);
        let rest = s.drop_last().filter(pred);
        assert forall|i: int, j: int| 0 <= i < j < out.len() implies key(out[i]) != key(
            out[j],
        ) by {
            if j < rest.len() {
                assert(out[i] == rest[i] && out[j] == rest[j]);
            } else if pred(s.last()) && j == out.len() - 1 && out.len() == rest.len() + 1 {
                assert(out[j] == s.last());
                assert(out[i] == rest[i]);
                assert(s.drop_last().contains(rest[i]));
                let m = choose|m: int|
                    0 <= m < s.drop_last().len() && s.drop_last()[m] == rest[i];
                assert(s[m] == rest[i]);
                assert(key(s[m]) != key(s[s.len() - 1]));
            }
        }
    }
}

// ---------------------------------------------------------------------
// Exec cascade deletions.  Each walks its table from the back, popping
// rows and keeping the survivors in their original order.
// ---------------------------------------------------------------------

/// Delete every label whose parent is `sid`, keeping table order.
pub fn remove_labels_of(v: &mut Vec<Label>, sid: i32)
    ensures
        final(v)@ == labels_except(old(v)@, sid),
{
    let ghost orig = v@;
    let mut kept: Vec<Label> = Vec::new();
    proof {
        reveal(Seq::filter);
        assert(labels_except(orig, sid) =~= labels_except(v@, sid) + kept@);
    }
    while v.len() > 0
        invariant
            labels_except(orig, sid) == labels_except(v@, sid) + kept@,
        decreases v@.len(),
    {
        let ghost prev = v@;
        let l = v.pop().unwrap();
        proof {
            reveal(Seq::filter);
            assert(v@ == prev.drop_last());
        }
        if l.labelset != sid {
            let ghost kept0 = kept@;
            kept.insert(0, l);
            proof {
                assert(kept@ =~= seq![l] + kept0);
                assert(labels_except(prev, sid) == labels_except(prev.drop_last(), sid).push(l));
                assert(labels_except(prev.drop_last(), sid).push(l) + kept0 =~= labels_except(
                    prev.drop_last(),
                    sid,
                ) + kept@);
            }
        }
    }
    proof {
        reveal(Seq::filter);
        assert(labels_except(v@, sid) + kept@ =~= kept@);
    }
    *v = kept;
}

/// Delete every question whose parent is `qid`, keeping table order.
pub fn remove_questions_of(v: &mut Vec<Question>, qid: i32)
    ensures
        final(v)@ == questions_except(old(v)@, qid),
{
    let ghost orig = v@;
    let mut kept: Vec<Question> = Vec::new();
    proof {
        reveal(Seq::filter);
        assert(questions_except(orig, qid) =~= questions_except(v@, qid) + kept@);
    }
    while v.len() > 0
        invariant
            questions_except(orig, qid) == questions_except(v@, qid) + kept@,
        decreases v@.len(),
    {
        let ghost prev = v@;
        let q = v.pop().unwrap();
        proof {
            reveal(Seq::filter);
            assert(v@ == prev.drop_last());
        }
        if q.quiz != qid {
            let ghost kept0 = kept@;
            kept.insert(0, q);
            proof {
                assert(kept@ =~= seq![q] + kept0);
                assert(questions_except(prev, qid) == questions_except(
                    prev.drop_last(),
                    qid,
                ).push(q));
                assert(questions_except(prev.drop_last(), qid).push(q) + kept0
                    =~= questions_except(prev.drop_last(), qid) + kept@);
            }
        }
    }
    proof {
        reveal(Seq::filter);
        assert(questions_except(v@, qid) + kept@ =~= kept@);
    }
    *v = kept;
}

/// Delete every quiz-membership row that refers to quiz `qid`, keeping
/// table order.
pub fn remove_user_quizzes_of(v: &mut Vec<UserQuiz>, qid: i32)
    ensures
        final(v)@ == user_quizzes_except(old(v)@, qid),
{
    let ghost orig = v@;
    let mut kept: Vec<UserQuiz> = Vec::new();
    proof {
        reveal(Seq::filter);
        assert(user_quizzes_except(orig, qid) =~= user_quizzes_except(v@, qid) + kept@);
    }
    while v.len() > 0
        invariant
            user_quizzes_except(orig, qid) == user_quizzes_except(v@, qid) + kept@,
        decreases v@.len(),
    {
        let ghost prev = v@;
        let r = v.pop().unwrap();
        proof {
            reveal(Seq::filter);
            assert(v@ == prev.drop_last());
        }
        if r.quiz != qid {
            let ghost kept0 = kept@;
            kept.insert(0, r);
            proof {
                assert(kept@ =~= seq![r] + kept0);
                assert(user_quizzes_except(prev, qid) == user_quizzes_except(
                    prev.drop_last(),
                    qid,
                ).push(r));
                assert(user_quizzes_except(prev.drop_last(), qid).push(r) + kept0
                    =~= user_quizzes_except(prev.drop_last(), qid) + kept@);
            }
        }
    }
    proof {
        reveal(Seq::filter);
        assert(user_quizzes_except(v@, qid) + kept@ =~= kept@);
    }
    *v = kept;
}

/// Index of the membership row for the pair `(userid, quiz)`.
pub fn find_user_quiz(rows: &Vec<UserQuiz>, userid: i32, quiz: i32) -> (r: Option<usize>)
    ensures
        match r {
            Some(i) => i < rows@.len() && rows@[i as int].userid == userid && rows@[i as int].quiz
                == quiz,
            None => !has_user_quiz(rows@, userid, quiz),
        },
{
    let n = rows.len();
    let mut i: usize = 0;
    while i < n
        invariant
            i <= n,
            n == rows@.len(),
            forall|j: int| 0 <= j < i ==> !(rows@[j].userid == userid && rows@[j].quiz == quiz),
        decreases n - i,
    {
        if rows[i].userid == userid && rows[i].quiz == quiz {
            return Some(i);
        }
        i += 1;
    }
    None
}

} // verus!
