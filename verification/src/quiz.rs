//! Quiz authoring: upsert-by-UUID of a named quiz scoped to one label
//! set, with its replaceable list of questions; reads by UUID; and
//! deletion, which cascades both the questions and the quiz-membership
//! rows.

use vstd::prelude::*;

use crate::api::ApiError;
use crate::authentication::{Moderator, User};
use crate::models::{NewQuestion, NewQuiz, Question, Quiz};
use crate::store::{
    find_labelset_by_id, find_quiz_by_uuid, has_labelset_id, has_quiz_id, has_quiz_uuid,
    lemma_filter_absorb, lemma_filter_all, lemma_filter_distinct_by,
    lemma_filter_distinct_by_pair, lemma_filter_elems_in, lemma_filter_none, not_of_quiz, of_quiz,
    membership_not_of_quiz, questions_except, questions_of, quiz_at_uuid, remove_questions_of,
    remove_user_quizzes_of, user_quizzes_except, Db,
};
use crate::util;

verus! {

/// Wire aggregate of a quiz (camelCase JSON on the wire).
pub struct JsonQuiz {
    pub id: Option<i32>,
    pub name: String,
    pub label_set: i32,
    pub shuffle: bool,
    pub questions: Vec<JsonQuestion>,
}

/// Wire form of one question.
pub struct JsonQuestion {
    pub question_type: i16,
    pub text_prompt: String,
    pub text_answer: Option<String>,
    pub label_id: Option<i32>,
    pub show_regions: Option<bool>,
}

/// Ghost record of the wire-visible fields of one question; a stored
/// row, a submitted question and a prepared insert all project onto it.
#[verifier::ext_equal]
pub ghost struct QuestionFields {
    pub questiontype: i16,
    pub textprompt: Seq<char>,
    pub textanswer: Option<Seq<char>>,
    pub label: Option<i32>,
    pub showregions: i16,
}

/// How a JSON `showRegions` value is stored: true is 1, false and
/// absent are 0.
pub open spec fn spec_show_regions(b: Option<bool>) -> i16 {
    match b {
        Some(true) => 1,
        _ => 0,
    }
}

/// How a JSON `shuffle` boolean is stored.
pub open spec fn spec_shuffle(b: bool) -> i16 {
    if b {
        1
    } else {
        0
    }
}

/// Wire-visible fields of a stored question row.
pub open spec fn question_fields(q: Question) -> QuestionFields {
    QuestionFields {
        questiontype: q.questiontype,
        textprompt: q.textprompt@,
        textanswer: match q.textanswer {
            Some(s) => Some(s@),
            None => None,
        },
        label: q.label,
        showregions: q.showregions,
    }
}

/// Wire-visible fields of a submitted question.
pub open spec fn json_question_fields(j: JsonQuestion) -> QuestionFields {
    QuestionFields {
        questiontype: j.question_type,
        textprompt: j.text_prompt@,
        textanswer: match j.text_answer {
            Some(s) => Some(s@),
            None => None,
        },
        label: j.label_id,
        showregions: spec_show_regions(j.show_regions),
    }
}

/// Wire-visible fields of a prepared insert row.
pub open spec fn new_question_fields(n: NewQuestion) -> QuestionFields {
    QuestionFields {
        questiontype: n.questiontype,
        textprompt: n.textprompt@,
        textanswer: match n.textanswer {
            Some(s) => Some(s@),
            None => None,
        },
        label: n.label,
        showregions: n.showregions,
    }
}

/// Field projection of a whole question table.
pub open spec fn question_views(qs: Seq<Question>) -> Seq<QuestionFields> {
    qs.map_values(|q: Question| question_fields(q))
}

/// Field projection of a submitted question list.
pub open spec fn json_question_views(js: Seq<JsonQuestion>) -> Seq<QuestionFields> {
    js.map_values(|j: JsonQuestion| json_question_fields(j))
}

/// Field projection of a prepared insert list.
pub open spec fn new_question_views(ns: Seq<NewQuestion>) -> Seq<QuestionFields> {
    ns.map_values(|n: NewQuestion| new_question_fields(n))
}

/// Wire-visible fields of the questions of quiz `qid`, in table order.
pub open spec fn question_views_of(qs: Seq<Question>, qid: i32) -> Seq<QuestionFields> {
    question_views(questions_of(qs, qid))
}

/// The question rows a successful upsert of `js` writes: parent `qid`,
/// fresh ids counted from `start`, submitted fields kept in order.
pub open spec fn upsert_question_rows(js: Seq<JsonQuestion>, qid: i32, start: int) -> Seq<
    Question,
> {
    Seq::new(
        js.len(),
        |k: int|
            Question {
                id: (start + k) as i32,
                quiz: qid,
                questiontype: js[k].question_type,
                textprompt: js[k].text_prompt,
                textanswer: js[k].text_answer,
                label: js[k].label_id,
                showregions: spec_show_regions(js[k].show_regions),
            },
    )
}

impl JsonQuestion {
    /// Wire form of one stored question row.
    pub fn from_question(q: &Question) -> (r: JsonQuestion)
        requires
            0 <= q.showregions <= 1,
        ensures
            json_question_fields(r) == question_fields(*q),
    {
        JsonQuestion {
            question_type: q.questiontype,
            text_prompt: q.textprompt.clone(),
            text_answer: match &q.textanswer {
                Some(s) => Some(s.clone()),
                None => None,
            },
            label_id: q.label,
            show_regions: Some(q.showregions != 0),
        }
    }
}

impl JsonQuiz {
    /// The `quizzes` row contents this payload writes under `uuid`.
    pub fn to_db_quiz(&self, uuid: &str) -> (r: NewQuiz)
        ensures
            r.uuid@ == uuid@,
            r.name@ == self.name@,
            r.labelset == self.label_set,
            r.shuffle == spec_shuffle(self.shuffle),
    {
        NewQuiz {
            uuid: uuid.to_owned(),
            name: self.name.clone(),
            labelset: self.label_set,
            shuffle: if self.shuffle {
                1
            } else {
                0
            },
        }
    }

    /// The `questions` rows this payload writes for quiz `quiz_id`.
    pub fn to_db_questions(&self, quiz_id: i32) -> (r: Vec<NewQuestion>)
        ensures
            new_question_views(r@) == json_question_views(self.questions@),
            forall|k: int| 0 <= k < r@.len() ==> (#[trigger] r@[k]).quiz == quiz_id,
    {
        let mut out: Vec<NewQuestion> = Vec::new();
        let n = self.questions.len();
        let mut i: usize = 0;
        proof {
            assert(new_question_views(out@) =~= json_question_views(self.questions@.take(0)));
        }
        while i < n
            invariant
                i <= n,
                n == self.questions@.len(),
                new_question_views(out@) == json_question_views(self.questions@.take(i as int)),
                forall|k: int| 0 <= k < out@.len() ==> (#[trigger] out@[k]).quiz == quiz_id,
            decreases n - i,
        {
            let ghost out0 = out@;
            let q = &self.questions[i];
            let row = NewQuestion {
                quiz: quiz_id,
                questiontype: q.question_type,
                textprompt: q.text_prompt.clone(),
                textanswer: match &q.text_answer {
                    Some(s) => Some(s.clone()),
                    None => None,
                },
                label: q.label_id,
                showregions: match q.show_regions {
                    Some(true) => 1,
                    _ => 0,
                },
            };
            let ghost rv = row;
            out.push(row);
            proof {
                let t1 = self.questions@.take(i as int + 1);
                assert(out@.len() == out0.len() + 1);
                assert(new_question_views(out0).len() == out0.len());
                assert(json_question_views(self.questions@.take(i as int)).len() == i as int);
                assert(out0.len() == i as int);
                assert forall|k: int|
                    0 <= k < new_question_views(out@).len() implies new_question_views(out@)[k]
                    =~~= json_question_views(t1)[k] by {
                    assert(t1[k] == self.questions@[k]);
                    if k < out0.len() {
                        assert(out@[k] == out0[k]);
                        assert(new_question_views(out0)[k] == new_question_fields(out0[k]));
                        assert(json_question_views(self.questions@.take(i as int))[k]
                            == json_question_fields(self.questions@[k]));
                    } else {
                        assert(out@[k] == rv);
                    }
                }
                assert(new_question_views(out@) =~~= json_question_views(t1));
            }
            i += 1;
        }
        proof {
            assert(self.questions@.take(n as int) =~= self.questions@);
        }
        out
    }

    /// Rebuild the wire aggregate from a stored quiz row and its
    /// questions.
    pub fn from_db(quiz: Quiz, questions: Vec<Question>) -> (r: JsonQuiz)
        requires
            0 <= quiz.shuffle <= 1,
            forall|i: int|
                0 <= i < questions@.len() ==> 0 <= (#[trigger] questions@[i]).showregions <= 1,
        ensures
            r.id == Some(quiz.id),
            r.name == quiz.name,
            r.label_set == quiz.labelset,
            r.shuffle == (quiz.shuffle == 1),
            json_question_views(r.questions@) == question_views(questions@),
    {
        let mut out: Vec<JsonQuestion> = Vec::new();
        let n = questions.len();
        let mut i: usize = 0;
        proof {
            assert(json_question_views(out@) =~= question_views(questions@.take(0)));
        }
        while i < n
            invariant
                i <= n,
                n == questions@.len(),
                forall|k: int|
                    0 <= k < questions@.len() ==> 0 <= (#[trigger] questions@[k]).showregions
                        <= 1,
                json_question_views(out@) == question_views(questions@.take(i as int)),
            decreases n - i,
        {
            let ghost out0 = out@;
            let jq = JsonQuestion::from_question(&questions[i]);
            let ghost jv = jq;
            out.push(jq);
            proof {
                let t1 = questions@.take(i as int + 1);
                assert(out@.len() == out0.len() + 1);
                assert(json_question_views(out0).len() == out0.len());
                assert(question_views(questions@.take(i as int)).len() == i as int);
                assert(out0.len() == i as int);
                assert forall|k: int|
                    0 <= k < json_question_views(out@).len() implies json_question_views(out@)[k]
                    =~~= question_views(t1)[k] by {
                    assert(t1[k] == questions@[k]);
                    if k < out0.len() {
                        assert(out@[k] == out0[k]);
                        assert(json_question_views(out0)[k] == json_question_fields(out0[k]));
                        assert(question_views(questions@.take(i as int))[k] == question_fields(
                            questions@[k],
                        ));
                    } else {
                        assert(out@[k] == jv);
                    }
                }
                assert(json_question_views(out@) =~~= question_views(t1));
            }
            i += 1;
        }
        proof {
            assert(questions@.take(n as int) =~= questions@);
        }
        JsonQuiz {
            id: Some(quiz.id),
            name: quiz.name,
            label_set: quiz.labelset,
            shuffle: quiz.shuffle == 1,
            questions: out,
        }
    }
}

/// The wire aggregate `j` renders the stored quiz row `q` whose
/// questions stand in `questions`.
pub open spec fn json_quiz_matches_row(j: JsonQuiz, q: Quiz, questions: Seq<Question>) -> bool {
    &&& j.id == Some(q.id)
    &&& j.name@ == q.name@
    &&& j.label_set == q.labelset
    &&& j.shuffle == (q.shuffle == 1)
    &&& json_question_views(j.questions@) == question_views_of(questions, q.id)
}

/// Copies of the question rows of quiz `qid`, in table order.
fn collect_question_rows_of(questions: &Vec<Question>, qid: i32) -> (r: Vec<Question>)
    ensures
        r@ == questions_of(questions@, qid),
{
    let mut out: Vec<Question> = Vec::new();
    let n = questions.len();
    let mut i: usize = 0;
    while i < n
        invariant
            i <= n,
            n == questions@.len(),
            out@ == questions_of(questions@.take(i as int), qid),
        decreases n - i,
    {
        let ghost t0 = questions@.take(i as int);
        let ghost t1 = questions@.take(i as int + 1);
        proof {
            reveal(Seq::filter);
            assert(t1.drop_last() =~= t0);
            assert(t1.last() == questions@[i as int]);
        }
        if questions[i].quiz == qid {
            let q = &questions[i];
            let copy = Question {
                id: q.id,
                quiz: q.quiz,
                questiontype: q.questiontype,
                textprompt: q.textprompt.clone(),
                textanswer: match &q.textanswer {
                    Some(s) => Some(s.clone()),
                    None => None,
                },
                label: q.label,
                showregions: q.showregions,
            };
            assert(copy == questions@[i as int]);
            out.push(copy);
        }
        i += 1;
    }
    proof {
        assert(questions@.take(n as int) =~= questions@);
    }
    out
}

/// `GET /quiz/<uuid>` (AnyUser): the aggregate of the quiz with that
/// UUID, or `None` when there is none.
pub fn load(db: &Db, uuid: &String, _auth: &User) -> (r: Option<JsonQuiz>)
    requires
        db.wf(),
    ensures
        match r {
            Some(j) => exists|i: int|
                #[trigger] quiz_at_uuid(db.quizzes@, uuid@, i) && json_quiz_matches_row(
                    j,
                    db.quizzes@[i],
                    db.questions@,
                ),
            None => !has_quiz_uuid(db.quizzes@, uuid@),
        },
{
    let found = find_quiz_by_uuid(&db.quizzes, uuid);
    match found {
        None => None,
        Some(i) => {
            let q = &db.quizzes[i];
            let row = Quiz {
                id: q.id,
                uuid: q.uuid.clone(),
                name: q.name.clone(),
                labelset: q.labelset,
                shuffle: q.shuffle,
            };
            let rows = collect_question_rows_of(&db.questions, row.id);
            proof {
                lemma_filter_elems_in(db.questions@, of_quiz(row.id));
                assert forall|k: int|
                    0 <= k < rows@.len() implies 0 <= (#[trigger] rows@[k]).showregions <= 1 by {
                    assert(db.questions@.contains(rows@[k]));
                    let m = choose|m: int|
                        0 <= m < db.questions@.len() && db.questions@[m] == rows@[k];
                    assert(0 <= db.questions@[m].showregions <= 1);
                }
            }
            let result = JsonQuiz::from_db(row, rows);
            proof {
                assert(quiz_at_uuid(db.quizzes@, uuid@, i as int));
                assert(json_quiz_matches_row(result, db.quizzes@[i as int], db.questions@));
            }
            Some(result)
        },
    }
}

/// The row of `post.quizzes` at index `i` carries the submitted name,
/// label set and shuffle flag, its questions are exactly the submitted
/// list, and the questions of every other quiz are as they were in
/// `pre`.
pub open spec fn quiz_upserted(pre: Db, post: Db, data: JsonQuiz, i: int) -> bool {
    let q = post.quizzes@[i];
    &&& q.name@ == data.name@
    &&& q.labelset == data.label_set
    &&& q.shuffle == spec_shuffle(data.shuffle)
    &&& json_question_views(data.questions@) == question_views_of(post.questions@, q.id)
    &&& forall|qid: i32|
        qid != q.id ==> questions_of(post.questions@, qid) == questions_of(pre.questions@, qid)
}

/// `POST /quiz/` and `PUT /quiz/<uuid>` share this body (Moderator):
/// refuse the write when the referenced label set does not exist;
/// otherwise create or overwrite the `quizzes` row keyed by the UUID
/// and replace its questions with the submitted list.
pub fn add(db: &mut Db, uuid: &String, quiz: &JsonQuiz, _auth: &Moderator) -> (r: Result<
    Option<String>,
    ApiError,
>)
    requires
        old(db).wf(),
        old(db).next_quiz_id < i32::MAX,
        old(db).next_question_id + quiz.questions@.len() < i32::MAX,
    ensures
        final(db).wf(),
        !has_labelset_id(old(db).labelsets@, quiz.label_set) ==> r == Ok::<
            Option<String>,
            ApiError,
        >(None) && *final(db) == *old(db),
        has_labelset_id(old(db).labelsets@, quiz.label_set) ==> {
            &&& r matches Ok(o) && o matches Some(u) && u@ == uuid@
            &&& has_quiz_uuid(final(db).quizzes@, uuid@)
            &&& forall|i: int|
                #[trigger] quiz_at_uuid(final(db).quizzes@, uuid@, i) ==> quiz_upserted(
                    *old(db),
                    *final(db),
                    *quiz,
                    i,
                )
            &&& forall|i: int, j: int|
                quiz_at_uuid(old(db).quizzes@, uuid@, i) && quiz_at_uuid(
                    final(db).quizzes@,
                    uuid@,
                    j,
                ) ==> final(db).quizzes@[j].id == old(db).quizzes@[i].id
            &&& forall|i: int|
                0 <= i < old(db).quizzes@.len() && old(db).quizzes@[i].uuid@ != uuid@ ==> final(db).quizzes@.contains(old(db).quizzes@[i])
            &&& forall|i: int|
                0 <= i < final(db).quizzes@.len() && final(db).quizzes@[i].uuid@ != uuid@ ==> old(db).quizzes@.contains(final(db).quizzes@[i])
        },
        final(db).users@ == old(db).users@,
        final(db).models@ == old(db).models@,
        final(db).labelsets@ == old(db).labelsets@,
        final(db).labels@ == old(db).labels@,
        final(db).userlabelsets@ == old(db).userlabelsets@,
        final(db).userquizzes@ == old(db).userquizzes@,
        old(db).next_quiz_id <= final(db).next_quiz_id <= old(db).next_quiz_id + 1,
        final(db).next_question_id <= old(db).next_question_id + quiz.questions@.len(),
        final(db).next_user_id == old(db).next_user_id,
        final(db).next_model_id == old(db).next_model_id,
        final(db).next_labelset_id == old(db).next_labelset_id,
        final(db).next_label_id == old(db).next_label_id,
{
    let ghost pre = *db;
    // make sure the label set exists
    if find_labelset_by_id(&db.labelsets, quiz.label_set).is_none() {
        return Ok(None);
    }
    let found = find_quiz_by_uuid(&db.quizzes, uuid);
    let qid: i32;
    let ghost quiz_idx: int;
    let ghost existed: bool;
    match found {
        Some(i) => {
            qid = db.quizzes[i].id;
            let row = Quiz {
                id: qid,
                uuid: uuid.clone(),
                name: quiz.name.clone(),
                labelset: quiz.label_set,
                shuffle: if quiz.shuffle {
                    1
                } else {
                    0
                },
            };
            db.quizzes.set(i, row);
            proof {
                quiz_idx = i as int;
                existed = true;
            }
        },
        None => {
            qid = db.next_quiz_id;
            db.next_quiz_id = db.next_quiz_id + 1;
            let row = Quiz {
                id: qid,
                uuid: uuid.clone(),
                name: quiz.name.clone(),
                labelset: quiz.label_set,
                shuffle: if quiz.shuffle {
                    1
                } else {
                    0
                },
            };
            db.quizzes.push(row);
            proof {
                quiz_idx = db.quizzes@.len() - 1;
                existed = false;
            }
        },
    }
    let ghost quizzes1 = db.quizzes@;
    proof {
        let prerows = pre.quizzes@;
        assert(forall|j: int|
            0 <= j < quizzes1.len() && j != quiz_idx ==> quizzes1[j] == prerows[j]);
        assert(quiz_at_uuid(quizzes1, uuid@, quiz_idx));
        assert(quizzes1[quiz_idx].id == qid);
        assert(quizzes1[quiz_idx].name@ == quiz.name@);
        assert(quizzes1[quiz_idx].labelset == quiz.label_set);
        assert(quizzes1[quiz_idx].shuffle == spec_shuffle(quiz.shuffle));
        assert forall|j: int| quiz_at_uuid(quizzes1, uuid@, j) implies j == quiz_idx by {
            if j != quiz_idx {
                assert(quizzes1[j] == prerows[j]);
                assert(quiz_at_uuid(prerows, uuid@, j));
                if existed {
                    assert(prerows[quiz_idx].uuid@ == uuid@);
                    if j < quiz_idx {
                        assert(prerows[j].uuid@ != prerows[quiz_idx].uuid@);
                    } else {
                        assert(prerows[quiz_idx].uuid@ != prerows[j].uuid@);
                    }
                }
            }
        }
        assert forall|i: int| quiz_at_uuid(prerows, uuid@, i) implies prerows[i].id == qid by {
            if existed {
                if i < quiz_idx {
                    assert(prerows[i].uuid@ != prerows[quiz_idx].uuid@);
                } else if i > quiz_idx {
                    assert(prerows[quiz_idx].uuid@ != prerows[i].uuid@);
                }
            }
        }
        assert forall|i: int, j: int| 0 <= i < j < quizzes1.len() implies quizzes1[i].id
            != quizzes1[j].id && quizzes1[i].uuid@ != quizzes1[j].uuid@ by {
            if existed {
                assert(quizzes1[quiz_idx].id == prerows[quiz_idx].id);
                assert(quizzes1[quiz_idx].uuid@ == prerows[quiz_idx].uuid@);
            } else {
                if j == quiz_idx {
                    assert(1 <= prerows[i].id < qid);
                    assert(!quiz_at_uuid(prerows, uuid@, i));
                    assert(prerows[i].uuid@ != uuid@);
                }
            }
        }
        assert forall|i: int| 0 <= i < quizzes1.len() implies 1 <= (#[trigger] quizzes1[i]).id
            < db.next_quiz_id && 0 <= quizzes1[i].shuffle <= 1 by {
            if existed {
                assert(quizzes1[quiz_idx].id == prerows[quiz_idx].id);
            }
        }
        assert forall|id: i32| has_quiz_id(prerows, id) implies has_quiz_id(quizzes1, id) by {
            let w = choose|w: int| 0 <= w < prerows.len() && prerows[w].id == id;
            if w == quiz_idx {
                assert(quizzes1[quiz_idx].id == id);
            } else {
                assert(quizzes1[w].id == id);
            }
        }
        assert(has_quiz_id(quizzes1, qid));
        assert forall|j: int|
            0 <= j < prerows.len() && prerows[j].uuid@ != uuid@ implies quizzes1.contains(
            prerows[j],
        ) by {
            assert(j != quiz_idx ==> quizzes1[j] == prerows[j]);
            if existed && j == quiz_idx {
                assert(prerows[quiz_idx].uuid@ == uuid@);
            }
        }
        assert forall|j: int|
            0 <= j < quizzes1.len() && quizzes1[j].uuid@ != uuid@ implies prerows.contains(
            quizzes1[j],
        ) by {
            assert(j != quiz_idx);
            assert(quizzes1[j] == prerows[j]);
        }
    }
    remove_questions_of(&mut db.questions, qid);
    let ghost base = db.questions@;
    let ghost start = db.next_question_id as int;
    let ghost nqz = db.next_quiz_id;
    let n = quiz.questions.len();
    let mut k: usize = 0;
    while k < n
        invariant
            k <= n,
            n == quiz.questions@.len(),
            db.next_question_id == start + k,
            start + n < i32::MAX,
            1 <= start,
            db.questions@ == base + upsert_question_rows(quiz.questions@.take(k as int), qid, start),
            db.quizzes@ == quizzes1,
            db.next_quiz_id == nqz,
            db.users@ == pre.users@,
            db.models@ == pre.models@,
            db.labelsets@ == pre.labelsets@,
            db.labels@ == pre.labels@,
            db.userlabelsets@ == pre.userlabelsets@,
            db.userquizzes@ == pre.userquizzes@,
            db.next_user_id == pre.next_user_id,
            db.next_model_id == pre.next_model_id,
            db.next_labelset_id == pre.next_labelset_id,
            db.next_label_id == pre.next_label_id,
        decreases n - k,
    {
        let jq = &quiz.questions[k];
        let id = db.next_question_id;
        let row = Question {
            id,
            quiz: qid,
            questiontype: jq.question_type,
            textprompt: jq.text_prompt.clone(),
            textanswer: match &jq.text_answer {
                Some(s) => Some(s.clone()),
                None => None,
            },
            label: jq.label_id,
            showregions: match jq.show_regions {
                Some(true) => 1,
                _ => 0,
            },
        };
        db.questions.push(row);
        db.next_question_id = db.next_question_id + 1;
        proof {
            assert(db.questions@ =~= base + upsert_question_rows(
                quiz.questions@.take(k as int + 1),
                qid,
                start,
            ));
        }
        k += 1;
    }
    proof {
        assert(quiz.questions@.take(n as int) =~= quiz.questions@);
        lemma_quiz_add_post(pre, *db, uuid@, *quiz, quiz_idx, qid, base, start);
    }
    Ok(Some(uuid.clone()))
}

/// Everything `add` promises once the label set was found, derived
/// from the state its body has established.
proof fn lemma_quiz_add_post(
    pre: Db,
    post: Db,
    uuid: Seq<char>,
    data: JsonQuiz,
    quiz_idx: int,
    qid: i32,
    base: Seq<Question>,
    start: int,
)
    requires
        pre.wf(),
        pre.next_quiz_id < i32::MAX,
        start == pre.next_question_id,
        start + data.questions@.len() < i32::MAX,
        base == questions_except(pre.questions@, qid),
        post.questions@ == base + upsert_question_rows(data.questions@, qid, start),
        post.next_question_id == start + data.questions@.len(),
        post.users@ == pre.users@,
        post.models@ == pre.models@,
        post.labelsets@ == pre.labelsets@,
        post.labels@ == pre.labels@,
        post.userlabelsets@ == pre.userlabelsets@,
        post.userquizzes@ == pre.userquizzes@,
        post.next_user_id == pre.next_user_id,
        post.next_model_id == pre.next_model_id,
        post.next_labelset_id == pre.next_labelset_id,
        post.next_label_id == pre.next_label_id,
        post.next_quiz_id == pre.next_quiz_id || post.next_quiz_id == pre.next_quiz_id + 1,
        // the rewritten quiz table
        quiz_at_uuid(post.quizzes@, uuid, quiz_idx),
        post.quizzes@[quiz_idx].id == qid,
        post.quizzes@[quiz_idx].name@ == data.name@,
        post.quizzes@[quiz_idx].labelset == data.label_set,
        post.quizzes@[quiz_idx].shuffle == spec_shuffle(data.shuffle),
        forall|j: int| quiz_at_uuid(post.quizzes@, uuid, j) ==> j == quiz_idx,
        forall|i: int, j: int|
            0 <= i < j < post.quizzes@.len() ==> post.quizzes@[i].id != post.quizzes@[j].id,
        forall|i: int, j: int|
            0 <= i < j < post.quizzes@.len() ==> post.quizzes@[i].uuid@ != post.quizzes@[j].uuid@,
        forall|i: int|
            0 <= i < post.quizzes@.len() ==> 1 <= (#[trigger] post.quizzes@[i]).id
                < post.next_quiz_id && 0 <= post.quizzes@[i].shuffle <= 1,
        forall|id: i32| has_quiz_id(pre.quizzes@, id) ==> has_quiz_id(post.quizzes@, id),
        has_quiz_id(post.quizzes@, qid),
    ensures
        post.wf(),
        has_quiz_uuid(post.quizzes@, uuid),
        forall|i: int| quiz_at_uuid(post.quizzes@, uuid, i) ==> quiz_upserted(pre, post, data, i),
{
    let news = upsert_question_rows(data.questions@, qid, start);
    let key = |q: Question| q.id as int;
    lemma_filter_elems_in(pre.questions@, not_of_quiz(qid));
    lemma_filter_distinct_by(pre.questions@, not_of_quiz(qid), key);
    assert forall|k: int| 0 <= k < base.len() implies 1 <= #[trigger] base[k].id < start
        && base[k].quiz != qid && has_quiz_id(post.quizzes@, base[k].quiz) && 0 <= base[
        k
    ].showregions <= 1 by {
        assert(pre.questions@.contains(base[k]));
        let m = choose|m: int| 0 <= m < pre.questions@.len() && pre.questions@[m] == base[k];
        assert(1 <= pre.questions@[m].id < pre.next_question_id);
        assert(has_quiz_id(pre.quizzes@, pre.questions@[m].quiz));
        pre.questions@.lemma_filter_pred(not_of_quiz(qid), k);
    }
    assert(forall|k: int|
        0 <= k < news.len() ==> (#[trigger] news[k]).id == start + k && news[k].quiz == qid && 0
            <= news[k].showregions <= 1);
    assert forall|i: int, j: int|
        0 <= i < j < post.questions@.len() implies post.questions@[i].id != post.questions@[
        j
    ].id by {
        let bl = base.len() as int;
        if j < bl {
            assert(key(base[i]) != key(base[j]));
        } else if i >= bl {
            assert(post.questions@[i] == news[i - bl]);
            assert(post.questions@[j] == news[j - bl]);
        } else {
            assert(post.questions@[i] == base[i]);
            assert(post.questions@[j] == news[j - bl]);
            assert(base[i].id < start);
            assert(news[j - bl].id == start + (j - bl));
        }
    }
    assert forall|i: int| 0 <= i < post.questions@.len() implies 1 <= (
    #[trigger] post.questions@[i]).id < post.next_question_id && has_quiz_id(
        post.quizzes@,
        post.questions@[i].quiz,
    ) && 0 <= post.questions@[i].showregions <= 1 by {
        let bl = base.len() as int;
        if i < bl {
            assert(post.questions@[i] == base[i]);
        } else {
            assert(post.questions@[i] == news[i - bl]);
        }
    }
    assert(post.questions_wf());
    assert(post.users_wf());
    assert(post.models_wf());
    assert(post.labelsets_wf());
    assert(post.quizzes_wf());
    // the label table is untouched and its parents survive
    assert forall|i: int| 0 <= i < post.labels@.len() implies crate::store::has_labelset_id(
        post.labelsets@,
        (#[trigger] post.labels@[i]).labelset,
    ) by {}
    assert(post.labels_wf());
    // memberships: only the quiz table changed, and its ids survive
    assert forall|i: int| 0 <= i < post.userquizzes@.len() implies has_quiz_id(
        post.quizzes@,
        (#[trigger] post.userquizzes@[i]).quiz,
    ) by {
        assert(has_quiz_id(pre.quizzes@, pre.userquizzes@[i].quiz));
    }
    assert(post.memberships_wf());
    assert(post.wf());
    // the upserted content
    Seq::filter_distributes_over_add(base, news, of_quiz(qid));
    assert forall|k: int| 0 <= k < base.len() implies !(of_quiz(qid)(#[trigger] base[k])) by {}
    lemma_filter_none(base, of_quiz(qid));
    assert forall|k: int| 0 <= k < news.len() implies of_quiz(qid)(#[trigger] news[k]) by {}
    lemma_filter_all(news, of_quiz(qid));
    assert(questions_of(post.questions@, qid) =~= news);
    assert(question_views(news) =~~= json_question_views(data.questions@));
    assert forall|qid2: i32| qid2 != qid implies questions_of(post.questions@, qid2)
        == questions_of(pre.questions@, qid2) by {
        Seq::filter_distributes_over_add(base, news, of_quiz(qid2));
        assert forall|k: int| 0 <= k < news.len() implies !(of_quiz(qid2)(
            #[trigger] news[k],
        )) by {}
        lemma_filter_none(news, of_quiz(qid2));
        assert forall|x: Question| #[trigger] of_quiz(qid2)(x) implies not_of_quiz(qid)(x) by {}
        lemma_filter_absorb(pre.questions@, not_of_quiz(qid), of_quiz(qid2));
        assert(questions_of(post.questions@, qid2) =~= questions_of(pre.questions@, qid2));
    }
    assert forall|i: int| quiz_at_uuid(post.quizzes@, uuid, i) implies quiz_upserted(
        pre,
        post,
        data,
        i,
    ) by {
        assert(i == quiz_idx);
    }
}

/// `POST /quiz/` (Moderator): clear any client-supplied id, mint a
/// fresh UUID and delegate to `add`.
pub fn create(db: &mut Db, data: &JsonQuiz, auth: &Moderator) -> (r: Result<
    Option<String>,
    ApiError,
>)
    requires
        old(db).wf(),
        old(db).next_quiz_id < i32::MAX,
        old(db).next_question_id + data.questions@.len() < i32::MAX,
    ensures
        final(db).wf(),
        !has_labelset_id(old(db).labelsets@, data.label_set) ==> r == Ok::<
            Option<String>,
            ApiError,
        >(None) && *final(db) == *old(db),
        has_labelset_id(old(db).labelsets@, data.label_set) ==> (r matches Ok(o) && o matches Some(
            u,
        ) && (util::is_uuid_text(u@) && has_quiz_uuid(final(db).quizzes@, u@) && forall|i: int|
            #[trigger] quiz_at_uuid(final(db).quizzes@, u@, i) ==> quiz_upserted(
                *old(db),
                *final(db),
                *data,
                i,
            ))),
        final(db).users@ == old(db).users@,
        final(db).models@ == old(db).models@,
        final(db).labelsets@ == old(db).labelsets@,
        final(db).labels@ == old(db).labels@,
        final(db).userlabelsets@ == old(db).userlabelsets@,
        final(db).userquizzes@ == old(db).userquizzes@,
        old(db).next_quiz_id <= final(db).next_quiz_id <= old(db).next_quiz_id + 1,
        final(db).next_question_id <= old(db).next_question_id + data.questions@.len(),
        final(db).next_user_id == old(db).next_user_id,
        final(db).next_model_id == old(db).next_model_id,
        final(db).next_labelset_id == old(db).next_labelset_id,
        final(db).next_label_id == old(db).next_label_id,
{
    let uuid = util::create_uuid();
    crate::quiz::add(db, &uuid, data, auth)
}

/// `PUT /quiz/<uuid>` (Moderator): upsert under the given UUID.
pub fn put(db: &mut Db, uuid: &String, data: &JsonQuiz, auth: &Moderator) -> (r: Result<
    Option<String>,
    ApiError,
>)
    requires
        old(db).wf(),
        old(db).next_quiz_id < i32::MAX,
        old(db).next_question_id + data.questions@.len() < i32::MAX,
    ensures
        final(db).wf(),
        !has_labelset_id(old(db).labelsets@, data.label_set) ==> r == Ok::<
            Option<String>,
            ApiError,
        >(None) && *final(db) == *old(db),
        has_labelset_id(old(db).labelsets@, data.label_set) ==> {
            &&& r matches Ok(o) && o matches Some(u) && u@ == uuid@
            &&& has_quiz_uuid(final(db).quizzes@, uuid@)
            &&& forall|i: int|
                #[trigger] quiz_at_uuid(final(db).quizzes@, uuid@, i) ==> quiz_upserted(
                    *old(db),
                    *final(db),
                    *data,
                    i,
                )
        },
        final(db).users@ == old(db).users@,
        final(db).models@ == old(db).models@,
        final(db).labelsets@ == old(db).labelsets@,
        final(db).labels@ == old(db).labels@,
        final(db).userlabelsets@ == old(db).userlabelsets@,
        final(db).userquizzes@ == old(db).userquizzes@,
        old(db).next_quiz_id <= final(db).next_quiz_id <= old(db).next_quiz_id + 1,
        final(db).next_question_id <= old(db).next_question_id + data.questions@.len(),
        final(db).next_user_id == old(db).next_user_id,
        final(db).next_model_id == old(db).next_model_id,
        final(db).next_labelset_id == old(db).next_labelset_id,
        final(db).next_label_id == old(db).next_label_id,
{
    crate::quiz::add(db, uuid, data, auth)
}

/// `DELETE /quiz/<uuid>` (Moderator): remove the quiz with that UUID,
/// its questions, and the quiz-membership rows that refer to it.
pub fn delete(db: &mut Db, uuid: &String, _auth: &Moderator) -> (r: Option<()>)
    requires
        old(db).wf(),
    ensures
        final(db).wf(),
        r == Some(()) <==> has_quiz_uuid(old(db).quizzes@, uuid@),
        r is None ==> *final(db) == *old(db),
        r == Some(()) ==> !has_quiz_uuid(final(db).quizzes@, uuid@),
        r == Some(()) ==> forall|i: int|
            #[trigger] quiz_at_uuid(old(db).quizzes@, uuid@, i) ==> final(db).quizzes@ == old(db).quizzes@.remove(i) && final(db).questions@ == questions_except(
                old(db).questions@,
                old(db).quizzes@[i].id,
            ) && final(db).userquizzes@ == user_quizzes_except(
                old(db).userquizzes@,
                old(db).quizzes@[i].id,
            ) && (forall|j: int|
                0 <= j < final(db).questions@.len() ==> (#[trigger] final(db).questions@[j]).quiz
                    != old(db).quizzes@[i].id) && (forall|j: int|
                0 <= j < final(db).userquizzes@.len() ==> (#[trigger] final(db).userquizzes@[j]).quiz != old(db).quizzes@[i].id),
        final(db).users@ == old(db).users@,
        final(db).models@ == old(db).models@,
        final(db).labelsets@ == old(db).labelsets@,
        final(db).labels@ == old(db).labels@,
        final(db).userlabelsets@ == old(db).userlabelsets@,
        final(db).next_user_id == old(db).next_user_id,
        final(db).next_model_id == old(db).next_model_id,
        final(db).next_labelset_id == old(db).next_labelset_id,
        final(db).next_label_id == old(db).next_label_id,
        final(db).next_quiz_id == old(db).next_quiz_id,
        final(db).next_question_id == old(db).next_question_id,
{
    let ghost pre = *db;
    let found = find_quiz_by_uuid(&db.quizzes, uuid);
    match found {
        None => None,
        Some(i) => {
            let qid = db.quizzes[i].id;
            db.quizzes.remove(i);
            remove_questions_of(&mut db.questions, qid);
            remove_user_quizzes_of(&mut db.userquizzes, qid);
            proof {
                lemma_quiz_delete_post(pre, *db, uuid@, i as int, qid);
            }
            Some(())
        },
    }
}

/// Well-formedness and the cascade shape after deleting the quiz at
/// `quiz_idx` and filtering its questions and membership rows away.
proof fn lemma_quiz_delete_post(pre: Db, post: Db, uuid: Seq<char>, quiz_idx: int, qid: i32)
    requires
        pre.wf(),
        quiz_at_uuid(pre.quizzes@, uuid, quiz_idx),
        pre.quizzes@[quiz_idx].id == qid,
        post.quizzes@ == pre.quizzes@.remove(quiz_idx),
        post.questions@ == questions_except(pre.questions@, qid),
        post.userquizzes@ == user_quizzes_except(pre.userquizzes@, qid),
        post.users@ == pre.users@,
        post.models@ == pre.models@,
        post.labelsets@ == pre.labelsets@,
        post.labels@ == pre.labels@,
        post.userlabelsets@ == pre.userlabelsets@,
        post.next_user_id == pre.next_user_id,
        post.next_model_id == pre.next_model_id,
        post.next_labelset_id == pre.next_labelset_id,
        post.next_label_id == pre.next_label_id,
        post.next_quiz_id == pre.next_quiz_id,
        post.next_question_id == pre.next_question_id,
    ensures
        post.wf(),
        !has_quiz_uuid(post.quizzes@, uuid),
        forall|j: int| 0 <= j < post.questions@.len() ==> (#[trigger] post.questions@[j]).quiz
            != qid,
        forall|j: int| 0 <= j < post.userquizzes@.len() ==> (#[trigger] post.userquizzes@[j]).quiz
            != qid,
{
    let key = |q: Question| q.id as int;
    lemma_filter_elems_in(pre.questions@, not_of_quiz(qid));
    lemma_filter_distinct_by(pre.questions@, not_of_quiz(qid), key);
    assert forall|k: int| 0 <= k < post.questions@.len() implies 1 <= (
    #[trigger] post.questions@[k]).id < post.next_question_id && post.questions@[k].quiz != qid
        && has_quiz_id(post.quizzes@, post.questions@[k].quiz) && 0 <= post.questions@[
        k
    ].showregions <= 1 by {
        assert(pre.questions@.contains(post.questions@[k]));
        let m = choose|m: int|
            0 <= m < pre.questions@.len() && pre.questions@[m] == post.questions@[k];
        assert(1 <= pre.questions@[m].id < pre.next_question_id);
        pre.questions@.lemma_filter_pred(not_of_quiz(qid), k);
        assert(has_quiz_id(pre.quizzes@, pre.questions@[m].quiz));
        let w = choose|w: int|
            0 <= w < pre.quizzes@.len() && pre.quizzes@[w].id == pre.questions@[m].quiz;
        assert(w != quiz_idx);
        if w < quiz_idx {
            assert(post.quizzes@[w].id == pre.questions@[m].quiz);
        } else {
            assert(post.quizzes@[w - 1].id == pre.questions@[m].quiz);
        }
    }
    let qflt = pre.questions@.filter(not_of_quiz(qid));
    assert(post.questions@ == qflt);
    assert(forall|a: int, b: int|
        0 <= a < b < qflt.len() ==> key(#[trigger] qflt[a]) != key(#[trigger] qflt[b]));
    assert forall|i: int, j: int|
        0 <= i < j < post.questions@.len() implies post.questions@[i].id != post.questions@[
        j
    ].id by {
        assert(key(qflt[i]) != key(qflt[j]));
    }
    assert(post.questions_wf());
    // the membership rows
    let pkey = |r: crate::models::UserQuiz| (r.userid as int, r.quiz as int);
    lemma_filter_elems_in(pre.userquizzes@, membership_not_of_quiz(qid));
    lemma_filter_distinct_by_pair(pre.userquizzes@, membership_not_of_quiz(qid), pkey);
    assert forall|k: int| 0 <= k < post.userquizzes@.len() implies crate::store::has_user_id(
        post.users@,
        (#[trigger] post.userquizzes@[k]).userid,
    ) && post.userquizzes@[k].quiz != qid && has_quiz_id(
        post.quizzes@,
        post.userquizzes@[k].quiz,
    ) by {
        assert(pre.userquizzes@.contains(post.userquizzes@[k]));
        let m = choose|m: int|
            0 <= m < pre.userquizzes@.len() && pre.userquizzes@[m] == post.userquizzes@[k];
        pre.userquizzes@.lemma_filter_pred(membership_not_of_quiz(qid), k);
        assert(crate::store::has_user_id(pre.users@, pre.userquizzes@[m].userid));
        assert(has_quiz_id(pre.quizzes@, pre.userquizzes@[m].quiz));
        let w = choose|w: int|
            0 <= w < pre.quizzes@.len() && pre.quizzes@[w].id == pre.userquizzes@[m].quiz;
        assert(w != quiz_idx);
        if w < quiz_idx {
            assert(post.quizzes@[w].id == pre.userquizzes@[m].quiz);
        } else {
            assert(post.quizzes@[w - 1].id == pre.userquizzes@[m].quiz);
        }
    }
    let mflt = pre.userquizzes@.filter(membership_not_of_quiz(qid));
    assert(post.userquizzes@ == mflt);
    assert(forall|a: int, b: int|
        0 <= a < b < mflt.len() ==> pkey(#[trigger] mflt[a]) != pkey(#[trigger] mflt[b]));
    assert forall|i: int, j: int| 0 <= i < j < post.userquizzes@.len() implies !(
    post.userquizzes@[i].userid == post.userquizzes@[j].userid && post.userquizzes@[i].quiz
        == post.userquizzes@[j].quiz) by {
        assert(pkey(mflt[i]) != pkey(mflt[j]));
    }
    assert(post.memberships_wf());
    // the quiz table itself
    assert forall|j: int| 0 <= j < post.quizzes@.len() implies post.quizzes@[j].uuid@ != uuid by {
        if j < quiz_idx {
            assert(post.quizzes@[j] == pre.quizzes@[j]);
            assert(pre.quizzes@[j].uuid@ != pre.quizzes@[quiz_idx].uuid@);
        } else {
            assert(post.quizzes@[j] == pre.quizzes@[j + 1]);
            assert(pre.quizzes@[quiz_idx].uuid@ != pre.quizzes@[j + 1].uuid@);
        }
    }
    assert(post.quizzes_wf());
    assert(post.users_wf());
    assert(post.models_wf());
    assert(post.labelsets_wf());
    assert forall|i: int| 0 <= i < post.labels@.len() implies crate::store::has_labelset_id(
        post.labelsets@,
        (#[trigger] post.labels@[i]).labelset,
    ) by {}
    assert(post.labels_wf());
    assert(post.wf());
}

} // verus!
