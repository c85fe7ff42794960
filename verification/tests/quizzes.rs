//! Quiz authoring scenarios: the missing-label-set refusal, the
//! round trip through the store, the question field mapping, and the
//! delete cascades.

use anatomy_backend::authentication::Moderator;
use anatomy_backend::labels::{create as create_labelset, load_by_uuid as load_set, JsonLabelSet};
use anatomy_backend::models;
use anatomy_backend::quiz::{add, create, delete, load, put, JsonQuestion, JsonQuiz};
use anatomy_backend::store::Db;

fn moderator() -> Moderator {
    Moderator(models::User {
        id: 1,
        username: "mod".to_string(),
        password: Vec::new(),
        privilege: 2,
    })
}

fn any_user() -> anatomy_backend::authentication::User {
    anatomy_backend::authentication::User(models::User {
        id: 1,
        username: "mod".to_string(),
        password: Vec::new(),
        privilege: 0,
    })
}

fn store_with_labelset() -> (Db, i32) {
    let mut db = Db::new();
    let payload = JsonLabelSet {
        id: None,
        uuid: None,
        name: "head".to_string(),
        model: 1,
        labels: Vec::new(),
    };
    let uuid = create_labelset(&mut db, &payload).unwrap();
    let sid = load_set(&db, &uuid).unwrap().id.unwrap();
    (db, sid)
}

fn quiz_payload(label_set: i32) -> JsonQuiz {
    JsonQuiz {
        id: None,
        name: "q".to_string(),
        label_set,
        shuffle: false,
        questions: vec![JsonQuestion {
            question_type: 2,
            text_prompt: "where is the eye".to_string(),
            text_answer: Some("here".to_string()),
            label_id: None,
            show_regions: Some(true),
        }],
    }
}

#[test]
fn quiz_with_missing_labelset_is_a_noop() {
    let mut db = Db::new();
    let payload = JsonQuiz {
        id: None,
        name: "q".to_string(),
        label_set: 9999,
        shuffle: false,
        questions: Vec::new(),
    };
    let r = create(&mut db, &payload, &moderator());
    assert_eq!(r, Ok(None));
    assert_eq!(db.quizzes.len(), 0);
    assert_eq!(db.questions.len(), 0);
}

#[test]
fn quiz_round_trip() {
    let (mut db, sid) = store_with_labelset();
    let payload = quiz_payload(sid);
    let uuid = create(&mut db, &payload, &moderator()).unwrap().unwrap();

    let j = load(&db, &uuid, &any_user()).expect("quiz must be readable by UUID");
    assert_eq!(j.name, "q");
    assert_eq!(j.label_set, sid);
    assert_eq!(j.shuffle, false);
    assert_eq!(j.questions.len(), 1);
    let q = &j.questions[0];
    assert_eq!(q.question_type, 2);
    assert_eq!(q.text_prompt, "where is the eye");
    assert_eq!(q.text_answer, Some("here".to_string()));
    assert_eq!(q.label_id, None);
    assert_eq!(q.show_regions, Some(true));
}

#[test]
fn upsert_replaces_questions_and_keeps_identity() {
    let (mut db, sid) = store_with_labelset();
    let payload = quiz_payload(sid);
    let uuid = create(&mut db, &payload, &moderator()).unwrap().unwrap();
    let first = load(&db, &uuid, &any_user()).unwrap();

    let mut replaced = quiz_payload(sid);
    replaced.questions = Vec::new();
    replaced.shuffle = true;
    let answered = put(&mut db, &uuid, &replaced, &moderator()).unwrap().unwrap();
    assert_eq!(answered, uuid);

    let second = load(&db, &uuid, &any_user()).unwrap();
    assert_eq!(second.id, first.id);
    assert_eq!(second.questions.len(), 0);
    assert_eq!(second.shuffle, true);
    assert!(db.questions.iter().all(|q| q.quiz != first.id.unwrap()));
}

#[test]
fn delete_cascades_questions_and_memberships() {
    let (mut db, sid) = store_with_labelset();
    let uuid = create(&mut db, &quiz_payload(sid), &moderator()).unwrap().unwrap();
    let qid = load(&db, &uuid, &any_user()).unwrap().id.unwrap();
    db.users.push(models::User {
        id: 1,
        username: "mod".to_string(),
        password: Vec::new(),
        privilege: 2,
    });
    db.next_user_id = 2;
    db.userquizzes.push(models::UserQuiz { userid: 1, quiz: qid });

    assert_eq!(delete(&mut db, &uuid, &moderator()), Some(()));
    assert!(load(&db, &uuid, &any_user()).is_none());
    assert!(db.questions.iter().all(|q| q.quiz != qid));
    assert!(db.userquizzes.iter().all(|r| r.quiz != qid));

    assert_eq!(delete(&mut db, &uuid, &moderator()), None);
}

#[test]
fn question_field_mapping() {
    let payload = JsonQuiz {
        id: None,
        name: "q".to_string(),
        label_set: 1,
        shuffle: true,
        questions: vec![
            JsonQuestion {
                question_type: 0,
                text_prompt: "a".to_string(),
                text_answer: None,
                label_id: Some(5),
                show_regions: Some(true),
            },
            JsonQuestion {
                question_type: 1,
                text_prompt: "b".to_string(),
                text_answer: None,
                label_id: None,
                show_regions: Some(false),
            },
            JsonQuestion {
                question_type: 2,
                text_prompt: "c".to_string(),
                text_answer: None,
                label_id: None,
                show_regions: None,
            },
        ],
    };
    let row = payload.to_db_quiz("u-9");
    assert_eq!(row.uuid, "u-9");
    assert_eq!(row.name, "q");
    assert_eq!(row.labelset, 1);
    assert_eq!(row.shuffle, 1);

    let rows = payload.to_db_questions(7);
    assert_eq!(rows.len(), 3);
    assert!(rows.iter().all(|r| r.quiz == 7));
    // true -> 1, false -> 0, absent -> 0
    assert_eq!(rows[0].showregions, 1);
    assert_eq!(rows[1].showregions, 0);
    assert_eq!(rows[2].showregions, 0);
    assert_eq!(rows[0].label, Some(5));
    assert_eq!(rows[0].textprompt, "a");
}

#[test]
fn add_under_known_uuid_creates_row() {
    let (mut db, sid) = store_with_labelset();
    let uuid = "6f9619ff-8b86-4d01-b42d-00cf4fc964ff".to_string();
    let r = add(&mut db, &uuid, &quiz_payload(sid), &moderator());
    assert_eq!(r, Ok(Some(uuid.clone())));
    assert!(load(&db, &uuid, &any_user()).is_some());
}
