//! User–resource membership scenarios: add, duplicate add, delete and
//! listing, for label sets and for quizzes.

use anatomy_backend::api::ApiError;
use anatomy_backend::authentication::{Moderator, User};
use anatomy_backend::labels::{create as create_labelset, load_by_uuid as load_set, JsonLabelSet};
use anatomy_backend::models;
use anatomy_backend::quiz::{create as create_quiz, JsonQuiz};
use anatomy_backend::store::Db;
use anatomy_backend::users::labelsets;
use anatomy_backend::users::quizzes;

fn user_one() -> User {
    User(models::User {
        id: 1,
        username: "alice".to_string(),
        password: Vec::new(),
        privilege: 0,
    })
}

fn store_with_user_and_set() -> (Db, String) {
    let mut db = Db::new();
    db.users.push(models::User {
        id: 1,
        username: "alice".to_string(),
        password: Vec::new(),
        privilege: 0,
    });
    db.next_user_id = 2;
    let payload = JsonLabelSet {
        id: None,
        uuid: None,
        name: "head".to_string(),
        model: 1,
        labels: Vec::new(),
    };
    let uuid = create_labelset(&mut db, &payload).unwrap();
    (db, uuid)
}

#[test]
fn labelset_membership_idempotence_and_missing() {
    let (mut db, uuid) = store_with_user_and_set();
    let user = user_one();

    // a UUID that resolves to nothing answers the 404 path
    let r = labelsets::add(&mut db, &"zzzz".to_string(), &user);
    assert_eq!(r, Ok(None));

    // first add succeeds, second violates the composite key
    assert_eq!(labelsets::add(&mut db, &uuid, &user), Ok(Some(())));
    assert_eq!(labelsets::add(&mut db, &uuid, &user), Err(ApiError::Storage));

    // delete once, then the association is gone
    assert_eq!(labelsets::delete(&mut db, &uuid, &user), Ok(Some(())));
    assert_eq!(labelsets::delete(&mut db, &uuid, &user), Ok(None));
    assert_eq!(labelsets::delete(&mut db, &"zzzz".to_string(), &user), Ok(None));
}

#[test]
fn labelset_membership_listing() {
    let (mut db, uuid) = store_with_user_and_set();
    let user = user_one();

    assert_eq!(labelsets::get(&db, &user).len(), 0);
    labelsets::add(&mut db, &uuid, &user).unwrap();
    let listed = labelsets::get(&db, &user);
    assert_eq!(listed.len(), 1);
    assert_eq!(listed[0].name, "head");
    assert_eq!(listed[0].uuid, uuid);

    let set = load_set(&db, &uuid).unwrap();
    assert_eq!(listed[0].id, set.id.unwrap());

    let entry = labelsets::JsonUserLabelSets::from_set(&models::LabelSet {
        id: 4,
        uuid: "u-4".to_string(),
        name: "torso".to_string(),
        model: 2,
    });
    assert_eq!(entry.id, 4);
    assert_eq!(entry.name, "torso");
    assert_eq!(entry.uuid, "u-4");
}

#[test]
fn quiz_membership_round() {
    let (mut db, _uuid) = store_with_user_and_set();
    let user = user_one();
    let sid = db.labelsets[0].id;
    let moderator = Moderator(models::User {
        id: 1,
        username: "alice".to_string(),
        password: Vec::new(),
        privilege: 2,
    });
    let quiz_uuid = create_quiz(
        &mut db,
        &JsonQuiz {
            id: None,
            name: "q".to_string(),
            label_set: sid,
            shuffle: false,
            questions: Vec::new(),
        },
        &moderator,
    )
    .unwrap()
    .unwrap();

    assert_eq!(quizzes::add(&mut db, &"zzzz".to_string(), &user), Ok(None));
    assert_eq!(quizzes::add(&mut db, &quiz_uuid, &user), Ok(Some(())));
    assert_eq!(quizzes::add(&mut db, &quiz_uuid, &user), Err(ApiError::Storage));

    let listed = quizzes::get(&db, &user);
    assert_eq!(listed.len(), 1);
    assert_eq!(listed[0].name, "q");
    assert_eq!(listed[0].uuid, quiz_uuid);

    assert_eq!(quizzes::delete(&mut db, &quiz_uuid, &user), Ok(Some(())));
    assert_eq!(quizzes::delete(&mut db, &quiz_uuid, &user), Ok(None));
    assert_eq!(quizzes::get(&db, &user).len(), 0);

    let entry = quizzes::JsonUserQuiz::from_quiz(&models::Quiz {
        id: 9,
        uuid: "u-9".to_string(),
        name: "other".to_string(),
        labelset: sid,
        shuffle: 0,
    });
    assert_eq!(entry.id, 9);
    assert_eq!(entry.uuid, "u-9");
    assert_eq!(entry.name, "other");
}

#[test]
fn deleting_labelset_keeps_membership_rows() {
    // the deliberate cascade gap: label-set deletion leaves its
    // membership rows behind
    let (mut db, uuid) = store_with_user_and_set();
    let user = user_one();
    labelsets::add(&mut db, &uuid, &user).unwrap();
    let before = db.userlabelsets.len();
    anatomy_backend::labels::delete(&mut db, &uuid).unwrap();
    assert_eq!(db.userlabelsets.len(), before);
}
