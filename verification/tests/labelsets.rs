//! Label-set authoring scenarios: upsert by UUID, reads by id and
//! UUID, replacement of the label list, and the delete cascade.

use anatomy_backend::labels::{create, delete, load, load_by_uuid, put, JsonLabel, JsonLabelSet};
use anatomy_backend::models::{Label, LabelSet};
use anatomy_backend::store::Db;

fn one_label_payload() -> JsonLabelSet {
    JsonLabelSet {
        id: None,
        uuid: None,
        name: "head".to_string(),
        model: 1,
        labels: vec![JsonLabel {
            colour: "#FF0000".to_string(),
            name: "eye".to_string(),
            vertices: "[1,2,3]".to_string(),
        }],
    }
}

fn labels_of(j: &JsonLabelSet) -> Vec<(String, String, String)> {
    j.labels
        .iter()
        .map(|l| (l.colour.clone(), l.name.clone(), l.vertices.clone()))
        .collect()
}

#[test]
fn post_then_read_back() {
    let mut db = Db::new();
    let data = one_label_payload();
    let uuid = create(&mut db, &data).unwrap();

    // the minted identity is a canonical hyphenated lowercase UUID
    assert_eq!(uuid.len(), 36);
    let bytes = uuid.as_bytes();
    for (i, b) in bytes.iter().enumerate() {
        if i == 8 || i == 13 || i == 18 || i == 23 {
            assert_eq!(*b, b'-');
        } else {
            assert!(b.is_ascii_hexdigit() && !b.is_ascii_uppercase());
        }
    }

    let j = load_by_uuid(&db, &uuid).expect("the set must be readable by its UUID");
    assert_eq!(j.uuid, Some(uuid.clone()));
    assert_eq!(j.name, "head");
    assert_eq!(j.model, 1);
    assert_eq!(
        labels_of(&j),
        vec![("#FF0000".to_string(), "eye".to_string(), "[1,2,3]".to_string())]
    );

    // the same aggregate is served under its integer id
    let by_id = load(&db, j.id.unwrap()).expect("the set must be readable by id");
    assert_eq!(by_id.uuid, Some(uuid));
    assert_eq!(labels_of(&by_id), labels_of(&j));
}

#[test]
fn upsert_replaces_labels() {
    let mut db = Db::new();
    let data = one_label_payload();
    let uuid = create(&mut db, &data).unwrap();
    let first = load_by_uuid(&db, &uuid).unwrap();

    let mut emptied = one_label_payload();
    emptied.labels = Vec::new();
    let answered = put(&mut db, &uuid, &emptied).unwrap();
    assert_eq!(answered, uuid);

    let second = load_by_uuid(&db, &uuid).unwrap();
    assert_eq!(second.labels.len(), 0);
    // identity is stable across upserts
    assert_eq!(second.id, first.id);
    // no leftover label rows for this set
    assert!(db.labels.iter().all(|l| l.labelset != first.id.unwrap()));
}

#[test]
fn upsert_keeps_other_sets() {
    let mut db = Db::new();
    let a = create(&mut db, &one_label_payload()).unwrap();
    let mut other = one_label_payload();
    other.name = "torso".to_string();
    other.labels[0].name = "rib".to_string();
    let b = create(&mut db, &other).unwrap();

    let mut emptied = one_label_payload();
    emptied.labels = Vec::new();
    put(&mut db, &a, &emptied).unwrap();

    let j = load_by_uuid(&db, &b).unwrap();
    assert_eq!(j.labels.len(), 1);
    assert_eq!(j.labels[0].name, "rib");
}

#[test]
fn delete_removes_set_and_labels() {
    let mut db = Db::new();
    let uuid = create(&mut db, &one_label_payload()).unwrap();
    let j = load_by_uuid(&db, &uuid).unwrap();
    let sid = j.id.unwrap();

    assert_eq!(delete(&mut db, &uuid), Some(()));
    assert!(load_by_uuid(&db, &uuid).is_none());
    assert!(db.labels.iter().all(|l| l.labelset != sid));

    // deleting again answers the 404 path
    assert_eq!(delete(&mut db, &uuid), None);
}

#[test]
fn load_missing_is_none() {
    let db = Db::new();
    assert!(load_by_uuid(&db, &"no-such-uuid".to_string()).is_none());
    assert!(load(&db, 42).is_none());
}

#[test]
fn conversion_helpers_carry_fields() {
    let data = one_label_payload();
    let row = data.to_new_label_set(&"u-1".to_string());
    assert_eq!(row.uuid, "u-1");
    assert_eq!(row.name, "head");
    assert_eq!(row.model, 1);

    let nl = data.labels[0].to_new_label(9);
    assert_eq!(nl.labelset, 9);
    assert_eq!(nl.colour, "#FF0000");
    assert_eq!(nl.name, "eye");
    assert_eq!(nl.vertices, "[1,2,3]");
}

#[test]
fn from_db_rebuilds_the_aggregate() {
    let set = LabelSet { id: 3, uuid: "u-3".to_string(), name: "head".to_string(), model: 1 };
    let rows = vec![Label {
        id: 10,
        labelset: 3,
        name: "eye".to_string(),
        colour: "#00FF00".to_string(),
        vertices: "[4]".to_string(),
    }];
    let j = JsonLabelSet::from_db(set, rows);
    assert_eq!(j.id, Some(3));
    assert_eq!(j.uuid, Some("u-3".to_string()));
    assert_eq!(j.labels.len(), 1);
    assert_eq!(j.labels[0].colour, "#00FF00");
    assert_eq!(j.labels[0].vertices, "[4]");
}
