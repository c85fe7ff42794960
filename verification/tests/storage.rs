//! Asset-store scenarios: the upload cap, the filename safety rule,
//! row bookkeeping for uploads, and the list and lookup reads.

use anatomy_backend::api::ApiError;
use anatomy_backend::authentication::{Admin, User};
use anatomy_backend::models;
use anatomy_backend::modelstorage::{
    filename_is_safe, list, lookup, upload, upload_material, upload_texture, upload_written,
    UPLOAD_SIZE_LIMIT,
};
use anatomy_backend::store::Db;

fn admin() -> Admin {
    Admin(models::User {
        id: 1,
        username: "root".to_string(),
        password: Vec::new(),
        privilege: 1,
    })
}

fn viewer() -> User {
    User(models::User {
        id: 1,
        username: "root".to_string(),
        password: Vec::new(),
        privilege: 0,
    })
}

#[test]
fn upload_cap_formula() {
    assert_eq!(UPLOAD_SIZE_LIMIT, 78643200);
    // a 78 MiB body is truncated to exactly 75 MiB
    assert_eq!(upload_written(78 * 1024 * 1024), 78643200);
    // a body under the cap is written whole
    assert_eq!(upload_written(100), 100);
    assert_eq!(upload_written(UPLOAD_SIZE_LIMIT), UPLOAD_SIZE_LIMIT);
    assert_eq!(upload_written(UPLOAD_SIZE_LIMIT + 1), UPLOAD_SIZE_LIMIT);
}

#[test]
fn filename_safety_rule() {
    assert!(filename_is_safe("foo.obj"));
    assert!(filename_is_safe("scene_2.mtl"));
    assert!(!filename_is_safe(""));
    assert!(!filename_is_safe("a/b.obj"));
    assert!(!filename_is_safe("a\\b.obj"));
    assert!(!filename_is_safe("../etc/passwd"));
    assert!(!filename_is_safe("a..b"));
    assert!(!filename_is_safe("nul\0byte"));
}

#[test]
fn upload_records_a_row() {
    let mut db = Db::new();
    let id = upload(&mut db, &"foo.obj".to_string(), &admin()).unwrap();
    assert_eq!(id, 1);
    assert_eq!(db.models.len(), 1);
    assert_eq!(db.models[0].filename, "foo.obj");
    assert_eq!(db.models[0].material, None);
    assert_eq!(db.models[0].texture, None);

    let r = upload(&mut db, &"../escape".to_string(), &admin());
    assert_eq!(r, Err(ApiError::Validation));
    assert_eq!(db.models.len(), 1);
}

#[test]
fn material_and_texture_updates() {
    let mut db = Db::new();
    let id = upload(&mut db, &"foo.obj".to_string(), &admin()).unwrap();

    assert_eq!(upload_material(&mut db, id, &"foo.mtl".to_string(), &admin()), Ok(1));
    assert_eq!(db.models[0].material, Some("foo.mtl".to_string()));

    assert_eq!(upload_texture(&mut db, id, &"foo.png".to_string(), &admin()), Ok(1));
    assert_eq!(db.models[0].texture, Some("foo.png".to_string()));
    // the earlier material assignment is untouched
    assert_eq!(db.models[0].material, Some("foo.mtl".to_string()));

    // an id that matches no row updates nothing, as the SQL update does
    assert_eq!(upload_material(&mut db, 999, &"x.mtl".to_string(), &admin()), Ok(0));
    assert_eq!(
        upload_material(&mut db, id, &"../x.mtl".to_string(), &admin()),
        Err(ApiError::Validation)
    );
}

#[test]
fn list_and_lookup() {
    let mut db = Db::new();
    let a = upload(&mut db, &"a.obj".to_string(), &admin()).unwrap();
    let b = upload(&mut db, &"b.obj".to_string(), &admin()).unwrap();
    assert_ne!(a, b);

    let all = list(&db, &viewer());
    assert_eq!(all.len(), 2);
    assert_eq!(all[0].filename, "a.obj");
    assert_eq!(all[1].filename, "b.obj");

    let one = lookup(&db, b, &viewer()).unwrap();
    assert_eq!(one.filename, "b.obj");
    assert!(lookup(&db, 999, &viewer()).is_none());
}
