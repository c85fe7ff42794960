//! Small helpers: fresh UUID text and the legacy JSON path scheme.

use anatomy_backend::util::{create_uuid, json_path};

#[test]
fn json_path_shape() {
    assert_eq!(json_path("/data", "abc"), "/data/abc.json");
    assert_eq!(json_path("labels", "x-1"), "labels/x-1.json");
}

#[test]
fn fresh_uuids_are_canonical_and_distinct() {
    let a = create_uuid();
    let b = create_uuid();
    assert_ne!(a, b);
    for u in [&a, &b] {
        assert_eq!(u.len(), 36);
        for (i, c) in u.bytes().enumerate() {
            if i == 8 || i == 13 || i == 18 || i == 23 {
                assert_eq!(c, b'-');
            } else {
                assert!(c.is_ascii_hexdigit() && !c.is_ascii_uppercase());
            }
        }
    }
}
