//! Small helpers: fresh UUID text, and the path scheme of the legacy
//! JSON file store.

use vstd::prelude::*;
use vstd::string::StringExecFns;

verus! {

/// Character `i` of a canonical UUID rendering: a hyphen at positions
/// 8, 13, 18 and 23, a lowercase hex digit everywhere else.
pub open spec fn uuid_char_ok(s: Seq<char>, i: int) -> bool {
    if i == 8 || i == 13 || i == 18 || i == 23 {
        s[i] == '-'
    } else {
        ('0' <= s[i] && s[i] <= '9') || ('a' <= s[i] && s[i] <= 'f')
    }
}

/// The canonical hyphenated lowercase UUID text shape: 36 characters in
/// five hyphen-separated groups of lowercase hex digits.
pub open spec fn is_uuid_text(s: Seq<char>) -> bool {
    &&& s.len() == 36
    &&& forall|i: int| 0 <= i < 36 ==> uuid_char_ok(s, i)
}

/// Relies on `uuid::Uuid::new_v4` and its `Display` implementation: a
/// fresh version-4 UUID rendered as canonical hyphenated lowercase
/// text.  The value itself is random, so only its shape is stated.
#[verifier::external_body]
pub fn create_uuid() -> (r: String)
    ensures
        is_uuid_text(r@),
{
    uuid::Uuid::new_v4().to_string()
}

/// Path of the JSON document for `file` under `path`:
/// `<path>/<file>.json`.
pub fn json_path(path: &str, file: &str) -> (r: String)
    ensures
        r@ == path@ + "/"@ + file@ + ".json"@,
{
    let mut s = path.to_owned();
    s.append("/");
    s.append(file);
    s.append(".json");
    s
}

} // verus!
