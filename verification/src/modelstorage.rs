//! Asset-store bookkeeping: the `models` rows behind the admin upload
//! routes, the upload size cap, and the filename safety rule.  The
//! byte streaming itself happens outside the library; the surrounding
//! application writes `<models-dir>/<filename>` and reports the count
//! this module pins down.

use vstd::prelude::*;
use vstd::string::StrSliceExecFns;

use crate::api::ApiError;
use crate::authentication::{Admin, User};
use crate::models::Model;
use crate::store::{find_model_by_id, has_model_id, Db};

verus! {

/// One mebibyte.
pub const MIB: u64 = 1048576;

/// Upload size cap: request bodies are truncated here.
pub const UPLOAD_SIZE_LIMIT: u64 = 75 * MIB;

/// Character `i` of a stored filename may not be a path separator or
/// NUL.
pub open spec fn filename_char_ok(s: Seq<char>, i: int) -> bool {
    s[i] != '/' && s[i] != '\\' && s[i] != '\0'
}

/// No `..` starts at position `i`.
pub open spec fn no_dotdot_at(s: Seq<char>, i: int) -> bool {
    !(s[i] == '.' && s[i + 1] == '.')
}

/// A filename is stored verbatim under the models directory, so it
/// must be non-empty and free of path separators, `..` and NUL.
pub open spec fn spec_filename_safe(s: Seq<char>) -> bool {
    &&& s.len() > 0
    &&& forall|i: int| 0 <= i < s.len() ==> filename_char_ok(s, i)
    &&& forall|i: int| 0 <= i && i + 1 < s.len() ==> no_dotdot_at(s, i)
}

/// Decide the filename safety rule.
pub fn filename_is_safe(name: &str) -> (r: bool)
    ensures
        r == spec_filename_safe(name@),
{
    let n = name.unicode_len();
    if n == 0 {
        return false;
    }
    let mut i: usize = 0;
    let mut prev_dot = false;
    while i < n
        invariant
            i <= n,
            n == name@.len(),
            forall|j: int| 0 <= j < i ==> filename_char_ok(name@, j),
            forall|j: int| 0 <= j && j + 1 < i ==> no_dotdot_at(name@, j),
            prev_dot == (i > 0 && name@[i as int - 1] == '.'),
        decreases n - i,
    {
        let c = name.get_char(i);
        if c == '/' || c == '\\' || c == '\0' {
            proof {
                assert(!filename_char_ok(name@, i as int));
            }
            return false;
        }
        if c == '.' && prev_dot {
            proof {
                assert(!no_dotdot_at(name@, i as int - 1));
            }
            return false;
        }
        prev_dot = c == '.';
        i += 1;
    }
    true
}

/// The byte count an upload of `body_len` bytes answers: the body is
/// streamed to disk, truncated at the cap.
pub fn upload_written(body_len: u64) -> (r: u64)
    ensures
        body_len <= UPLOAD_SIZE_LIMIT ==> r == body_len,
        body_len > UPLOAD_SIZE_LIMIT ==> r == UPLOAD_SIZE_LIMIT,
{
    if body_len <= UPLOAD_SIZE_LIMIT {
        body_len
    } else {
        UPLOAD_SIZE_LIMIT
    }
}

/// `PUT /modelstorage/upload/<filename>` (Admin), the row part: after
/// the file lands on disk, record a fresh `models` row for it.  A
/// filename that could escape the directory is rejected outright.
pub fn upload(db: &mut Db, filename: &String, _admin: &Admin) -> (r: Result<i32, ApiError>)
    requires
        old(db).wf(),
        old(db).next_model_id < i32::MAX,
    ensures
        final(db).wf(),
        !spec_filename_safe(filename@) ==> r == Err::<i32, ApiError>(ApiError::Validation)
            && *final(db) == *old(db),
        spec_filename_safe(filename@) ==> {
            &&& r == Ok::<i32, ApiError>(old(db).next_model_id)
            &&& final(db).models@.len() == old(db).models@.len() + 1
            &&& final(db).models@.drop_last() == old(db).models@
            &&& final(db).models@.last().id == old(db).next_model_id
            &&& final(db).models@.last().filename@ == filename@
            &&& final(db).models@.last().material is None
            &&& final(db).models@.last().texture is None
            &&& final(db).models@.last().category is None
            &&& final(db).next_model_id == old(db).next_model_id + 1
        },
        final(db).users@ == old(db).users@,
        final(db).labelsets@ == old(db).labelsets@,
        final(db).labels@ == old(db).labels@,
        final(db).quizzes@ == old(db).quizzes@,
        final(db).questions@ == old(db).questions@,
        final(db).userlabelsets@ == old(db).userlabelsets@,
        final(db).userquizzes@ == old(db).userquizzes@,
        old(db).next_model_id <= final(db).next_model_id <= old(db).next_model_id + 1,
        final(db).next_user_id == old(db).next_user_id,
        final(db).next_labelset_id == old(db).next_labelset_id,
        final(db).next_label_id == old(db).next_label_id,
        final(db).next_quiz_id == old(db).next_quiz_id,
        final(db).next_question_id == old(db).next_question_id,
{
    if !filename_is_safe(filename.as_str()) {
        return Err(ApiError::Validation);
    }
    let id = db.next_model_id;
    db.models.push(
        Model {
            id,
            filename: filename.clone(),
            material: None,
            texture: None,
            category: None,
        },
    );
    db.next_model_id = db.next_model_id + 1;
    proof {
        assert(db.models@.drop_last() =~= old(db).models@);
    }
    Ok(id)
}

/// The row of `post.models` at `i` equals the row of `pre.models` with
/// its material column set to `filename`.
pub open spec fn material_set(pre: Seq<Model>, post: Seq<Model>, i: int, filename: Seq<char>) -> bool {
    &&& post.len() == pre.len()
    &&& post[i].id == pre[i].id
    &&& post[i].filename == pre[i].filename
    &&& post[i].material matches Some(m) && m@ == filename
    &&& post[i].texture == pre[i].texture
    &&& post[i].category == pre[i].category
    &&& forall|j: int| 0 <= j < post.len() && j != i ==> post[j] == pre[j]
}

/// The row of `post.models` at `i` equals the row of `pre.models` with
/// its texture column set to `filename`.
pub open spec fn texture_set(pre: Seq<Model>, post: Seq<Model>, i: int, filename: Seq<char>) -> bool {
    &&& post.len() == pre.len()
    &&& post[i].id == pre[i].id
    &&& post[i].filename == pre[i].filename
    &&& post[i].material == pre[i].material
    &&& post[i].texture matches Some(t) && t@ == filename
    &&& post[i].category == pre[i].category
    &&& forall|j: int| 0 <= j < post.len() && j != i ==> post[j] == pre[j]
}

/// `PUT /modelstorage/upload/mtl/<id>/<filename>` (Admin), the row
/// part: set the material column of model `id`.  Answers how many rows
/// were updated; a missing id updates none, as an SQL update would.
pub fn upload_material(db: &mut Db, id: i32, filename: &String, _admin: &Admin) -> (r: Result<
    usize,
    ApiError,
>)
    requires
        old(db).wf(),
    ensures
        final(db).wf(),
        !spec_filename_safe(filename@) ==> r == Err::<usize, ApiError>(ApiError::Validation)
            && *final(db) == *old(db),
        spec_filename_safe(filename@) && !has_model_id(old(db).models@, id) ==> r == Ok::<
            usize,
            ApiError,
        >(0) && *final(db) == *old(db),
        spec_filename_safe(filename@) && has_model_id(old(db).models@, id) ==> r == Ok::<
            usize,
            ApiError,
        >(1) && forall|i: int|
            0 <= i < old(db).models@.len() && (#[trigger] old(db).models@[i]).id == id
                ==> material_set(old(db).models@, final(db).models@, i, filename@),
        final(db).users@ == old(db).users@,
        final(db).labelsets@ == old(db).labelsets@,
        final(db).labels@ == old(db).labels@,
        final(db).quizzes@ == old(db).quizzes@,
        final(db).questions@ == old(db).questions@,
        final(db).userlabelsets@ == old(db).userlabelsets@,
        final(db).userquizzes@ == old(db).userquizzes@,
        final(db).next_model_id == old(db).next_model_id,
        final(db).next_user_id == old(db).next_user_id,
        final(db).next_labelset_id == old(db).next_labelset_id,
        final(db).next_label_id == old(db).next_label_id,
        final(db).next_quiz_id == old(db).next_quiz_id,
        final(db).next_question_id == old(db).next_question_id,
{
    if !filename_is_safe(filename.as_str()) {
        return Err(ApiError::Validation);
    }
    match find_model_by_id(&db.models, id) {
        None => Ok(0),
        Some(i) => {
            let row = &db.models[i];
            let updated = Model {
                id: row.id,
                filename: row.filename.clone(),
                material: Some(filename.clone()),
                texture: match &row.texture {
                    Some(t) => Some(t.clone()),
                    None => None,
                },
                category: match &row.category {
                    Some(c) => Some(c.clone()),
                    None => None,
                },
            };
            db.models.set(i, updated);
            proof {
                lemma_model_id_unique(*old(db), id, i as int);
            }
            Ok(1)
        },
    }
}

/// `PUT /modelstorage/upload/tex/<id>/<filename>` (Admin), the row
/// part: set the texture column of model `id`.
pub fn upload_texture(db: &mut Db, id: i32, filename: &String, _admin: &Admin) -> (r: Result<
    usize,
    ApiError,
>)
    requires
        old(db).wf(),
    ensures
        final(db).wf(),
        !spec_filename_safe(filename@) ==> r == Err::<usize, ApiError>(ApiError::Validation)
            && *final(db) == *old(db),
        spec_filename_safe(filename@) && !has_model_id(old(db).models@, id) ==> r == Ok::<
            usize,
            ApiError,
        >(0) && *final(db) == *old(db),
        spec_filename_safe(filename@) && has_model_id(old(db).models@, id) ==> r == Ok::<
            usize,
            ApiError,
        >(1) && forall|i: int|
            0 <= i < old(db).models@.len() && (#[trigger] old(db).models@[i]).id == id
                ==> texture_set(old(db).models@, final(db).models@, i, filename@),
        final(db).users@ == old(db).users@,
        final(db).labelsets@ == old(db).labelsets@,
        final(db).labels@ == old(db).labels@,
        final(db).quizzes@ == old(db).quizzes@,
        final(db).questions@ == old(db).questions@,
        final(db).userlabelsets@ == old(db).userlabelsets@,
        final(db).userquizzes@ == old(db).userquizzes@,
        final(db).next_model_id == old(db).next_model_id,
        final(db).next_user_id == old(db).next_user_id,
        final(db).next_labelset_id == old(db).next_labelset_id,
        final(db).next_label_id == old(db).next_label_id,
        final(db).next_quiz_id == old(db).next_quiz_id,
        final(db).next_question_id == old(db).next_question_id,
{
    if !filename_is_safe(filename.as_str()) {
        return Err(ApiError::Validation);
    }
    match find_model_by_id(&db.models, id) {
        None => Ok(0),
        Some(i) => {
            let row = &db.models[i];
            let updated = Model {
                id: row.id,
                filename: row.filename.clone(),
                material: match &row.material {
                    Some(m) => Some(m.clone()),
                    None => None,
                },
                texture: Some(filename.clone()),
                category: match &row.category {
                    Some(c) => Some(c.clone()),
                    None => None,
                },
            };
            db.models.set(i, updated);
            proof {
                lemma_model_id_unique(*old(db), id, i as int);
            }
            Ok(1)
        },
    }
}

/// Under the store invariant, at most one model row carries an id.
proof fn lemma_model_id_unique(db: Db, id: i32, w: int)
    requires
        db.wf(),
        0 <= w < db.models@.len(),
        db.models@[w].id == id,
    ensures
        forall|i: int|
            0 <= i < db.models@.len() && (#[trigger] db.models@[i]).id == id ==> i == w,
{
    assert forall|i: int|
        0 <= i < db.models@.len() && (#[trigger] db.models@[i]).id == id implies i == w by {
        if i < w {
            assert(db.models@[i].id != db.models@[w].id);
        } else if i > w {
            assert(db.models@[w].id != db.models@[i].id);
        }
    }
}

/// `GET /modelstorage/` (AnyUser): all model rows.
pub fn list(db: &Db, _auth: &User) -> (r: Vec<Model>)
    ensures
        r@ == db.models@,
{
    let mut out: Vec<Model> = Vec::new();
    let n = db.models.len();
    let mut i: usize = 0;
    while i < n
        invariant
            i <= n,
            n == db.models@.len(),
            out@ == db.models@.take(i as int),
        decreases n - i,
    {
        let m = &db.models[i];
        let copy = Model {
            id: m.id,
            filename: m.filename.clone(),
            material: match &m.material {
                Some(s) => Some(s.clone()),
                None => None,
            },
            texture: match &m.texture {
                Some(s) => Some(s.clone()),
                None => None,
            },
            category: match &m.category {
                Some(s) => Some(s.clone()),
                None => None,
            },
        };
        assert(copy == db.models@[i as int]);
        out.push(copy);
        proof {
            assert(out@ =~= db.models@.take(i as int + 1));
        }
        i += 1;
    }
    proof {
        assert(db.models@.take(n as int) =~= db.models@);
    }
    out
}

/// `GET /modelstorage/lookup/<id>` (AnyUser): one row or nothing.
pub fn lookup(db: &Db, id: i32, _auth: &User) -> (r: Option<Model>)
    ensures
        match r {
            Some(m) => exists|i: int|
                0 <= i < db.models@.len() && #[trigger] db.models@[i] == m && m.id == id,
            None => !has_model_id(db.models@, id),
        },
{
    match find_model_by_id(&db.models, id) {
        None => None,
        Some(i) => {
            let m = &db.models[i];
            let copy = Model {
                id: m.id,
                filename: m.filename.clone(),
                material: match &m.material {
                    Some(s) => Some(s.clone()),
                    None => None,
                },
                texture: match &m.texture {
                    Some(s) => Some(s.clone()),
                    None => None,
                },
                category: match &m.category {
                    Some(s) => Some(s.clone()),
                    None => None,
                },
            };
            assert(copy == db.models@[i as int]);
            Some(copy)
        },
    }
}

} // verus!
