//! Core of an HTTP backend for a 3D anatomical-labeling learning tool.
//!
//! The library holds the persistent data model (users, 3D models, label
//! sets, labels, quizzes, questions, and the user/resource membership
//! tables), the upsert-by-UUID semantics for label sets and quizzes, the
//! session and privilege guards, and the administrator-only upload
//! bookkeeping.  HTTP framing, JSON encoding, file and database transport
//! stay outside, in the surrounding application.

use vstd::prelude::*;

pub mod api;
pub mod authentication;
pub mod crypto;
pub mod labels;
pub mod laws;
pub mod models;
pub mod modelstorage;
pub mod quiz;
pub mod session;
pub mod store;
pub mod users;
pub mod util;

verus! {

} // verus!
