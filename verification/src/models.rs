//! Row types of the relational data model, one struct per table, plus the
//! privilege tiers of user accounts.
//!
//! Each `New*` struct carries the caller-supplied part of a row; the store
//! assigns the surrogate integer id when it inserts one.

use vstd::prelude::*;

verus! {

/// A row of the `users` table.
pub struct User {
    pub id: i32,
    pub username: String,
    /// Opaque password-hash blob as produced by the Argon2id primitive.
    pub password: Vec<u8>,
    /// Wire-level privilege integer; see [`Privilege`].
    pub privilege: i32,
}

/// Privilege tier of a user account, totally ordered
/// `User < Moderator < Administrator`; a higher tier satisfies every
/// guard of a lower one.
#[derive(Clone, Copy, Debug, PartialEq, Eq, Structural)]
pub enum Privilege {
    User,
    Moderator,
    Administrator,
}

impl Privilege {
    /// Rank in the total order of tiers.
    pub open spec fn rank(self) -> int {
        match self {
            Privilege::User => 0,
            Privilege::Moderator => 1,
            Privilege::Administrator => 2,
        }
    }

    /// The integer stored in the `privilege` column for this tier.
    pub open spec fn spec_to_i32(self) -> i32 {
        match self {
            Privilege::User => 0,
            Privilege::Administrator => 1,
            Privilege::Moderator => 2,
        }
    }

    /// The tier a stored `privilege` integer denotes, if any.
    pub open spec fn spec_from_i32(p: i32) -> Option<Privilege> {
        if p == 0 {
            Some(Privilege::User)
        } else if p == 1 {
            Some(Privilege::Administrator)
        } else if p == 2 {
            Some(Privilege::Moderator)
        } else {
            None
        }
    }

    /// Encode the tier as its wire-level integer.
    pub fn to_i32(self) -> (r: i32)
        ensures
            r == self.spec_to_i32(),
    {
        match self {
            Privilege::User => 0,
            Privilege::Administrator => 1,
            Privilege::Moderator => 2,
        }
    }

    /// Decode a wire-level integer into a tier; unknown values yield `None`.
    pub fn try_from_i32(p: i32) -> (r: Option<Privilege>)
        ensures
            r == Privilege::spec_from_i32(p),
    {
        if p == 0 {
            Some(Privilege::User)
        } else if p == 1 {
            Some(Privilege::Administrator)
        } else if p == 2 {
            Some(Privilege::Moderator)
        } else {
            None
        }
    }
}

/// Caller-supplied part of a new `users` row.
pub struct NewUser {
    pub username: String,
    pub password: Vec<u8>,
}

/// A row of the `models` table: one uploaded 3D asset and its optional
/// companion files.
pub struct Model {
    pub id: i32,
    pub filename: String,
    pub material: Option<String>,
    pub texture: Option<String>,
    pub category: Option<String>,
}

/// Caller-supplied part of a new `models` row.
pub struct NewModel {
    pub filename: String,
}

/// A row of the `labelsets` table.
pub struct LabelSet {
    pub id: i32,
    /// Client-stable identity: canonical hyphenated lowercase UUID text.
    pub uuid: String,
    pub name: String,
    /// Foreign key into `models`.
    pub model: i32,
}

/// Caller-supplied part of a `labelsets` row for an upsert.
pub struct NewLabelSet {
    pub uuid: String,
    pub name: String,
    pub model: i32,
}

/// A row of the `labels` table, fully owned by its label set.
pub struct Label {
    pub id: i32,
    /// Foreign key into `labelsets`.
    pub labelset: i32,
    pub name: String,
    /// Hex colour string, e.g. `#FF0000`.
    pub colour: String,
    /// The literal text of the submitted vertex list; the server never
    /// parses it.
    pub vertices: String,
}

/// Caller-supplied part of a new `labels` row.
pub struct NewLabel {
    pub labelset: i32,
    pub name: String,
    pub colour: String,
    pub vertices: String,
}

/// A row of the `userlabelsets` association table; the pair is the key.
pub struct UserLabelSet {
    pub userid: i32,
    pub labelset: i32,
}

/// A row of the `userquizzes` association table; the pair is the key.
pub struct UserQuiz {
    pub userid: i32,
    pub quiz: i32,
}

/// A row of the `quizzes` table.
pub struct Quiz {
    pub id: i32,
    /// Client-stable identity, as for label sets.
    pub uuid: String,
    pub name: String,
    /// Foreign key into `labelsets`.
    pub labelset: i32,
    /// Stored as 0 or 1.
    pub shuffle: i16,
}

/// Caller-supplied part of a `quizzes` row for an upsert.
pub struct NewQuiz {
    pub uuid: String,
    pub name: String,
    pub labelset: i32,
    pub shuffle: i16,
}

/// A row of the `questions` table, fully owned by its quiz.
pub struct Question {
    pub id: i32,
    /// Foreign key into `quizzes`.
    pub quiz: i32,
    pub questiontype: i16,
    pub textprompt: String,
    pub textanswer: Option<String>,
    /// Optional foreign key into `labels`.
    pub label: Option<i32>,
    /// Stored as 0 or 1.
    pub showregions: i16,
}

/// A labelled point group of the legacy file-based store: one document
/// per UUID holds a list of these.
pub struct LabelPoint {
    pub id: i32,
    pub color: String,
    pub name: String,
    pub model: String,
    pub vertices: String,
}

/// Caller-supplied part of a new `questions` row.
pub struct NewQuestion {
    pub quiz: i32,
    pub questiontype: i16,
    pub textprompt: String,
    pub textanswer: Option<String>,
    pub label: Option<i32>,
    pub showregions: i16,
}

} // verus!
