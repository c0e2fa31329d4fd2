//! Genre rows and their response shape.

use vstd::prelude::*;

verus! {

/// A genre row.
pub struct Genre {
    pub id: i32,
    pub name: String,
    pub created_at: crate::Timestamp,
}

/// A row tying one comic to one genre.
pub struct GenreMapping {
    pub comic_id: uuid::Uuid,
    pub genre_id: i32,
}

/// The response shape of one genre.
pub struct ComicGenre {
    pub id: i32,
    pub name: String,
}

} // verus!
