//! Chapter rows and their response shapes.
//!
//! Rows come out of the relational collaborator; the mapping to
//! response shapes moves every field through unchanged. Timestamps are
//! carried opaquely — nothing here reads into them.

use vstd::prelude::*;

verus! {

/// Where a page image lives and what it claims to be.
pub struct ImageMetadataResponse {
    pub content_type: String,
    pub path: String,
}

/// A chapter row.
pub struct Chapter {
    pub id: uuid::Uuid,
    pub title: String,
    pub description: Option<String>,
    pub number: i32,
    pub created_at: crate::Timestamp,
    pub updated_at: Option<crate::Timestamp>,
    pub published_at: Option<crate::Timestamp>,
    pub is_visible: bool,
    pub user_id: uuid::Uuid,
    pub comic_id: uuid::Uuid,
}

/// A chapter-page row.
pub struct ChapterPage {
    pub id: uuid::Uuid,
    pub number: i32,
    pub description: Option<String>,
    pub path: String,
    pub content_type: String,
    pub comic_id: uuid::Uuid,
    pub chapter_id: uuid::Uuid,
    pub user_id: uuid::Uuid,
    pub created_at: crate::Timestamp,
    pub updated_at: Option<crate::Timestamp>,
}

/// The brief response shape of one chapter page.
pub struct ChapterPageResponseBrief {
    pub id: uuid::Uuid,
    pub number: i32,
    pub description: Option<String>,
    pub image: ImageMetadataResponse,
}

/// The full response shape of one chapter page.
pub struct ChapterPageResponse {
    pub id: uuid::Uuid,
    pub number: i32,
    pub description: Option<String>,
    pub image: ImageMetadataResponse,
}

/// The brief response shape of a chapter and its pages.
pub struct ChapterResponseBrief {
    pub id: uuid::Uuid,
    pub title: String,
    pub number: i32,
    pub description: Option<String>,
    pub pages: Vec<ChapterPageResponseBrief>,
    pub created_at: crate::Timestamp,
}

/// A new-chapter request.
pub struct CreateChapter {
    pub title: String,
    pub description: Option<String>,
    pub number: i32,
}

/// A chapter update: absent fields stay untouched.
pub struct UpdateChapter {
    pub title: Option<String>,
    pub description: Option<String>,
    pub number: Option<i32>,
}

/// A chapter-page update: absent fields stay untouched.
pub struct UpdateChapterPage {
    pub description: Option<String>,
    pub number: Option<i32>,
}

/// A new rating of a chapter.
pub struct NewChapterRating {
    pub rating: i32,
}

impl Chapter {
    /// Map a chapter row and its page rows to the brief response
    /// shape: every field moves through unchanged, pages in order.
    pub fn into_response_brief(self, chapter_pages: Vec<ChapterPage>) -> (r: ChapterResponseBrief)
        ensures
            r.id == self.id,
            r.title == self.title,
            r.number == self.number,
            r.description == self.description,
            r.created_at == self.created_at,
            r.pages@.len() == chapter_pages@.len(),
            forall|i: int|
                0 <= i < chapter_pages@.len() ==> {
                    &&& #[trigger] r.pages@[i].id == chapter_pages@[i].id
                    &&& r.pages@[i].number == chapter_pages@[i].number
                    &&& r.pages@[i].description == chapter_pages@[i].description
                    &&& r.pages@[i].image.content_type == chapter_pages@[i].content_type
                    &&& r.pages@[i].image.path == chapter_pages@[i].path
                },
    {
        let ghost orig = chapter_pages@;
        let mut rest = chapter_pages;
        let mut pages: Vec<ChapterPageResponseBrief> = Vec::new();
        while rest.len() > 0
            invariant
                pages@.len() + rest@.len() == orig.len(),
                rest@ == orig.subrange(pages@.len() as int, orig.len() as int),
                forall|i: int|
                    0 <= i < pages@.len() ==> {
                        &&& #[trigger] pages@[i].id == orig[i].id
                        &&& pages@[i].number == orig[i].number
                        &&& pages@[i].description == orig[i].description
                        &&& pages@[i].image.content_type == orig[i].content_type
                        &&& pages@[i].image.path == orig[i].path
                    },
            decreases rest.len(),
        {
            let ghost done = pages@.len() as int;
            let page = rest.remove(0);
            proof {
                assert(page == orig[done]);
                assert(rest@ =~= orig.subrange(done + 1, orig.len() as int));
            }
            pages.push(
                ChapterPageResponseBrief {
                    id: page.id,
                    number: page.number,
                    description: page.description,
                    image: ImageMetadataResponse {
                        content_type: page.content_type,
                        path: page.path,
                    },
                },
            );
        }
        ChapterResponseBrief {
            id: self.id,
            title: self.title,
            number: self.number,
            description: self.description,
            pages,
            created_at: self.created_at,
        }
    }
}

/// The payload accompanying an uploaded chapter page.
#[derive(Debug)]
pub struct ChapterPageData {
    pub number: i32,
    pub description: Option<String>,
}

/// Why building a `ChapterPageData` failed.
#[derive(PartialEq, Eq, Structural, Debug, Clone, Copy)]
pub enum ChapterPageDataBuilderError {
    /// A required field was never set.
    UninitializedField,
}

/// An owned builder for `ChapterPageData`: `number` is required,
/// `description` defaults to nothing.
pub struct ChapterPageDataBuilder {
    pub number: Option<i32>,
    pub description: Option<Option<String>>,
}

impl Default for ChapterPageDataBuilder {
    fn default() -> (r: Self)
        ensures
            r.number is None,
            r.description is None,
    {
        ChapterPageDataBuilder { number: Option::None, description: Option::None }
    }
}

impl ChapterPageDataBuilder {
    /// Set the required page number.
    pub fn number(self, value: i32) -> (r: Self)
        ensures
            r.number == Option::Some(value),
            r.description == self.description,
    {
        ChapterPageDataBuilder { number: Option::Some(value), ..self }
    }

    /// Set the optional description.
    pub fn description(self, value: Option<String>) -> (r: Self)
        ensures
            r.description == Option::Some(value),
            r.number == self.number,
    {
        ChapterPageDataBuilder { description: Option::Some(value), ..self }
    }

    /// Finish the build: fails exactly when the required `number` was
    /// never set; an unset description defaults to nothing.
    pub fn build(self) -> (r: Result<ChapterPageData, ChapterPageDataBuilderError>)
        ensures
            r is Ok <==> self.number is Some,
            match r {
                Result::Ok(d) => Option::Some(d.number) == self.number && Option::Some(
                    d.description,
                ) == (match self.description {
                    Option::Some(d0) => Option::Some(d0),
                    Option::None => Option::Some(Option::<String>::None),
                }),
                Result::Err(e) => e == ChapterPageDataBuilderError::UninitializedField,
            },
    {
        match self.number {
            Option::Some(number) => {
                let description = match self.description {
                    Option::Some(d) => d,
                    Option::None => Option::None,
                };
                Result::Ok(ChapterPageData { number, description })
            },
            Option::None => Result::Err(ChapterPageDataBuilderError::UninitializedField),
        }
    }
}

impl ChapterPageData {
    /// A fresh builder with nothing set.
    pub fn builder() -> (r: ChapterPageDataBuilder)
        ensures
            r.number is None,
            r.description is None,
    {
        ChapterPageDataBuilder::default()
    }
}

} // verus!
