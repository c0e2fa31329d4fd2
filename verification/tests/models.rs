use musawarah::chapters::{
    Chapter, ChapterPage, ChapterPageData, ChapterPageDataBuilderError, ImageMetadataResponse,
};
use musawarah::users::{ErrorBody, UsersError};
use musawarah::{ErrorResponse, Timestamp};

#[test]
fn error_response_new_carries_the_message() {
    let r = ErrorResponse::new("something broke".to_string());
    assert_eq!(r.error, "something broke");
    assert!(r.details.is_none());
}

#[test]
fn error_response_with_details_carries_both() {
    let details = vec!["first".to_string(), "second".to_string()];
    let r = ErrorResponse::with_details("invalid".to_string(), details.clone());
    assert_eq!(r.error, "invalid");
    assert_eq!(r.details, Some(details));
}

#[test]
fn users_errors_map_to_their_status_codes() {
    assert_eq!(UsersError::UserNotFound.status_code(), 404);
    assert_eq!(UsersError::HasNoPosts.status_code(), 404);
    assert_eq!(UsersError::BadRequest.status_code(), 400);
    assert_eq!(UsersError::AlreadyLoggedIn.status_code(), 400);
    assert_eq!(UsersError::Validator(vec!["f: bad".to_string()]).status_code(), 400);
    assert_eq!(UsersError::Conflict("taken".to_string()).status_code(), 409);
    assert_eq!(UsersError::InvalidCredentials.status_code(), 401);
    assert_eq!(UsersError::InternalServerError.status_code(), 500);
    assert_eq!(UsersError::Diesel.status_code(), 500);
    assert_eq!(UsersError::PoolError.status_code(), 500);
    assert_eq!(UsersError::Argon2.status_code(), 500);
}

#[test]
fn users_error_bodies_echo_only_what_the_caller_may_see() {
    match UsersError::UserNotFound.body() {
        ErrorBody::Text(s) => assert_eq!(s, "user not found"),
        _ => panic!("expected a text body"),
    }
    match UsersError::Conflict("username taken".to_string()).body() {
        ErrorBody::Text(s) => assert_eq!(s, "username taken"),
        _ => panic!("expected a text body"),
    }
    match UsersError::Validator(vec!["email: invalid".to_string()]).body() {
        ErrorBody::Lines(lines) => assert_eq!(lines, vec!["email: invalid".to_string()]),
        _ => panic!("expected validation lines"),
    }
    // Server-side detail is never echoed.
    assert!(matches!(UsersError::Diesel.body(), ErrorBody::Empty));
    assert!(matches!(UsersError::Argon2.body(), ErrorBody::Empty));
    assert!(matches!(UsersError::PoolError.body(), ErrorBody::Empty));
    assert!(matches!(UsersError::InternalServerError.body(), ErrorBody::Empty));
}

#[test]
fn page_data_builder_requires_the_number() {
    let built = ChapterPageData::builder().number(4).build().unwrap();
    assert_eq!(built.number, 4);
    assert_eq!(built.description, None);

    let built = ChapterPageData::builder()
        .description(Some("cover".to_string()))
        .number(1)
        .build()
        .unwrap();
    assert_eq!(built.number, 1);
    assert_eq!(built.description, Some("cover".to_string()));

    let err = ChapterPageData::builder().description(None).build().unwrap_err();
    assert_eq!(err, ChapterPageDataBuilderError::UninitializedField);
}

fn sample_chapter() -> Chapter {
    Chapter {
        id: uuid::Uuid::from_u128(11),
        title: "first".to_string(),
        description: Some("opening".to_string()),
        number: 1,
        created_at: Timestamp { seconds: 1_700_000_000, nanos: 5 },
        updated_at: None,
        published_at: None,
        is_visible: true,
        user_id: uuid::Uuid::from_u128(7),
        comic_id: uuid::Uuid::from_u128(9),
    }
}

fn sample_page(n: i32, path: &str) -> ChapterPage {
    ChapterPage {
        id: uuid::Uuid::from_u128(100 + n as u128),
        number: n,
        description: None,
        path: path.to_string(),
        content_type: "image/png".to_string(),
        comic_id: uuid::Uuid::from_u128(9),
        chapter_id: uuid::Uuid::from_u128(11),
        user_id: uuid::Uuid::from_u128(7),
        created_at: Timestamp { seconds: 1_700_000_100, nanos: 0 },
        updated_at: None,
    }
}

#[test]
fn chapter_maps_to_its_brief_response_field_for_field() {
    let chapter = sample_chapter();
    let pages = vec![sample_page(1, "9/11/1.png"), sample_page(2, "9/11/2.png")];
    let r = chapter.into_response_brief(pages);
    assert_eq!(r.id, uuid::Uuid::from_u128(11));
    assert_eq!(r.title, "first");
    assert_eq!(r.number, 1);
    assert_eq!(r.description, Some("opening".to_string()));
    assert_eq!(r.created_at, Timestamp { seconds: 1_700_000_000, nanos: 5 });
    assert_eq!(r.pages.len(), 2);
    assert_eq!(r.pages[0].id, uuid::Uuid::from_u128(101));
    assert_eq!(r.pages[0].number, 1);
    assert_eq!(r.pages[0].image.path, "9/11/1.png");
    assert_eq!(r.pages[0].image.content_type, "image/png");
    assert_eq!(r.pages[1].id, uuid::Uuid::from_u128(102));
    assert_eq!(r.pages[1].image.path, "9/11/2.png");
}

#[test]
fn image_metadata_mirrors_what_was_attached() {
    let m = ImageMetadataResponse {
        content_type: "image/webp".to_string(),
        path: "a/b/c.webp".to_string(),
    };
    assert_eq!(m.content_type, "image/webp");
    assert_eq!(m.path, "a/b/c.webp");
}
