use lib_turls::api::errors::{JsonApiError, Problem};
use lib_turls::api::json::{check_size, Error as Invalid, ShortenedCreate, ValidationError};
use lib_turls::api::{
    destination, expand_keyword, get_shortened, goto_keyword, results_of, search, shorten,
    Redirect, Version, NOT_FOUND,
    SERVICE_UNAVAILABLE, TEMPORARY_REDIRECT,
};
use lib_turls::db::{Config, Db};
use lib_turls::model::{SearchParams, Shortened};
use lib_turls::Error;

fn client() -> Db {
    let config = Config {
        path: format!("/tmp/lib_turls_tests/{}", uuid::Uuid::new_v4()),
        temporary: true,
    };
    Db::init(&config).expect("init")
}

fn request(keyword: &str, url: &str) -> ShortenedCreate {
    ShortenedCreate { keyword: keyword.to_owned(), url: url.to_owned(), title: None }
}

fn broken(field: &str, rule: &str) -> ValidationError {
    ValidationError { field: field.to_owned(), rule: rule.to_owned() }
}

#[test]
fn mod_get_shortened_not_found() {
    let db = client();
    let response = get_shortened(&db, 0).expect_err("not found");
    assert_eq!(response.status(), 404);
    match response {
        JsonApiError::NotFound(body) => {
            assert_eq!(body.id, Some(0));
            assert_eq!(body.message, "keyword does not exist");
        }
        other => panic!("unexpected: {:?}", other),
    }
}

#[test]
fn mod_get_shortened_1() {
    let mut db = client();
    let pr = shorten(&mut db, &request("k1", "u1"));
    assert!(pr.is_ok());

    let expected = Shortened { id: 0, title: None, keyword: "k1".to_owned(), url: "u1".to_owned() };
    let response = get_shortened(&db, 0);
    assert_eq!(response, Ok(expected));
}

#[test]
fn index() {
    let mut db = client();
    let pr = shorten(&mut db, &request("k1", "https://u1"));
    assert!(pr.is_ok());
    let response = goto_keyword(&db, "k1").unwrap();
    assert_eq!(307, response.status);
    assert_eq!("https://u1", response.location);
}

#[test]
fn the_greeting_names_the_release() {
    assert_eq!(lib_turls::api::index(&Version { full: "1.2.3".to_owned() }), "Turls v1.2.3");
    assert_eq!(lib_turls::api::index(&Version::default()), "Turls v");
}

#[test]
fn a_keyword_that_is_not_stored_is_answered_as_unavailable() {
    let db = client();
    assert_eq!(goto_keyword(&db, "k1"), Err(SERVICE_UNAVAILABLE));
    assert_eq!(SERVICE_UNAVAILABLE, 503);
    assert_eq!(NOT_FOUND, 404);
}

#[test]
fn a_visitor_is_answered_by_the_outcome_of_the_lookup() {
    assert_eq!(
        destination(Ok("https://u1".to_owned())),
        Ok(Redirect { status: 307, location: "https://u1".to_owned() })
    );
    assert_eq!(Redirect::temporary("u".to_owned()).status, TEMPORARY_REDIRECT);
    assert_eq!(TEMPORARY_REDIRECT, 307);
    assert_eq!(destination(Err(Error::UrlDoesNotExist(4))), Err(404));
    assert_eq!(destination(Err(Error::KeywordDoesNotExist("k".to_owned()))), Err(503));
    assert_eq!(destination(Err(Error::KeywordAlreadyExists("k".to_owned()))), Err(503));
    assert_eq!(destination(Err(Error::DbError("disk".to_owned()))), Err(503));
}

#[test]
fn sizes_are_checked_at_their_bounds() {
    assert_eq!(check_size("", "f", 2, 5), Some(broken("f", "too_short")));
    assert_eq!(check_size("a", "f", 2, 5), Some(broken("f", "too_short")));
    assert_eq!(check_size("ab", "f", 2, 5), None);
    assert_eq!(check_size("abcde", "f", 2, 5), None);
    assert_eq!(check_size("abcdef", "f", 2, 5), Some(broken("f", "too_long")));
    // bytes count, not characters
    assert_eq!(check_size("é", "f", 2, 5), None);
    assert_eq!(check_size("ééé", "f", 2, 5), Some(broken("f", "too_long")));
    // a range that nothing meets: too short wins
    assert_eq!(check_size("abc", "f", 5, 2), Some(broken("f", "too_short")));
}

#[test]
fn requests_are_held_to_the_rules() {
    assert_eq!(request("k1", "u1").validate(), Ok(()));
    assert_eq!(request(&"k".repeat(25), &"u".repeat(255)).validate(), Ok(()));
    let short = request("k", "u");
    assert_eq!(
        short.validate(),
        Err(Invalid::InvalidShortenedCreate(
            short.clone(),
            vec![broken("url", "too_short"), broken("keyword", "too_short")]
        ))
    );
    let long = request(&"k".repeat(26), &"u".repeat(256));
    assert_eq!(
        long.validate(),
        Err(Invalid::InvalidShortenedCreate(
            long.clone(),
            vec![broken("url", "too_long"), broken("keyword", "too_long")]
        ))
    );
    let mixed = request(&"k".repeat(26), "u1");
    assert_eq!(
        mixed.validate(),
        Err(Invalid::InvalidShortenedCreate(mixed.clone(), vec![broken("keyword", "too_long")]))
    );
}

#[test]
fn a_request_that_breaks_a_rule_stores_nothing() {
    let mut db = client();
    let response = shorten(&mut db, &request("k", "u1")).expect_err("bad request");
    assert_eq!(response.status(), 400);
    assert_eq!(
        response,
        JsonApiError::BadRequest(Invalid::InvalidShortenedCreate(
            request("k", "u1"),
            vec![broken("keyword", "too_short")]
        ))
    );
    assert!(matches!(db.find_url(0), Err(Error::UrlDoesNotExist(0))));
    assert_eq!(shorten(&mut db, &request("k1", "u1")).expect("created").id, 0);
}

#[test]
fn a_keyword_that_is_taken_is_a_conflict() {
    let mut db = client();
    let mut first = request("k1", "u1");
    first.title = Some("title".to_owned());
    let created = shorten(&mut db, &first).expect("created");
    assert_eq!(created.title, Some("title".to_owned()));
    let response = shorten(&mut db, &request("k1", "u2")).expect_err("conflict");
    assert_eq!(response.status(), 409);
    assert_eq!(
        response,
        JsonApiError::Conflict(Problem {
            id: None,
            keyword: Some("k1".to_owned()),
            message: "keyword already exists".to_owned(),
        })
    );
    assert_eq!(expand_keyword(&db, "k1"), Ok("u1".to_owned()));
}

#[test]
fn a_keyword_is_expanded_or_not_found() {
    let mut db = client();
    shorten(&mut db, &request("k1", "https://u1")).expect("created");
    assert_eq!(expand_keyword(&db, "k1"), Ok("https://u1".to_owned()));
    let response = expand_keyword(&db, "k2").expect_err("not found");
    assert_eq!(response.status(), 404);
    assert_eq!(
        response,
        JsonApiError::NotFound(Problem {
            id: None,
            keyword: Some("k2".to_owned()),
            message: "keyword does not exist".to_owned(),
        })
    );
}

#[test]
fn failures_are_reported_by_kind() {
    let storage = JsonApiError::from(Error::DbError("disk".to_owned()));
    assert_eq!(storage.status(), 500);
    assert_eq!(
        storage,
        JsonApiError::GenericError(Problem { id: None, keyword: None, message: "disk".to_owned() })
    );
    assert_eq!(
        JsonApiError::from(Error::UrlDoesNotExist(3)),
        JsonApiError::NotFound(Problem {
            id: Some(3),
            keyword: None,
            message: "keyword does not exist".to_owned(),
        })
    );
    assert_eq!(
        JsonApiError::from(Error::KeywordDoesNotExist("k".to_owned())),
        JsonApiError::NotFound(Problem {
            id: None,
            keyword: Some("k".to_owned()),
            message: "keyword does not exist".to_owned(),
        })
    );
    assert_eq!(
        JsonApiError::from(Error::KeywordAlreadyExists("k".to_owned())),
        JsonApiError::Conflict(Problem {
            id: None,
            keyword: Some("k".to_owned()),
            message: "keyword already exists".to_owned(),
        })
    );
}

#[test]
fn an_answer_is_built_from_its_page() {
    let page = vec![
        Shortened { id: 8, keyword: "k8".to_owned(), url: "u8".to_owned(), title: None },
        Shortened { id: 9, keyword: "k9".to_owned(), url: "u9".to_owned(), title: None },
    ];
    let wanted = SearchParams { start: 5, page_size: 3, term: "u".to_owned() };
    let results = results_of(page.clone(), &wanted);
    assert_eq!((results.start, results.end), (5, 7));
    assert_eq!(results.urls, page);
    assert_eq!(results.params.term, "u");
    assert_eq!((results.params.start, results.params.page_size), (5, 3));
    let far = SearchParams { start: usize::MAX - 1, page_size: 3, term: "".to_owned() };
    assert_eq!(results_of(page, &far).end, usize::MAX);
    assert_eq!(results_of(vec![], &far).end, usize::MAX - 1);
}

#[test]
fn a_page_is_returned_with_its_bounds() {
    let mut db = client();
    for i in 0..10 {
        shorten(&mut db, &request(&format!("k{}", i), &format!("https://u/{}", i))).expect("created");
    }
    let wanted = SearchParams { start: 8, page_size: 5, term: "u/".to_owned() };
    let results = search(&db, &wanted).expect("search");
    assert_eq!(results.start, 8);
    assert_eq!(results.end, 10);
    assert_eq!(results.urls.iter().map(|s| s.id).collect::<Vec<u64>>(), vec![8, 9]);
    assert_eq!(results.params.term, "u/");
    assert_eq!(results.params.start, 8);
    assert_eq!(results.params.page_size, 5);
    let beyond = search(&db, &SearchParams { start: 20, page_size: 5, term: "".to_owned() })
        .expect("search");
    assert_eq!((beyond.start, beyond.end, beyond.urls.len()), (20, 20, 0));
}
