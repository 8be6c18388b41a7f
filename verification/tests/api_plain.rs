use lib_turls::api::api::{get_shortened, not_found, shorten, JsonApiError, ShortenedCreate};
use lib_turls::api::errors::Problem;
use lib_turls::db::{Config, Db};
use lib_turls::model::Shortened;
use lib_turls::Error;

fn client() -> Db {
    let config = Config {
        path: format!("/tmp/lib_turls_tests/{}", uuid::Uuid::new_v4()),
        temporary: true,
    };
    Db::init(&config).expect("init")
}

fn request(keyword: &str, url: &str) -> ShortenedCreate {
    ShortenedCreate { keyword: keyword.to_owned(), url: url.to_owned(), title: None }
}

#[test]
fn api_get_shortened_not_found() {
    let db = client();
    let response = get_shortened(&db, 0).expect_err("not found");
    assert_eq!(response.status(), 404);
    match response {
        JsonApiError::NotFound(body) => {
            assert_eq!(body.id, Some(0));
            assert_eq!(body.message, "not found");
        }
        other => panic!("unexpected: {:?}", other),
    }
}

#[test]
fn api_get_shortened_1() {
    let mut db = client();
    let pr = shorten(&mut db, &request("k1", "u1"));
    assert!(pr.is_ok());

    let expected = Shortened { id: 0, title: None, keyword: "k1".to_owned(), url: "u1".to_owned() };
    let response = get_shortened(&db, 0);
    assert!(response.is_ok());
    assert_eq!(response.unwrap(), expected);
}

#[test]
fn a_request_is_taken_as_it_is() {
    let mut db = client();
    let mut with_title = request("k", "u");
    with_title.title = Some("t".to_owned());
    let created = shorten(&mut db, &with_title).expect("created");
    assert_eq!(
        created,
        Shortened { id: 0, keyword: "k".to_owned(), url: "u".to_owned(), title: Some("t".to_owned()) }
    );
    assert_eq!(get_shortened(&db, 0), Ok(created));
}

#[test]
fn every_failure_but_not_found_is_reported_alike() {
    let mut db = client();
    shorten(&mut db, &request("k1", "u1")).expect("created");
    let taken = shorten(&mut db, &request("k1", "u2")).expect_err("taken");
    assert_eq!(taken.status(), 500);
    assert_eq!(
        taken,
        JsonApiError::GenericError(Problem {
            id: None,
            keyword: None,
            message: "k1 already exists".to_owned(),
        })
    );
    assert_eq!(
        JsonApiError::from(Error::DbError("disk".to_owned())),
        JsonApiError::GenericError(Problem { id: None, keyword: None, message: "disk".to_owned() })
    );
    assert_eq!(
        JsonApiError::from(Error::UrlDoesNotExist(3)),
        JsonApiError::GenericError(Problem {
            id: None,
            keyword: None,
            message: "3 does not exist".to_owned(),
        })
    );
    assert_eq!(
        not_found(3),
        JsonApiError::NotFound(Problem {
            id: Some(3),
            keyword: None,
            message: "not found".to_owned(),
        })
    );
}
