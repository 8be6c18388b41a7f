use lib_turls::db::{claimed_keyword, found_keyword, found_url, removed_record, Config, Db};
use lib_turls::model::{IdAndUrl, Shortened};
use lib_turls::Error;

fn config() -> Config {
    Config { path: format!("/tmp/lib_turls_tests/{}", uuid::Uuid::new_v4()), temporary: true }
}

fn fresh() -> Db {
    Db::init(&config()).expect("init")
}

fn failure() -> sled::Error {
    sled::Error::Unsupported("no".to_owned())
}

#[test]
fn concrete_scenario_on_a_fresh_store() {
    let mut db = fresh();
    let inserted = db.insert_url("k1", "u1", None).expect("insert");
    assert_eq!(
        inserted,
        Shortened { id: 0, keyword: "k1".to_owned(), url: "u1".to_owned(), title: None }
    );
    assert_eq!(db.find_url(0).expect("find"), inserted);
    assert_eq!(db.find_url_by_keyword("k1").expect("find by keyword"), "u1");
}

#[test]
fn second_insert_of_a_keyword_is_refused() {
    let mut db = fresh();
    db.insert_url("k1", "u1", None).expect("insert");
    match db.insert_url("k1", "u2", None) {
        Err(Error::KeywordAlreadyExists(k)) => assert_eq!(k, "k1"),
        other => panic!("unexpected: {:?}", other),
    }
    assert_eq!(db.find_url_by_keyword("k1").expect("find by keyword"), "u1");
}

#[test]
fn a_refused_insert_spends_its_id() {
    let mut db = fresh();
    assert_eq!(db.insert_url("k1", "u1", None).expect("insert").id, 0);
    assert!(db.insert_url("k1", "u2", None).is_err());
    assert_eq!(db.insert_url("k2", "u2", None).expect("insert").id, 2);
    assert!(matches!(db.find_url(1), Err(Error::UrlDoesNotExist(1))));
}

#[test]
fn ids_ascend_and_titles_are_kept() {
    let mut db = fresh();
    let a = db.insert_url("a", "https://a", Some("A")).expect("insert");
    let b = db.insert_url("b", "https://b", None).expect("insert");
    let c = db.insert_url("c", "https://c", Some("")).expect("insert");
    assert!(a.id < b.id && b.id < c.id);
    assert_eq!(db.find_url(a.id).expect("find").title, Some("A".to_owned()));
    assert_eq!(db.find_url(b.id).expect("find").title, None);
    assert_eq!(db.find_url(c.id).expect("find").title, Some("".to_owned()));
}

#[test]
fn delete_then_lookup() {
    let mut db = fresh();
    let kept = db.insert_url("keep", "https://keep", None).expect("insert");
    let gone = db.insert_url("k", "https://gone", Some("t")).expect("insert");
    assert_eq!(db.delete_url(gone.id).expect("delete"), true);
    assert!(matches!(db.find_url(gone.id), Err(Error::UrlDoesNotExist(i)) if i == gone.id));
    match db.find_url_by_keyword("k") {
        Err(Error::KeywordDoesNotExist(k)) => assert_eq!(k, "k"),
        other => panic!("unexpected: {:?}", other),
    }
    assert_eq!(db.find_url(kept.id).expect("find"), kept);
    assert_eq!(db.find_url_by_keyword("keep").expect("find by keyword"), "https://keep");
}

#[test]
fn delete_of_what_is_not_stored() {
    let mut db = fresh();
    assert_eq!(db.delete_url(0).expect("delete"), false);
    let one = db.insert_url("k1", "u1", None).expect("insert");
    assert_eq!(db.delete_url(77).expect("delete"), false);
    assert_eq!(db.delete_url(one.id).expect("delete"), true);
    assert_eq!(db.delete_url(one.id).expect("delete"), false);
}

#[test]
fn a_deleted_keyword_is_free_again_and_ids_are_not_reused() {
    let mut db = fresh();
    let first = db.insert_url("k1", "u1", None).expect("insert");
    assert_eq!(db.delete_url(first.id).expect("delete"), true);
    let second = db.insert_url("k1", "u2", None).expect("insert");
    assert!(second.id > first.id);
    assert_eq!(db.find_url_by_keyword("k1").expect("find by keyword"), "u2");
    assert!(matches!(db.find_url(first.id), Err(Error::UrlDoesNotExist(_))));
}

#[test]
fn lookups_on_an_empty_store() {
    let db = fresh();
    assert!(matches!(db.find_url(0), Err(Error::UrlDoesNotExist(0))));
    match db.find_url_by_keyword("nothing") {
        Err(Error::KeywordDoesNotExist(k)) => assert_eq!(k, "nothing"),
        other => panic!("unexpected: {:?}", other),
    }
}

#[test]
fn the_store_keeps_its_configuration() {
    let config = config();
    let db = Db::init(&config).expect("init");
    assert_eq!(db.config().path, config.path);
    assert_eq!(db.config().temporary, true);
    let default = Config::default();
    assert_eq!(default.path, "turlsdata");
    assert_eq!(default.temporary, false);
}

#[test]
fn a_store_that_cannot_be_opened_is_a_storage_error() {
    let config = Config { path: "/proc/lib_turls/none".to_owned(), temporary: false };
    assert!(matches!(Db::init(&config), Err(Error::DbError(_))));
}

#[test]
fn a_store_is_found_again_with_its_records_and_gives_no_id_twice() {
    let path = format!("/tmp/lib_turls_tests/{}", uuid::Uuid::new_v4());
    let first;
    {
        let mut db = Db::init(&Config { path: path.clone(), temporary: false }).expect("init");
        first = db.insert_url("k1", "u1", Some("t1")).expect("insert");
    }
    let mut db = Db::init(&Config { path, temporary: true }).expect("init again");
    assert_eq!(db.find_url(first.id).expect("find"), first);
    assert_eq!(db.find_url_by_keyword("k1").expect("find by keyword"), "u1");
    let second = db.insert_url("k2", "u2", None).expect("insert");
    assert!(second.id > first.id);
    assert_eq!(db.audit().expect("audit"), true);
}

#[test]
fn the_indexes_stay_consistent() {
    let mut db = fresh();
    assert_eq!(db.audit().expect("audit"), true);
    let mut ids = vec![];
    for i in 0..40 {
        let inserted =
            db.insert_url(&format!("k{}", i), &format!("https://u/{}", i), None).expect("insert");
        ids.push(inserted.id);
    }
    assert!(db.insert_url("k7", "other", None).is_err());
    for (i, id) in ids.iter().enumerate() {
        if i % 3 == 0 {
            assert_eq!(db.delete_url(*id).expect("delete"), true);
        }
    }
    assert_eq!(db.audit().expect("audit"), true);
}

#[test]
fn an_audit_spends_an_id() {
    let mut db = fresh();
    assert_eq!(db.audit().expect("audit"), true);
    assert_eq!(db.insert_url("k1", "u1", None).expect("insert").id, 1);
    assert_eq!(db.audit().expect("audit"), true);
    assert_eq!(db.insert_url("k2", "u2", None).expect("insert").id, 3);
}

#[test]
fn outcomes_of_a_lookup_by_id() {
    let record = Shortened { id: 5, keyword: "k".to_owned(), url: "u".to_owned(), title: None };
    assert_eq!(found_url(5, Ok(Some(record.to_ivec()))).expect("found"), record);
    assert!(matches!(found_url(5, Ok(None)), Err(Error::UrlDoesNotExist(5))));
    match found_url(5, Err(failure())) {
        Err(Error::DbError(m)) => assert_eq!(m, failure().to_string()),
        other => panic!("unexpected: {:?}", other),
    }
}

#[test]
fn outcomes_of_a_lookup_by_keyword() {
    let entry = IdAndUrl { id: 5, url: "u".to_owned() };
    assert_eq!(found_keyword("k", Ok(Some(entry.to_ivec()))).expect("found"), entry);
    match found_keyword("k", Ok(None)) {
        Err(Error::KeywordDoesNotExist(k)) => assert_eq!(k, "k"),
        other => panic!("unexpected: {:?}", other),
    }
    assert!(matches!(found_keyword("k", Err(failure())), Err(Error::DbError(_))));
}

#[test]
fn outcomes_of_claiming_a_keyword() {
    assert!(claimed_keyword("k", Ok(true)).is_ok());
    match claimed_keyword("k", Ok(false)) {
        Err(Error::KeywordAlreadyExists(k)) => assert_eq!(k, "k"),
        other => panic!("unexpected: {:?}", other),
    }
    assert!(matches!(claimed_keyword("k", Err(failure())), Err(Error::DbError(_))));
}

#[test]
fn outcomes_of_a_removal() {
    assert_eq!(removed_record(Ok(())).expect("removed"), true);
    let failed = sled::transaction::TransactionError::Storage(failure());
    match removed_record(Err(failed.clone())) {
        Err(Error::DbError(m)) => assert_eq!(m, format!("{:?}", failed)),
        other => panic!("unexpected: {:?}", other),
    }
}

#[test]
fn a_storage_failure_becomes_an_error_in_its_own_words() {
    match Error::from(failure()) {
        Error::DbError(m) => assert_eq!(m, "Unsupported: no"),
        other => panic!("unexpected: {:?}", other),
    }
}
