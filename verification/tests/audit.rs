use lib_turls::db::{Config, Db};
use lib_turls::model::{IdAndUrl, Shortened};
use lib_turls::Error;

fn path() -> String {
    format!("/tmp/lib_turls_tests/{}", uuid::Uuid::new_v4())
}

fn record(id: u64, keyword: &str, url: &str) -> Shortened {
    Shortened { id, keyword: keyword.to_owned(), url: url.to_owned(), title: None }
}

fn entry(id: u64, url: &str) -> IdAndUrl {
    IdAndUrl { id, url: url.to_owned() }
}

/// A store at a fresh path that holds the given entries and nothing else,
/// and that has handed out the ids below 1000.
fn store_with(urls: Vec<(Vec<u8>, Vec<u8>)>, keywords: Vec<(Vec<u8>, Vec<u8>)>) -> Db {
    let path = path();
    {
        let raw = sled::Config::new().path(&path).open().expect("open");
        for _ in 0..1000 {
            raw.generate_id().expect("id");
        }
        let tree = raw.open_tree("urls").expect("urls");
        for (key, value) in urls {
            tree.insert(key, value).expect("insert");
        }
        let tree = raw.open_tree("keywords").expect("keywords");
        for (key, value) in keywords {
            tree.insert(key, value).expect("insert");
        }
        raw.flush().expect("flush");
    }
    Db::init(&Config { path, temporary: true }).expect("init")
}

#[test]
fn a_store_written_record_by_record_is_consistent() {
    let mut db = store_with(
        vec![
            (Shortened::db_id(3), record(3, "k3", "u3").to_ivec()),
            (Shortened::db_id(700), record(700, "k700", "u700").to_ivec()),
        ],
        vec![
            (b"k3".to_vec(), entry(3, "u3").to_ivec()),
            (b"k700".to_vec(), entry(700, "u700").to_ivec()),
        ],
    );
    assert_eq!(db.audit().expect("audit"), true);
    assert_eq!(db.find_url(700).expect("find"), record(700, "k700", "u700"));
    assert_eq!(db.find_url_by_keyword("k3").expect("find by keyword"), "u3");
    assert!(matches!(db.find_url(4), Err(Error::UrlDoesNotExist(4))));
}

#[test]
fn a_record_with_an_id_that_was_not_handed_out_is_found_out() {
    let far = 1u64 << 60;
    let mut db = store_with(
        vec![(Shortened::db_id(far), record(far, "k", "u").to_ivec())],
        vec![(b"k".to_vec(), entry(far, "u").to_ivec())],
    );
    assert_eq!(db.audit().expect("audit"), false);
    let mut db = store_with(
        vec![(Shortened::db_id(999), record(999, "k", "u").to_ivec())],
        vec![(b"k".to_vec(), entry(999, "u").to_ivec())],
    );
    assert_eq!(db.audit().expect("audit"), true);
    let next = db.insert_url("k2", "u2", None).expect("insert");
    assert!(next.id > 999);
}

#[test]
fn a_keyword_entry_without_a_record_is_allowed() {
    let mut db = store_with(vec![], vec![(b"k1".to_vec(), entry(1, "u1").to_ivec())]);
    assert_eq!(db.audit().expect("audit"), true);
    assert_eq!(db.find_url_by_keyword("k1").expect("find by keyword"), "u1");
}

#[test]
fn a_value_that_is_no_record_is_found_out() {
    let mut db = store_with(vec![(Shortened::db_id(1), vec![1, 2, 3])], vec![]);
    assert_eq!(db.audit().expect("audit"), false);
}

#[test]
fn a_record_under_the_key_of_another_id_is_found_out() {
    let mut db = store_with(
        vec![(Shortened::db_id(2), record(1, "k1", "u1").to_ivec())],
        vec![(b"k1".to_vec(), entry(1, "u1").to_ivec())],
    );
    assert_eq!(db.audit().expect("audit"), false);
}

#[test]
fn a_record_under_a_key_that_is_no_id_is_found_out() {
    let mut db = store_with(
        vec![(vec![0, 0, 1], record(1, "k1", "u1").to_ivec())],
        vec![(b"k1".to_vec(), entry(1, "u1").to_ivec())],
    );
    assert_eq!(db.audit().expect("audit"), false);
}

#[test]
fn a_record_without_its_keyword_entry_is_found_out() {
    let mut db = store_with(vec![(Shortened::db_id(1), record(1, "k1", "u1").to_ivec())], vec![]);
    assert_eq!(db.audit().expect("audit"), false);
}

#[test]
fn a_keyword_entry_of_another_record_is_found_out() {
    let mut other_id = store_with(
        vec![(Shortened::db_id(1), record(1, "k1", "u1").to_ivec())],
        vec![(b"k1".to_vec(), entry(2, "u1").to_ivec())],
    );
    assert_eq!(other_id.audit().expect("audit"), false);
    let mut other_url = store_with(
        vec![(Shortened::db_id(1), record(1, "k1", "u1").to_ivec())],
        vec![(b"k1".to_vec(), entry(1, "u2").to_ivec())],
    );
    assert_eq!(other_url.audit().expect("audit"), false);
}

#[test]
fn a_keyword_entry_that_cannot_be_read_is_found_out() {
    let mut db = store_with(vec![], vec![(b"k1".to_vec(), vec![9])]);
    assert_eq!(db.audit().expect("audit"), false);
}

#[test]
fn two_records_with_one_keyword_are_found_out() {
    let mut db = store_with(
        vec![
            (Shortened::db_id(1), record(1, "k", "u").to_ivec()),
            (Shortened::db_id(2), record(2, "k", "u").to_ivec()),
        ],
        vec![(b"k".to_vec(), entry(1, "u").to_ivec())],
    );
    assert_eq!(db.audit().expect("audit"), false);
}

#[test]
fn what_another_writer_stored_in_the_same_layout_is_read() {
    let written = bincode::serialize(&(5u64, "k5", "https://u5", Some("five"))).expect("serialize");
    let expected = Shortened {
        id: 5,
        keyword: "k5".to_owned(),
        url: "https://u5".to_owned(),
        title: Some("five".to_owned()),
    };
    assert_eq!(expected.to_ivec(), written);
    let mut db = store_with(
        vec![(5u64.to_be_bytes().to_vec(), written)],
        vec![(b"k5".to_vec(), bincode::serialize(&(5u64, "https://u5")).expect("serialize"))],
    );
    assert_eq!(db.audit().expect("audit"), true);
    assert_eq!(db.find_url(5).expect("find"), expected);
}
