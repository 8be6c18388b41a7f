use lib_turls::text::to_decimal;
use lib_turls::Error;

#[test]
fn numbers_in_decimal() {
    assert_eq!(to_decimal(0), "0");
    assert_eq!(to_decimal(7), "7");
    assert_eq!(to_decimal(10), "10");
    assert_eq!(to_decimal(1234567890), "1234567890");
    assert_eq!(to_decimal(u64::MAX), "18446744073709551615");
}

#[test]
fn errors_in_words() {
    assert_eq!(Error::DbError("disk full".to_owned()).to_string(), "disk full");
    assert_eq!(Error::UrlDoesNotExist(12).to_string(), "12 does not exist");
    assert_eq!(Error::KeywordDoesNotExist("k1".to_owned()).to_string(), "k1 does not exist");
    assert_eq!(Error::KeywordAlreadyExists("k1".to_owned()).to_string(), "k1 already exists");
}
