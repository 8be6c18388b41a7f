use lib_turls::api::json::ShortenedCreate;
use lib_turls::api::validation::{check_required, check_size, validate_fields, Error, Validated};

fn request(keyword: &str, url: &str) -> ShortenedCreate {
    ShortenedCreate { keyword: keyword.to_owned(), url: url.to_owned(), title: None }
}

fn too_short(field: &str, min: usize, value: &str) -> Error {
    Error::ValueTooShort(field.to_owned(), min, value.to_owned(), value.len())
}

fn too_long(field: &str, max: usize, value: &str) -> Error {
    Error::ValueTooLong(field.to_owned(), max, value.to_owned(), value.len())
}

#[test]
fn a_missing_field_is_reported() {
    let mut errors = vec![];
    check_required(&Some(1), "a", &mut errors);
    check_required(&None::<String>, "b", &mut errors);
    check_required(&Some("x"), "c", &mut errors);
    check_required(&None::<u8>, "d", &mut errors);
    assert_eq!(
        errors,
        vec![Error::ValueIsRequired("b".to_owned()), Error::ValueIsRequired("d".to_owned())]
    );
}

#[test]
fn a_size_out_of_its_bounds_is_reported_with_what_was_found() {
    let mut errors = vec![];
    check_size(&None, "f", 2, 5, &mut errors);
    check_size(&Some("ab".to_owned()), "f", 2, 5, &mut errors);
    check_size(&Some("abcde".to_owned()), "f", 2, 5, &mut errors);
    assert_eq!(errors, vec![]);
    check_size(&Some("a".to_owned()), "f", 2, 5, &mut errors);
    check_size(&Some("abcdef".to_owned()), "g", 2, 5, &mut errors);
    check_size(&Some("ééé".to_owned()), "h", 2, 5, &mut errors);
    assert_eq!(
        errors,
        vec![too_short("f", 2, "a"), too_long("g", 5, "abcdef"), too_long("h", 5, "ééé")]
    );
    // below the least and above the greatest at once: neither rule is broken
    check_size(&Some("abc".to_owned()), "f", 5, 2, &mut errors);
    assert_eq!(errors.len(), 3);
}

#[test]
fn a_request_is_held_to_the_rules_on_its_fields() {
    assert_eq!(validate_fields(&request("k1", "u1")), Ok(()));
    assert_eq!(Validated::validate(&request("k1", "u1")), Ok(()));
    assert_eq!(validate_fields(&request(&"k".repeat(25), &"u".repeat(255))), Ok(()));
    let short = request("k", "u");
    assert_eq!(
        validate_fields(&short),
        Err(Error::InvalidShortenedCreate(
            short.clone(),
            vec![too_short("url", 2, "u"), too_short("keyword", 2, "k")]
        ))
    );
    let long = request(&"k".repeat(26), &"u".repeat(256));
    assert_eq!(
        Validated::validate(&long),
        Err(Error::InvalidShortenedCreate(
            long.clone(),
            vec![too_long("url", 255, &"u".repeat(256)), too_long("keyword", 25, &"k".repeat(26))]
        ))
    );
}
