//! Rules on fields that may be missing, with what was found where a rule is
//! broken.

use super::json::{
    ShortenedCreate, ShortenedCreateView, KEYWORD_MAX, KEYWORD_MIN, URL_MAX, URL_MIN,
};
use crate::model::utf8_len;
use vstd::prelude::*;
use vstd::utf8::encode_utf8;

verus! {

/// The name of a field of a request.
pub type FieldName = String;

/// A rule that a request breaks.
#[derive(Debug, PartialEq, Eq)]
pub enum Error {
    /// The field is missing.
    ValueIsRequired(FieldName),
    /// The field, the least size, the value and its size.
    ValueTooShort(FieldName, usize, String, usize),
    /// The field, the greatest size, the value and its size.
    ValueTooLong(FieldName, usize, String, usize),
    /// The request, and each rule that it breaks.
    InvalidShortenedCreate(ShortenedCreate, Vec<Error>),
}

/// What can be held to the rules.
pub trait Validated {
    fn validate(&self) -> Result<(), Error>;
}

/// A broken rule, as a mathematical value.
pub enum Violation {
    Required(Seq<char>),
    TooShort(Seq<char>, usize, Seq<char>, usize),
    TooLong(Seq<char>, usize, Seq<char>, usize),
}

/// The error `e` reports the broken rule `v`.
pub open spec fn describes(e: Error, v: Violation) -> bool {
    match v {
        Violation::Required(field) => e is ValueIsRequired && e->ValueIsRequired_0@ == field,
        Violation::TooShort(field, min, value, size) => {
            &&& e is ValueTooShort
            &&& e->ValueTooShort_0@ == field
            &&& e->ValueTooShort_1 == min
            &&& e->ValueTooShort_2@ == value
            &&& e->ValueTooShort_3 == size
        },
        Violation::TooLong(field, max, value, size) => {
            &&& e is ValueTooLong
            &&& e->ValueTooLong_0@ == field
            &&& e->ValueTooLong_1 == max
            &&& e->ValueTooLong_2@ == value
            &&& e->ValueTooLong_3 == size
        },
    }
}

/// The errors report the broken rules, one for one and in their order.
pub open spec fn all_describe(errors: Seq<Error>, broken: Seq<Violation>) -> bool {
    &&& errors.len() == broken.len()
    &&& forall|i: int| 0 <= i < errors.len() ==> describes(#[trigger] errors[i], broken[i])
}

/// The rule that a missing field breaks.
pub open spec fn required(missing: bool, field: Seq<char>) -> Seq<Violation> {
    if missing {
        seq![Violation::Required(field)]
    } else {
        Seq::empty()
    }
}

/// The rule on its size that a field breaks, if it is there and breaks one.
/// Sizes are counted in bytes of UTF-8. A size that is both below the least
/// and above the greatest breaks neither rule.
pub open spec fn sized(value: Option<Seq<char>>, field: Seq<char>, min: usize, max: usize) -> Seq<
    Violation,
> {
    match value {
        None => Seq::empty(),
        Some(s) => {
            let size = encode_utf8(s).len();
            if size < min && !(size > max) {
                seq![Violation::TooShort(field, min, s, size as usize)]
            } else if !(size < min) && size > max {
                seq![Violation::TooLong(field, max, s, size as usize)]
            } else {
                Seq::empty()
            }
        },
    }
}

/// The rules that a request breaks: keyword and URL must be there, and the
/// sizes of the URL and of the keyword must be within their bounds.
pub open spec fn field_violations(request: ShortenedCreateView) -> Seq<Violation> {
    required(false, "keyword"@) + required(false, "url"@) + sized(
        Some(request.url),
        "url"@,
        URL_MIN,
        URL_MAX,
    ) + sized(Some(request.keyword), "keyword"@, KEYWORD_MIN, KEYWORD_MAX)
}

/// The value of an optional string.
pub open spec fn value_view(value: Option<String>) -> Option<Seq<char>> {
    match value {
        Some(s) => Some(s@),
        None => None,
    }
}

/// Adds an error to `errors` where the field is missing.
pub fn check_required<T>(value: &Option<T>, field: &str, errors: &mut Vec<Error>)
    ensures
        value is Some ==> final(errors)@ == old(errors)@,
        value is None ==> {
            &&& final(errors)@.len() == old(errors)@.len() + 1
            &&& final(errors)@.drop_last() == old(errors)@
            &&& describes(final(errors)@.last(), Violation::Required(field@))
        },
{
    if value.is_none() {
        errors.push(Error::ValueIsRequired(field.to_owned()));
    }
}

/// Adds an error to `errors` where the field is there and breaks the rule on
/// its size.
pub fn check_size(value: &Option<String>, field: &str, min: usize, max: usize, errors: &mut Vec<Error>)
    ensures
        sized(value_view(*value), field@, min, max).len() == 0 ==> final(errors)@ == old(errors)@,
        sized(value_view(*value), field@, min, max).len() != 0 ==> {
            &&& final(errors)@.len() == old(errors)@.len() + 1
            &&& final(errors)@.drop_last() == old(errors)@
            &&& describes(final(errors)@.last(), sized(value_view(*value), field@, min, max)[0])
        },
{
    match value {
        None => {},
        Some(s) => {
            let sz = utf8_len(s.as_str());
            if sz < min && !(sz > max) {
                errors.push(Error::ValueTooShort(field.to_owned(), min, s.clone(), sz));
            } else if !(sz < min) && sz > max {
                errors.push(Error::ValueTooLong(field.to_owned(), max, s.clone(), sz));
            }
        },
    }
}

impl Validated for ShortenedCreate {
    fn validate(&self) -> Result<(), Error> {
        validate_fields(self)
    }
}

/// Accepts the request where it breaks no rule, and reports each rule that it
/// breaks where it does.
pub fn validate_fields(request: &ShortenedCreate) -> (r: Result<(), Error>)
    ensures
        r is Ok <==> field_violations(request@).len() == 0,
        r matches Err(e) ==> e matches Error::InvalidShortenedCreate(_, _),
        r matches Err(Error::InvalidShortenedCreate(held, errors)) ==> held@ == request@
            && all_describe(errors@, field_violations(request@)),
{
    let keyword: Option<String> = Some(request.keyword.clone());
    let url: Option<String> = Some(request.url.clone());
    let mut errors: Vec<Error> = Vec::new();
    let ghost none = Seq::<Violation>::empty();
    let ghost url_rule = sized(Some(request@.url), "url"@, URL_MIN, URL_MAX);
    let ghost keyword_rule = sized(Some(request@.keyword), "keyword"@, KEYWORD_MIN, KEYWORD_MAX);
    check_required(&keyword, "keyword", &mut errors);
    check_required(&url, "url", &mut errors);
    assert(all_describe(errors@, none));
    check_size(&url, "url", URL_MIN, URL_MAX, &mut errors);
    assert(all_describe(errors@, url_rule)) by {
        if url_rule.len() != 0 {
            assert(errors@.len() == 1);
            assert(errors@[0] == errors@.last());
        }
    }
    let ghost after_url = errors@;
    check_size(&keyword, "keyword", KEYWORD_MIN, KEYWORD_MAX, &mut errors);
    assert(all_describe(errors@, url_rule + keyword_rule)) by {
        if keyword_rule.len() != 0 {
            assert(errors@.drop_last() == after_url);
            assert forall|i: int| 0 <= i < errors@.len() implies describes(
                #[trigger] errors@[i],
                (url_rule + keyword_rule)[i],
            ) by {
                if i < after_url.len() {
                    assert(errors@[i] == after_url[i]);
                } else {
                    assert(errors@[i] == errors@.last());
                }
            }
        }
    }
    assert(field_violations(request@) =~= url_rule + keyword_rule);
    if errors.len() == 0 {
        Ok(())
    } else {
        Err(Error::InvalidShortenedCreate(request.clone(), errors))
    }
}

} // verus!
