//! What a client sends to create a record, and the rules it must meet.

use crate::model::utf8_len;
use vstd::prelude::*;
use vstd::utf8::encode_utf8;

verus! {

/// A request to create a record.
#[derive(Debug, PartialEq, Eq)]
pub struct ShortenedCreate {
    pub keyword: String,
    pub url: String,
    pub title: Option<String>,
}

/// The mathematical value of a [`ShortenedCreate`].
pub struct ShortenedCreateView {
    pub keyword: Seq<char>,
    pub url: Seq<char>,
    pub title: Option<Seq<char>>,
}

impl View for ShortenedCreate {
    type V = ShortenedCreateView;

    open spec fn view(&self) -> ShortenedCreateView {
        ShortenedCreateView {
            keyword: self.keyword@,
            url: self.url@,
            title: match self.title {
                Some(t) => Some(t@),
                None => None,
            },
        }
    }
}

impl Clone for ShortenedCreate {
    fn clone(&self) -> (r: Self)
        ensures
            r == *self,
    {
        ShortenedCreate {
            keyword: self.keyword.clone(),
            url: self.url.clone(),
            title: match &self.title {
                Some(t) => Some(t.clone()),
                None => None,
            },
        }
    }
}

/// A rule that a field of a request breaks.
#[derive(Debug, PartialEq, Eq)]
pub struct ValidationError {
    pub field: String,
    pub rule: String,
}

/// The mathematical value of a [`ValidationError`].
pub struct ValidationErrorView {
    pub field: Seq<char>,
    pub rule: Seq<char>,
}

impl View for ValidationError {
    type V = ValidationErrorView;

    open spec fn view(&self) -> ValidationErrorView {
        ValidationErrorView { field: self.field@, rule: self.rule@ }
    }
}

impl Clone for ValidationError {
    fn clone(&self) -> (r: Self)
        ensures
            r == *self,
    {
        ValidationError { field: self.field.clone(), rule: self.rule.clone() }
    }
}

/// Why a request is refused.
#[derive(Debug, PartialEq, Eq)]
pub enum Error {
    /// The request, and each rule that it breaks.
    InvalidShortenedCreate(ShortenedCreate, Vec<ValidationError>),
}

/// The shortest and the longest URL that is accepted, in bytes of UTF-8.
pub const URL_MIN: usize = 2;

pub const URL_MAX: usize = 255;

/// The shortest and the longest keyword that is accepted, in bytes of UTF-8.
pub const KEYWORD_MIN: usize = 2;

pub const KEYWORD_MAX: usize = 25;

/// The rule on its size that `value` breaks, if it breaks one. Sizes are
/// counted in bytes of UTF-8.
pub open spec fn size_rule(value: Seq<char>, min: usize, max: usize) -> Option<Seq<char>> {
    if encode_utf8(value).len() < min {
        Some("too_short"@)
    } else if encode_utf8(value).len() > max {
        Some("too_long"@)
    } else {
        None
    }
}

/// The rules that a field breaks: at most the one on its size.
pub open spec fn size_violations(value: Seq<char>, field: Seq<char>, min: usize, max: usize) -> Seq<
    ValidationErrorView,
> {
    match size_rule(value, min, max) {
        Some(rule) => seq![ValidationErrorView { field, rule }],
        None => Seq::empty(),
    }
}

/// The rules that a request breaks: those of the URL, then those of the
/// keyword.
pub open spec fn violations(request: ShortenedCreateView) -> Seq<ValidationErrorView> {
    size_violations(request.url, "url"@, URL_MIN, URL_MAX) + size_violations(
        request.keyword,
        "keyword"@,
        KEYWORD_MIN,
        KEYWORD_MAX,
    )
}

/// The values of `errors`, in their order.
pub open spec fn error_views(errors: Seq<ValidationError>) -> Seq<ValidationErrorView> {
    errors.map_values(|e: ValidationError| e@)
}

/// Checks the size of one field.
pub fn check_size(value: &str, field: &str, min: usize, max: usize) -> (r: Option<ValidationError>)
    ensures
        match r {
            Some(e) => size_rule(value@, min, max) == Some(e.rule@) && e.field@ == field@,
            None => size_rule(value@, min, max) is None,
        },
{
    let size = utf8_len(value);
    if size < min {
        return Some(ValidationError { field: field.to_owned(), rule: "too_short".to_owned() });
    }
    if size > max {
        return Some(ValidationError { field: field.to_owned(), rule: "too_long".to_owned() });
    }
    None
}

impl ShortenedCreate {
    /// Accepts the request where it breaks no rule, and lists the rules that
    /// it breaks where it does.
    pub fn validate(&self) -> (r: Result<(), Error>)
        ensures
            r is Ok <==> violations(self@).len() == 0,
            r matches Err(Error::InvalidShortenedCreate(request, errors)) ==> request@ == self@
                && error_views(errors@) == violations(self@),
    {
        let mut errors: Vec<ValidationError> = Vec::new();
        assert(error_views(errors@) == Seq::<ValidationErrorView>::empty());
        match check_size(self.url.as_str(), "url", URL_MIN, URL_MAX) {
            Some(it) => {
                let ghost before = error_views(errors@);
                errors.push(it);
                assert(error_views(errors@) == before.push(it@));
            },
            None => {},
        }
        assert(error_views(errors@) == size_violations(self@.url, "url"@, URL_MIN, URL_MAX));
        match check_size(self.keyword.as_str(), "keyword", KEYWORD_MIN, KEYWORD_MAX) {
            Some(it) => {
                let ghost before = error_views(errors@);
                errors.push(it);
                assert(error_views(errors@) == before.push(it@));
            },
            None => {},
        }
        assert(error_views(errors@) == violations(self@));
        if errors.len() == 0 {
            Ok(())
        } else {
            Err(Error::InvalidShortenedCreate(self.clone(), errors))
        }
    }
}

} // verus!
