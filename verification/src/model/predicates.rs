//! Which records a search accepts, and which of them make up a page.

use super::{SearchParams, SearchParamsView, Shortened, ShortenedView};
use ::predicates::Predicate;
use vstd::prelude::*;

verus! {

/// `needle` stands in `hay` at the position `at`.
pub open spec fn occurs_at(needle: Seq<char>, hay: Seq<char>, at: int) -> bool {
    &&& 0 <= at
    &&& at + needle.len() <= hay.len()
    &&& hay.subrange(at, at + needle.len()) == needle
}

/// `needle` is a substring of `hay`. Case counts.
pub open spec fn contains(hay: Seq<char>, needle: Seq<char>) -> bool {
    exists|at: int| occurs_at(needle, hay, at)
}

/// The title of a record, empty where it has none.
pub open spec fn title_or_empty(title: Option<Seq<char>>) -> Seq<char> {
    match title {
        Some(t) => t,
        None => Seq::empty(),
    }
}

/// `value` is a substring of the URL, of the keyword or of the title of `var`.
pub open spec fn term_contains(value: Seq<char>, var: ShortenedView) -> bool {
    ||| contains(var.url, value)
    ||| contains(var.keyword, value)
    ||| contains(title_or_empty(var.title), value)
}

/// The record `var` passes the filter of `term`: every record passes the
/// empty term, and another term must be found in one of the record's texts.
pub open spec fn accepts(term: Seq<char>, var: ShortenedView) -> bool {
    term.len() == 0 || term_contains(term, var)
}

/// The records among `records` that pass the filter of `term`, in their order.
pub open spec fn matching(records: Seq<ShortenedView>, term: Seq<char>) -> Seq<ShortenedView> {
    records.filter(|var: ShortenedView| accepts(term, var))
}

/// The page that `params` asks for: of the matching records, those from
/// position `start` on, `page_size` of them at most.
pub open spec fn page(records: Seq<ShortenedView>, params: SearchParamsView) -> Seq<ShortenedView> {
    let found = matching(records, params.term);
    let from = if params.start <= found.len() {
        params.start as int
    } else {
        found.len() as int
    };
    let to = if params.start + params.page_size <= found.len() {
        params.start + params.page_size
    } else {
        found.len() as int
    };
    found.subrange(from, to)
}

/// `predicates::str::contains`, then `Predicate::eval`: whether `pattern` is
/// a substring of `variable`.
#[verifier::external_body]
pub(crate) fn str_contains(variable: &str, pattern: &str) -> (r: bool)
    ensures
        r == contains(variable@, pattern@),
{
    ::predicates::str::contains(pattern).eval(variable)
}

/// The filter that accepts every record.
pub struct AlwaysTrue;

impl AlwaysTrue {
    pub fn eval(&self, _var: &Shortened) -> (r: bool)
        ensures
            r,
    {
        true
    }
}

/// The filter that accepts the records in which a text is found.
pub struct TermContains<'a> {
    pub value: &'a str,
}

impl<'a> TermContains<'a> {
    pub fn eval(&self, var: &Shortened) -> (r: bool)
        ensures
            r == term_contains(self.value@, var@),
    {
        let value = self.value;
        if str_contains(var.url.as_str(), value) {
            return true;
        }
        if str_contains(var.keyword.as_str(), value) {
            return true;
        }
        proof {
            reveal_strlit("");
            assert(""@ == Seq::<char>::empty());
        }
        match &var.title {
            Some(t) => str_contains(t.as_str(), value),
            None => str_contains("", value),
        }
    }
}

impl SearchParams {
    /// Whether `var` passes the filter of this search.
    pub fn accepts(&self, var: &Shortened) -> (r: bool)
        ensures
            r == accepts(self@.term, var@),
    {
        if self.term.as_str().is_empty() {
            AlwaysTrue.eval(var)
        } else {
            let term = TermContains { value: self.term.as_str() };
            AlwaysTrue.eval(var) && term.eval(var)
        }
    }
}

/// How far a page has come once `records` have been looked at: how many
/// matching records were passed over, and the page so far.
pub open spec fn progress(records: Seq<ShortenedView>, params: SearchParamsView) -> (
    usize,
    Seq<ShortenedView>,
) {
    let found = matching(records, params.term);
    let skipped = if params.start <= found.len() {
        params.start
    } else {
        found.len() as usize
    };
    (skipped, page(records, params))
}

/// What looking at one more record does to a page: a record that does not
/// pass changes nothing; one that passes is passed over while fewer than
/// `start` were, and else joins the page while the page is not full.
pub open spec fn stepped(
    params: SearchParamsView,
    skipped: usize,
    found: Seq<ShortenedView>,
    var: ShortenedView,
) -> (usize, Seq<ShortenedView>) {
    if !accepts(params.term, var) {
        (skipped, found)
    } else if skipped < params.start {
        ((skipped + 1) as usize, found)
    } else if found.len() < params.page_size {
        (skipped, found.push(var))
    } else {
        (skipped, found)
    }
}

/// The values of the records of `found`, in their order.
pub open spec fn views(found: Seq<Shortened>) -> Seq<ShortenedView> {
    found.map_values(|s: Shortened| s@)
}

/// Looks at one more record for the page of `params`: passes it over, adds it
/// to `found`, or leaves it out.
pub fn page_step(
    params: &SearchParams,
    skipped: &mut usize,
    found: &mut Vec<Shortened>,
    record: Shortened,
)
    ensures
        (*final(skipped), views(final(found)@)) == stepped(
            params@,
            *old(skipped),
            views(old(found)@),
            record@,
        ),
{
    if params.accepts(&record) {
        if *skipped < params.start {
            *skipped = *skipped + 1;
        } else if found.len() < params.page_size {
            let ghost before = views(found@);
            found.push(record);
            assert(views(found@) == before.push(record@));
        }
    }
}

/// The page that `params` asks for, of `records` in their order.
pub fn page_of(records: &Vec<Shortened>, params: &SearchParams) -> (found: Vec<Shortened>)
    ensures
        views(found@) == page(views(records@), params@),
{
    let ghost all = views(records@);
    let mut skipped: usize = 0;
    let mut found: Vec<Shortened> = Vec::new();
    let mut i: usize = 0;
    proof {
        assert(all.take(0) == Seq::<ShortenedView>::empty());
        assert(views(found@) == page(all.take(0), params@));
    }
    while i < records.len()
        invariant
            all == views(records@),
            0 <= i <= records.len(),
            (skipped, views(found@)) == progress(all.take(i as int), params@),
        decreases records.len() - i,
    {
        let record = records[i].clone();
        proof {
            assert(all.take(i + 1) == all.take(i as int).push(record@));
            lemma_step(all.take(i as int), params@, record@);
        }
        page_step(params, &mut skipped, &mut found, record);
        i = i + 1;
    }
    proof {
        assert(all.take(i as int) == all);
    }
    found
}

/// One step takes the page of some records to the page of those records and
/// one more.
pub proof fn lemma_step(records: Seq<ShortenedView>, params: SearchParamsView, var: ShortenedView)
    ensures
        stepped(params, progress(records, params).0, progress(records, params).1, var) == progress(
            records.push(var),
            params,
        ),
{
    lemma_matching_push(records, var, params.term);
    let found = matching(records, params.term);
    let more = matching(records.push(var), params.term);
    let after = stepped(params, progress(records, params).0, progress(records, params).1, var);
    assert(after.1 =~= progress(records.push(var), params).1);
}

/// A page that is full stays as it is, whatever records follow.
pub proof fn lemma_full_page(records: Seq<ShortenedView>, n: int, params: SearchParamsView)
    requires
        0 <= n <= records.len(),
        page(records.take(n), params).len() == params.page_size,
    ensures
        page(records, params) == page(records.take(n), params),
{
    lemma_matching_prefix(records, n, params.term);
    let seen = matching(records.take(n), params.term);
    let whole = matching(records, params.term);
    assert(whole.take(seen.len() as int) == seen);
    assert(page(records, params) =~= page(records.take(n), params));
}

/// Adding a record at the end adds it to the matching records, if it passes.
pub proof fn lemma_matching_push(records: Seq<ShortenedView>, var: ShortenedView, term: Seq<char>)
    ensures
        matching(records.push(var), term) == if accepts(term, var) {
            matching(records, term).push(var)
        } else {
            matching(records, term)
        },
{
    reveal(Seq::filter);
    assert(records.push(var).drop_last() == records);
}

/// The empty term leaves no record out.
pub proof fn lemma_matching_all(records: Seq<ShortenedView>, term: Seq<char>)
    requires
        term.len() == 0,
    ensures
        matching(records, term) == records,
    decreases records.len(),
{
    if records.len() == 0 {
        reveal(Seq::filter);
    } else {
        let head = records.drop_last();
        lemma_matching_all(head, term);
        lemma_matching_push(head, records.last(), term);
        assert(head.push(records.last()) == records);
    }
}

/// The matching records of a prefix are a prefix of the matching records.
pub proof fn lemma_matching_prefix(records: Seq<ShortenedView>, n: int, term: Seq<char>)
    requires
        0 <= n <= records.len(),
    ensures
        matching(records.take(n), term).len() <= matching(records, term).len(),
        matching(records, term).take(matching(records.take(n), term).len() as int) == matching(
            records.take(n),
            term,
        ),
{
    let accepted = |var: ShortenedView| accepts(term, var);
    let head = records.take(n);
    let tail = records.skip(n);
    assert(records == head + tail);
    Seq::filter_distributes_over_add(head, tail, accepted);
    assert((head.filter(accepted) + tail.filter(accepted)).take(head.filter(accepted).len() as int)
        == head.filter(accepted));
}

} // verus!
