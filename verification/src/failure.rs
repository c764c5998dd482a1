//! What a failed assertion hands back: the kind of failure and the values that show it.

use vstd::prelude::*;

verus! {

/// A value laid before the reader of a failure report.
#[derive(Debug, PartialEq)]
pub enum Shown<T> {
    /// Nothing to show.
    Nothing,
    /// One record.
    Record(T),
    /// A list of records, in order.
    Records(Vec<T>),
    /// The first record that a search came upon.
    First(T),
    /// A number of records.
    Count(usize),
    /// The caller's predicate, which has no rendering of its own.
    Predicate,
}

/// The ways in which an assertion can fail to hold.
#[derive(Clone, Copy, Debug, PartialEq, Eq)]
pub enum Mismatch {
    /// `matches`: a record of the query is not among the given ones.
    UnexpectedRecord,
    /// `matches`: a given record is not in the query.
    MissingRecord,
    /// `matches`: the query and the given list differ in length.
    LengthsDiffer,
    /// `has`, `has_all`: a given record is not in the query.
    RecordNotFound,
    /// `has_any`: none of the given records is in the query.
    NoneFound,
    /// `all`: the predicate fails on a record.
    PredicateFailed,
    /// `any`: the predicate holds on no record.
    PredicateMatchedNone,
    /// `length`: the query has another length.
    LengthDiffers,
}

/// The assertions that can hold although their negation was asserted.
#[derive(Clone, Copy, Debug, PartialEq, Eq)]
pub enum Unexpected {
    Matches,
    Has,
    HasAll,
    HasAny,
    All,
    Any,
    Length,
}

/// Why an assertion stopped the chain.
#[derive(Debug, PartialEq)]
pub enum Failure<T> {
    /// The asserted condition did not hold.
    Mismatch { kind: Mismatch, given: Shown<T>, found: Shown<T> },
    /// The condition held, and its negation was asserted.
    UnexpectedMatch { assertion: Unexpected, matched: Shown<T> },
}

/// A [`Shown`] value as contracts speak of it: a list by its records, a count as a number.
pub enum ShownView<T> {
    Nothing,
    Record(T),
    Records(Seq<T>),
    First(T),
    Count(int),
    Predicate,
}

/// A [`Failure`] as contracts speak of it.
pub enum FailureView<T> {
    Mismatch { kind: Mismatch, given: ShownView<T>, found: ShownView<T> },
    UnexpectedMatch { assertion: Unexpected, matched: ShownView<T> },
}

impl<T> View for Shown<T> {
    type V = ShownView<T>;

    open spec fn view(&self) -> ShownView<T> {
        match self {
            Shown::Nothing => ShownView::Nothing,
            Shown::Record(record) => ShownView::Record(*record),
            Shown::Records(records) => ShownView::Records(records@),
            Shown::First(record) => ShownView::First(*record),
            Shown::Count(n) => ShownView::<T>::Count(*n as int),
            Shown::Predicate => ShownView::Predicate,
        }
    }
}

impl<T> View for Failure<T> {
    type V = FailureView<T>;

    open spec fn view(&self) -> FailureView<T> {
        match self {
            Failure::Mismatch { kind, given, found } => FailureView::Mismatch {
                kind: *kind,
                given: given@,
                found: found@,
            },
            Failure::UnexpectedMatch { assertion, matched } => FailureView::UnexpectedMatch {
                assertion: *assertion,
                matched: matched@,
            },
        }
    }
}

impl Mismatch {
    /// The headline of the report, as text.
    pub open spec fn headline_text(self) -> Seq<char> {
        match self {
            Mismatch::UnexpectedRecord => "The query contains an unexpected bundle."@,
            Mismatch::MissingRecord => "One of the given bundles wasn't found in the query."@,
            Mismatch::LengthsDiffer => "The length of the query result and the given result mismatches."@,
            Mismatch::RecordNotFound => "The given bundle wasn't found in the query."@,
            Mismatch::NoneFound => "None of the given bundles were found in the query."@,
            Mismatch::PredicateFailed => "The predicate fails on one of the bundles"@,
            Mismatch::PredicateMatchedNone => "The predicate didn't match on any of the bundles"@,
            Mismatch::LengthDiffers => "The length of the query result mismatches."@,
        }
    }

    /// The headline of the report.
    pub fn headline(&self) -> (text: &'static str)
        ensures
            text@ == self.headline_text(),
    {
        match self {
            Mismatch::UnexpectedRecord => "The query contains an unexpected bundle.",
            Mismatch::MissingRecord => "One of the given bundles wasn't found in the query.",
            Mismatch::LengthsDiffer => "The length of the query result and the given result mismatches.",
            Mismatch::RecordNotFound => "The given bundle wasn't found in the query.",
            Mismatch::NoneFound => "None of the given bundles were found in the query.",
            Mismatch::PredicateFailed => "The predicate fails on one of the bundles",
            Mismatch::PredicateMatchedNone => "The predicate didn't match on any of the bundles",
            Mismatch::LengthDiffers => "The length of the query result mismatches.",
        }
    }
}

impl Unexpected {
    /// The headline of the report, as text.
    pub open spec fn headline_text(self) -> Seq<char> {
        match self {
            Unexpected::Matches => "The query matches with the given bundles"@,
            Unexpected::Has => "The query contains all given bundles"@,
            Unexpected::HasAll => "The query has all given bundles."@,
            Unexpected::HasAny => "Some of the given bundles were found in the query."@,
            Unexpected::All => "The predicate matches on all of the bundles."@,
            Unexpected::Any => "The predicate matched on one of the bundles"@,
            Unexpected::Length => "The length of the query result matches."@,
        }
    }

    /// The headline of the report.
    pub fn headline(&self) -> (text: &'static str)
        ensures
            text@ == self.headline_text(),
    {
        match self {
            Unexpected::Matches => "The query matches with the given bundles",
            Unexpected::Has => "The query contains all given bundles",
            Unexpected::HasAll => "The query has all given bundles.",
            Unexpected::HasAny => "Some of the given bundles were found in the query.",
            Unexpected::All => "The predicate matches on all of the bundles.",
            Unexpected::Any => "The predicate matched on one of the bundles",
            Unexpected::Length => "The length of the query result matches.",
        }
    }
}

} // verus!
