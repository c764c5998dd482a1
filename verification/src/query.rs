//! The assertion builder and the model its contracts are stated in.

use crate::failure::Failure;
use crate::failure::FailureView;
use crate::failure::Mismatch;
use crate::failure::Shown;
use crate::failure::ShownView;
use crate::failure::Unexpected;
use crate::search::all_occur_in;
use crate::search::answers_all;
use crate::search::callable_on;
use crate::search::contains;
use crate::search::first_answer;
use crate::search::first_with;
use crate::search::is_first_answer;
use crate::search::is_first_with;
use crate::search::occurs_in;
use crate::search::some_occurs_in;
use vstd::prelude::*;
use vstd::std_specs::cmp::PartialEqSpec;

verus! {

/// What a builder stands for: the records it was made with, in their order,
/// and whether the next assertion is negated.
pub struct Snapshot<T> {
    pub records: Seq<T>,
    pub inverted: bool,
}

impl<T> Snapshot<T> {
    /// The same records with the negation flag flipped.
    pub open spec fn negated(self) -> Self {
        Snapshot { records: self.records, inverted: !self.inverted }
    }

    /// The same records with the negation flag cleared, as an assertion leaves it.
    pub open spec fn settled(self) -> Self {
        Snapshot { records: self.records, inverted: false }
    }

    /// An assertion passes when its condition holds and it is not negated,
    /// or fails to hold and it is negated.
    pub open spec fn passes(self, holds: bool) -> bool {
        holds != self.inverted
    }

    /// The condition of `length`: there are exactly `n` records.
    pub open spec fn has_length(self, n: int) -> bool {
        self.records.len() == n
    }
}

impl<T: PartialEq> Snapshot<T> {
    /// The condition of `matches`: every record is among the given ones, every
    /// given one is among the records, and there are as many of the one as of the other.
    pub open spec fn agrees_with(self, given: Seq<T>) -> bool {
        &&& all_occur_in(self.records, given)
        &&& all_occur_in(given, self.records)
        &&& self.records.len() == given.len()
    }

    /// The condition of `has`: the given record is among the records.
    pub open spec fn contains(self, given: T) -> bool {
        occurs_in(given, self.records)
    }

    /// The condition of `has_all`: every given record is among the records.
    pub open spec fn contains_all(self, given: Seq<T>) -> bool {
        all_occur_in(given, self.records)
    }

    /// The condition of `has_any`: some record is among the given ones.
    pub open spec fn contains_any(self, given: Seq<T>) -> bool {
        some_occurs_in(self.records, given)
    }

    /// `failure` is what `matches` reports on these records and the given ones:
    /// the first record that is not among the given ones; failing that, the first
    /// given record that is not among the records; failing that, the two lengths.
    /// Negated, it reports the given records.
    pub open spec fn matches_failure(self, given: Seq<T>, failure: FailureView<T>) -> bool {
        if self.inverted {
            failure == (FailureView::UnexpectedMatch {
                assertion: Unexpected::Matches,
                matched: ShownView::Records(given),
            })
        } else if !all_occur_in(self.records, given) {
            exists|k: int| #[trigger]
                is_first_with(self.records, given, false, k) && failure == (FailureView::Mismatch {
                    kind: Mismatch::UnexpectedRecord,
                    given: ShownView::Nothing,
                    found: ShownView::Record(self.records[k]),
                })
        } else if !all_occur_in(given, self.records) {
            exists|k: int| #[trigger]
                is_first_with(given, self.records, false, k) && failure == (FailureView::Mismatch {
                    kind: Mismatch::MissingRecord,
                    given: ShownView::Record(given[k]),
                    found: ShownView::Nothing,
                })
        } else {
            failure == (FailureView::Mismatch {
                kind: Mismatch::LengthsDiffer,
                given: ShownView::<T>::Count(given.len() as int),
                found: ShownView::<T>::Count(self.records.len() as int),
            })
        }
    }

    /// `failure` is what `has` reports: the given record, as missing or, negated, as found.
    pub open spec fn has_failure(self, given: T, failure: FailureView<T>) -> bool {
        if self.inverted {
            failure == (FailureView::UnexpectedMatch {
                assertion: Unexpected::Has,
                matched: ShownView::Record(given),
            })
        } else {
            failure == (FailureView::Mismatch {
                kind: Mismatch::RecordNotFound,
                given: ShownView::Record(given),
                found: ShownView::Nothing,
            })
        }
    }

    /// `failure` is what `has_all` reports: the first given record that is not
    /// among the records or, negated, the given records.
    pub open spec fn has_all_failure(self, given: Seq<T>, failure: FailureView<T>) -> bool {
        if self.inverted {
            failure == (FailureView::UnexpectedMatch {
                assertion: Unexpected::HasAll,
                matched: ShownView::Records(given),
            })
        } else {
            exists|k: int| #[trigger]
                is_first_with(given, self.records, false, k) && failure == (FailureView::Mismatch {
                    kind: Mismatch::RecordNotFound,
                    given: ShownView::Record(given[k]),
                    found: ShownView::Nothing,
                })
        }
    }

    /// `failure` is what `has_any` reports: the given records, none of which was
    /// found, or, negated, the first record that is among the given ones.
    pub open spec fn has_any_failure(self, given: Seq<T>, failure: FailureView<T>) -> bool {
        if self.inverted {
            exists|k: int| #[trigger]
                is_first_with(self.records, given, true, k) && failure == (
                FailureView::UnexpectedMatch {
                    assertion: Unexpected::HasAny,
                    matched: ShownView::First(self.records[k]),
                })
        } else {
            failure == (FailureView::Mismatch {
                kind: Mismatch::NoneFound,
                given: ShownView::Records(given),
                found: ShownView::Nothing,
            })
        }
    }
}

impl<T> Snapshot<T> {
    /// `failure` is what `all` reports: the first record on which the predicate
    /// fails or, negated, all the records, on each of which it holds.
    pub open spec fn all_failure<F: Fn(&T) -> bool>(
        self,
        predicate: F,
        failure: FailureView<T>,
    ) -> bool {
        if self.inverted {
            &&& answers_all(predicate, self.records, true)
            &&& failure == (FailureView::UnexpectedMatch {
                assertion: Unexpected::All,
                matched: ShownView::Records(self.records),
            })
        } else {
            exists|k: int| #[trigger]
                is_first_answer(predicate, self.records, false, k) && failure == (
                FailureView::Mismatch {
                    kind: Mismatch::PredicateFailed,
                    given: ShownView::Predicate,
                    found: ShownView::Record(self.records[k]),
                })
        }
    }

    /// `failure` is what `any` reports: that the predicate holds on no record or,
    /// negated, the first record on which it holds.
    pub open spec fn any_failure<F: Fn(&T) -> bool>(
        self,
        predicate: F,
        failure: FailureView<T>,
    ) -> bool {
        if self.inverted {
            exists|k: int| #[trigger]
                is_first_answer(predicate, self.records, true, k) && failure == (
                FailureView::UnexpectedMatch {
                    assertion: Unexpected::Any,
                    matched: ShownView::First(self.records[k]),
                })
        } else {
            &&& answers_all(predicate, self.records, false)
            &&& failure == (FailureView::Mismatch {
                kind: Mismatch::PredicateMatchedNone,
                given: ShownView::Predicate,
                found: ShownView::<T>::Nothing,
            })
        }
    }

    /// What is known of the predicate when `all` passes: it holds on every
    /// record or, negated, fails on one after holding on all before it.
    pub open spec fn all_passed<F: Fn(&T) -> bool>(self, predicate: F) -> bool {
        if self.inverted {
            exists|k: int| is_first_answer(predicate, self.records, false, k)
        } else {
            answers_all(predicate, self.records, true)
        }
    }

    /// What is known of the predicate when `any` passes: it holds on one record
    /// after failing on all before it or, negated, fails on every record.
    pub open spec fn any_passed<F: Fn(&T) -> bool>(self, predicate: F) -> bool {
        if self.inverted {
            answers_all(predicate, self.records, false)
        } else {
            exists|k: int| is_first_answer(predicate, self.records, true, k)
        }
    }

    /// `failure` is what `length` reports: the given length and the true one or,
    /// negated, the given length.
    pub open spec fn length_failure(self, n: int, failure: FailureView<T>) -> bool {
        if self.inverted {
            failure == (FailureView::UnexpectedMatch {
                assertion: Unexpected::Length,
                matched: ShownView::<T>::Count(n),
            })
        } else {
            failure == (FailureView::Mismatch {
                kind: Mismatch::LengthDiffers,
                given: ShownView::<T>::Count(n),
                found: ShownView::<T>::Count(self.records.len() as int),
            })
        }
    }
}

/// A snapshot of query results on which assertions are chained.
#[derive(Debug, PartialEq)]
pub struct AssertQuery<T> {
    results: Vec<T>,
    invert: bool,
}

impl<T> View for AssertQuery<T> {
    type V = Snapshot<T>;

    closed spec fn view(&self) -> Snapshot<T> {
        Snapshot { records: self.results@, inverted: self.invert }
    }
}

impl<T> AssertQuery<T> {
    /// Wraps the records of one query run; the first assertion is not negated.
    pub fn new(results: Vec<T>) -> (q: Self)
        ensures
            q@.records == results@,
            !q@.inverted,
    {
        AssertQuery { results, invert: false }
    }

    /// The records, in the order in which the builder was given them.
    pub fn results(&self) -> (records: &Vec<T>)
        ensures
            records@ == self@.records,
    {
        &self.results
    }

    /// Whether the next assertion is negated.
    pub fn is_inverted(&self) -> (inverted: bool)
        ensures
            inverted == self@.inverted,
    {
        self.invert
    }

    /// Negates the assertion that follows, and only that one.
    pub fn not(self) -> (q: Self)
        ensures
            q@ == self@.negated(),
    {
        AssertQuery { results: self.results, invert: !self.invert }
    }

    /// Asserts that there are exactly `given` records.
    pub fn length(self, given: usize) -> (r: Result<Self, Failure<T>>)
        ensures
            r is Ok <==> self@.passes(self@.has_length(given as int)),
            r matches Ok(q) ==> q@ == self@.settled(),
            r matches Err(f) ==> self@.length_failure(given as int, f@),
    {
        let found: usize = self.results.len();
        if (found == given) != self.invert {
            Ok(AssertQuery { results: self.results, invert: false })
        } else if self.invert {
            Err(Failure::UnexpectedMatch { assertion: Unexpected::Length, matched: Shown::Count(given) })
        } else {
            Err(
                Failure::Mismatch {
                    kind: Mismatch::LengthDiffers,
                    given: Shown::Count(given),
                    found: Shown::Count(found),
                },
            )
        }
    }
}

impl<T> AssertQuery<T> {
    /// Asserts that the predicate holds on every record.
    pub fn all<F: Fn(&T) -> bool>(self, predicate: F) -> (r: Result<Self, Failure<T>>)
        requires
            callable_on(predicate, self@.records),
        ensures
            r matches Ok(q) ==> q@ == self@.settled() && self@.all_passed(predicate),
            r matches Err(f) ==> self@.all_failure(predicate, f@),
    {
        let mut results = self.results;
        match first_answer(&results, &predicate, false) {
            Some(k) => {
                if self.invert {
                    Ok(AssertQuery { results, invert: false })
                } else {
                    let failing = results.remove(k);
                    Err(
                        Failure::Mismatch {
                            kind: Mismatch::PredicateFailed,
                            given: Shown::Predicate,
                            found: Shown::Record(failing),
                        },
                    )
                }
            },
            None => {
                if self.invert {
                    Err(
                        Failure::UnexpectedMatch {
                            assertion: Unexpected::All,
                            matched: Shown::Records(results),
                        },
                    )
                } else {
                    Ok(AssertQuery { results, invert: false })
                }
            },
        }
    }

    /// Asserts that the predicate holds on at least one record.
    pub fn any<F: Fn(&T) -> bool>(self, predicate: F) -> (r: Result<Self, Failure<T>>)
        requires
            callable_on(predicate, self@.records),
        ensures
            r matches Ok(q) ==> q@ == self@.settled() && self@.any_passed(predicate),
            r matches Err(f) ==> self@.any_failure(predicate, f@),
    {
        let mut results = self.results;
        match first_answer(&results, &predicate, true) {
            Some(k) => {
                if self.invert {
                    let hit = results.remove(k);
                    Err(
                        Failure::UnexpectedMatch {
                            assertion: Unexpected::Any,
                            matched: Shown::First(hit),
                        },
                    )
                } else {
                    Ok(AssertQuery { results, invert: false })
                }
            },
            None => {
                if self.invert {
                    Ok(AssertQuery { results, invert: false })
                } else {
                    Err(
                        Failure::Mismatch {
                            kind: Mismatch::PredicateMatchedNone,
                            given: Shown::Predicate,
                            found: Shown::Nothing,
                        },
                    )
                }
            },
        }
    }
}

impl<T: PartialEq> AssertQuery<T> {
    /// Asserts that the given record is among the records.
    pub fn has(self, given: T) -> (r: Result<Self, Failure<T>>)
        ensures
            T::obeys_eq_spec() ==> (r is Ok <==> self@.passes(self@.contains(given))),
            r matches Ok(q) ==> q@ == self@.settled(),
            r matches Err(f) ==> self@.has_failure(given, f@),
    {
        let found = contains(&self.results, &given);
        if found != self.invert {
            Ok(AssertQuery { results: self.results, invert: false })
        } else if self.invert {
            Err(Failure::UnexpectedMatch { assertion: Unexpected::Has, matched: Shown::Record(given) })
        } else {
            Err(
                Failure::Mismatch {
                    kind: Mismatch::RecordNotFound,
                    given: Shown::Record(given),
                    found: Shown::Nothing,
                },
            )
        }
    }

    /// Asserts that every given record is among the records.
    pub fn has_all(self, given: Vec<T>) -> (r: Result<Self, Failure<T>>)
        ensures
            T::obeys_eq_spec() ==> (r is Ok <==> self@.passes(self@.contains_all(given@))),
            r matches Ok(q) ==> q@ == self@.settled(),
            T::obeys_eq_spec() ==> (r matches Err(f) ==> self@.has_all_failure(given@, f@)),
    {
        let ghost wanted = given@;
        let mut given = given;
        match first_with(&given, &self.results, false) {
            Some(k) => {
                if self.invert {
                    Ok(AssertQuery { results: self.results, invert: false })
                } else {
                    let missing = given.remove(k);
                    assert(T::obeys_eq_spec() ==> is_first_with(
                        wanted,
                        self@.records,
                        false,
                        k as int,
                    ));
                    Err(
                        Failure::Mismatch {
                            kind: Mismatch::RecordNotFound,
                            given: Shown::Record(missing),
                            found: Shown::Nothing,
                        },
                    )
                }
            },
            None => {
                if self.invert {
                    Err(
                        Failure::UnexpectedMatch {
                            assertion: Unexpected::HasAll,
                            matched: Shown::Records(given),
                        },
                    )
                } else {
                    Ok(AssertQuery { results: self.results, invert: false })
                }
            },
        }
    }

    /// Asserts that some record is among the given ones.
    pub fn has_any(self, given: Vec<T>) -> (r: Result<Self, Failure<T>>)
        ensures
            T::obeys_eq_spec() ==> (r is Ok <==> self@.passes(self@.contains_any(given@))),
            r matches Ok(q) ==> q@ == self@.settled(),
            T::obeys_eq_spec() ==> (r matches Err(f) ==> self@.has_any_failure(given@, f@)),
    {
        let mut results = self.results;
        match first_with(&results, &given, true) {
            Some(k) => {
                if self.invert {
                    let hit = results.remove(k);
                    Err(
                        Failure::UnexpectedMatch {
                            assertion: Unexpected::HasAny,
                            matched: Shown::First(hit),
                        },
                    )
                } else {
                    Ok(AssertQuery { results, invert: false })
                }
            },
            None => {
                if self.invert {
                    Ok(AssertQuery { results, invert: false })
                } else {
                    Err(
                        Failure::Mismatch {
                            kind: Mismatch::NoneFound,
                            given: Shown::Records(given),
                            found: Shown::Nothing,
                        },
                    )
                }
            },
        }
    }

    /// Asserts that the records are the given ones, in any order.
    pub fn matches(self, given: Vec<T>) -> (r: Result<Self, Failure<T>>)
        ensures
            T::obeys_eq_spec() ==> (r is Ok <==> self@.passes(self@.agrees_with(given@))),
            r matches Ok(q) ==> q@ == self@.settled(),
            T::obeys_eq_spec() ==> (r matches Err(f) ==> self@.matches_failure(given@, f@)),
    {
        let mut results = self.results;
        let mut given = given;
        match first_with(&results, &given, false) {
            Some(k) => {
                if self.invert {
                    return Ok(AssertQuery { results, invert: false });
                }
                let stray = results.remove(k);
                return Err(
                    Failure::Mismatch {
                        kind: Mismatch::UnexpectedRecord,
                        given: Shown::Nothing,
                        found: Shown::Record(stray),
                    },
                );
            },
            None => {},
        }
        match first_with(&given, &results, false) {
            Some(k) => {
                if self.invert {
                    return Ok(AssertQuery { results, invert: false });
                }
                let missing = given.remove(k);
                return Err(
                    Failure::Mismatch {
                        kind: Mismatch::MissingRecord,
                        given: Shown::Record(missing),
                        found: Shown::Nothing,
                    },
                );
            },
            None => {},
        }
        if given.len() != results.len() {
            if self.invert {
                return Ok(AssertQuery { results, invert: false });
            }
            return Err(
                Failure::Mismatch {
                    kind: Mismatch::LengthsDiffer,
                    given: Shown::Count(given.len()),
                    found: Shown::Count(results.len()),
                },
            );
        }
        if self.invert {
            Err(Failure::UnexpectedMatch { assertion: Unexpected::Matches, matched: Shown::Records(given) })
        } else {
            Ok(AssertQuery { results, invert: false })
        }
    }
}

} // verus!
