//! What holds of the assertions taken together.
//!
//! The laws are stated over [`Snapshot`], the model in which every assertion's
//! contract is written, so each of them carries over to the builder itself.

use crate::failure::FailureView;
use crate::failure::Mismatch;
use crate::failure::ShownView;
use crate::failure::Unexpected;
use crate::query::Snapshot;
use crate::search::all_occur_in;
use crate::search::answers_all;
use crate::search::is_first_answer;
use crate::search::occurs_in;
use vstd::laws_eq::obeys_concrete_eq;
use vstd::prelude::*;
use vstd::std_specs::cmp::PartialEqSpec;

verus! {

/// The snapshot of a builder on which `not` was not called.
pub open spec fn fresh<T>(records: Seq<T>) -> Snapshot<T> {
    Snapshot { records, inverted: false }
}

/// Some record occurs more often in the one list than in the other.
pub open spec fn counts_differ<T>(a: Seq<T>, b: Seq<T>) -> bool {
    exists|x: T| a.to_multiset().count(x) != b.to_multiset().count(x)
}

/// The two lists hold the same records and are equally long, and still some
/// record occurs more often in the one than in the other. `matches` looks each
/// record up and compares the lengths, so it cannot tell such lists apart.
pub open spec fn differ_only_in_repeats<T: PartialEq>(results: Seq<T>, expected: Seq<T>) -> bool {
    fresh(results).agrees_with(expected) && counts_differ(results, expected)
}

proof fn lemma_occurs_in_same_multiset<T: PartialEq>(x: T, a: Seq<T>, b: Seq<T>)
    requires
        a.to_multiset() == b.to_multiset(),
        occurs_in(x, a),
    ensures
        occurs_in(x, b),
{
    a.to_multiset_ensures();
    b.to_multiset_ensures();
    let i = choose|i: int| 0 <= i < a.len() && #[trigger] a[i].eq_spec(&x);
    assert(a.contains(a[i]));
    assert(a.to_multiset().count(a[i]) > 0);
    assert(b.to_multiset().count(a[i]) > 0);
    let j = choose|j: int| 0 <= j < b.len() && b[j] == a[i];
    assert(b[j].eq_spec(&x));
}

proof fn lemma_all_occur_in_same_multisets<T: PartialEq>(
    items: Seq<T>,
    pool: Seq<T>,
    items2: Seq<T>,
    pool2: Seq<T>,
)
    requires
        items.to_multiset() == items2.to_multiset(),
        pool.to_multiset() == pool2.to_multiset(),
        all_occur_in(items, pool),
    ensures
        all_occur_in(items2, pool2),
{
    items.to_multiset_ensures();
    items2.to_multiset_ensures();
    assert forall|k: int| 0 <= k < items2.len() implies occurs_in(#[trigger] items2[k], pool2) by {
        assert(items2.contains(items2[k]));
        assert(items2.to_multiset().count(items2[k]) > 0);
        assert(items.to_multiset().count(items2[k]) > 0);
        let i = choose|i: int| 0 <= i < items.len() && items[i] == items2[k];
        assert(occurs_in(items[i], pool));
        lemma_occurs_in_same_multiset(items2[k], pool, pool2);
    }
}

/// The order of the records does not matter to `matches`, neither that of the
/// query's records nor that of the given ones: lists that are the same
/// multisets give the same verdict.
pub proof fn lemma_matches_ignores_order<T: PartialEq>(
    results: Seq<T>,
    expected: Seq<T>,
    results2: Seq<T>,
    expected2: Seq<T>,
)
    requires
        results.to_multiset() == results2.to_multiset(),
        expected.to_multiset() == expected2.to_multiset(),
    ensures
        fresh(results).agrees_with(expected) == fresh(results2).agrees_with(expected2),
{
    results.to_multiset_ensures();
    results2.to_multiset_ensures();
    expected.to_multiset_ensures();
    expected2.to_multiset_ensures();
    if fresh(results).agrees_with(expected) {
        lemma_all_occur_in_same_multisets(results, expected, results2, expected2);
        lemma_all_occur_in_same_multisets(expected, results, expected2, results2);
    }
    if fresh(results2).agrees_with(expected2) {
        lemma_all_occur_in_same_multisets(results2, expected2, results, expected);
        lemma_all_occur_in_same_multisets(expected2, results2, expected, results);
    }
}

/// Where equality on `T` is the equality of values, `matches` passes on every
/// list that is the same multiset as the query's records.
pub proof fn lemma_equal_multisets_match<T: PartialEq>(results: Seq<T>, expected: Seq<T>)
    requires
        obeys_concrete_eq::<T>(),
        results.to_multiset() == expected.to_multiset(),
    ensures
        fresh(results).agrees_with(expected),
{
    reveal(obeys_concrete_eq);
    results.to_multiset_ensures();
    assert forall|k: int| 0 <= k < results.len() implies occurs_in(
        #[trigger] results[k],
        results,
    ) by {
        assert(results[k].eq_spec(&results[k]));
    }
    assert(fresh(results).agrees_with(results));
    lemma_matches_ignores_order(results, results, results, expected);
}

/// Where equality on `T` is the equality of values, `matches` passes if and
/// only if the query's records and the given ones are the same multiset: the
/// same records, each as often in the one as in the other. This holds of all
/// lists but those that differ only in how often a record is repeated.
pub proof fn lemma_matches_iff_equal_multisets<T: PartialEq>(results: Seq<T>, expected: Seq<T>)
    requires
        obeys_concrete_eq::<T>(),
        !differ_only_in_repeats(results, expected),
    ensures
        fresh(results).agrees_with(expected) <==> results.to_multiset() == expected.to_multiset(),
{
    if results.to_multiset() == expected.to_multiset() {
        lemma_equal_multisets_match(results, expected);
    }
    if fresh(results).agrees_with(expected) {
        assert(!counts_differ(results, expected));
        assert(results.to_multiset() =~= expected.to_multiset());
    }
}

/// Lists of which one repeats no record never differ only in repeats: on
/// them `matches` passes exactly when they are the same multiset.
pub proof fn lemma_without_repeats_matches_is_exact<T: PartialEq>(
    results: Seq<T>,
    expected: Seq<T>,
)
    requires
        obeys_concrete_eq::<T>(),
        results.no_duplicates() || expected.no_duplicates(),
    ensures
        !differ_only_in_repeats(results, expected),
{
    reveal(obeys_concrete_eq);
    if fresh(results).agrees_with(expected) {
        results.to_multiset_ensures();
        expected.to_multiset_ensures();
        assert forall|x: T| results.contains(x) <==> expected.contains(x) by {
            if results.contains(x) {
                let i = choose|i: int| 0 <= i < results.len() && results[i] == x;
                assert(occurs_in(results[i], expected));
            }
            if expected.contains(x) {
                let i = choose|i: int| 0 <= i < expected.len() && expected[i] == x;
                assert(occurs_in(expected[i], results));
            }
        }
        assert(results.to_set() =~= expected.to_set());
        if results.no_duplicates() {
            results.unique_seq_to_set();
            expected.lemma_no_dup_set_cardinality();
        } else {
            expected.unique_seq_to_set();
            results.lemma_no_dup_set_cardinality();
        }
        results.lemma_multiset_has_no_duplicates();
        expected.lemma_multiset_has_no_duplicates();
        assert forall|x: T|
            results.to_multiset().count(x) == expected.to_multiset().count(x) by {
            if results.contains(x) {
                assert(results.to_multiset().contains(x));
                assert(expected.to_multiset().contains(x));
            }
        }
    }
}

/// `not` twice is no `not` at all.
pub proof fn lemma_not_twice_is_identity<T>(state: Snapshot<T>)
    ensures
        state.negated().negated() == state,
{
}

/// `not` turns the verdict of the assertion that follows around, whatever
/// its condition: `not().length(n)` passes exactly when `length(n)` does not.
pub proof fn lemma_not_flips_verdict<T>(state: Snapshot<T>, holds: bool)
    ensures
        state.negated().passes(holds) == !state.passes(holds),
        fresh(state.records).passes(holds) == holds,
        fresh(state.records).negated().passes(holds) == !holds,
{
}

/// An assertion leaves no negation behind: after it, a single `not` negates
/// the next assertion, whether or not the one before was negated.
pub proof fn lemma_negation_is_spent<T>(state: Snapshot<T>)
    ensures
        !state.settled().inverted,
        state.settled().records == state.records,
        state.negated().settled() == state.settled(),
        state.negated().settled().negated() == fresh(state.records).negated(),
{
}

/// `has(x)` and `has_all` of the one-record list `[x]` have the same condition.
pub proof fn lemma_has_is_has_all_of_one<T: PartialEq>(state: Snapshot<T>, x: T)
    ensures
        state.contains(x) == state.contains_all(seq![x]),
{
    let one = seq![x];
    assert(one[0] == x);
    if state.contains(x) {
        assert forall|k: int| 0 <= k < one.len() implies occurs_in(#[trigger] one[k], state.records) by {
            assert(one[k] == x);
        }
    }
    if state.contains_all(one) {
        assert(occurs_in(one[0], state.records));
    }
}

/// `holds` says for every record what `predicate` answers on it.
pub open spec fn decides<T, F: Fn(&T) -> bool>(predicate: F, holds: spec_fn(T) -> bool) -> bool {
    forall|x: T, answer: bool| #[trigger]
        call_ensures(predicate, (&x,), answer) ==> answer == holds(x)
}

/// `holds` is true of every record.
pub open spec fn holds_on_all<T>(records: Seq<T>, holds: spec_fn(T) -> bool) -> bool {
    forall|i: int| 0 <= i < records.len() ==> holds(#[trigger] records[i])
}

/// `holds` is true of some record.
pub open spec fn holds_on_some<T>(records: Seq<T>, holds: spec_fn(T) -> bool) -> bool {
    exists|i: int| 0 <= i < records.len() && holds(#[trigger] records[i])
}

/// With a predicate whose answers are decided by `holds`, `all` passes if and
/// only if `holds` is true of every record or, negated, not of every record;
/// and the record it reports is the first of which `holds` is false.
pub proof fn lemma_all_is_exact<T, F: Fn(&T) -> bool>(
    state: Snapshot<T>,
    predicate: F,
    holds: spec_fn(T) -> bool,
)
    requires
        decides(predicate, holds),
    ensures
        state.all_passed(predicate) ==> state.passes(holds_on_all(state.records, holds)),
        forall|failure: FailureView<T>| #[trigger]
            state.all_failure(predicate, failure) ==> !state.passes(
                holds_on_all(state.records, holds),
            ),
{
    if state.all_passed(predicate) {
        if state.inverted {
            let k = choose|k: int| is_first_answer(predicate, state.records, false, k);
            assert(!holds(state.records[k]));
        } else {
            assert forall|i: int| 0 <= i < state.records.len() implies holds(
                #[trigger] state.records[i],
            ) by {
                assert(call_ensures(predicate, (&state.records[i],), true));
            }
        }
    }
    assert forall|failure: FailureView<T>| #[trigger]
        state.all_failure(predicate, failure) implies !state.passes(
        holds_on_all(state.records, holds),
    ) by {
        if state.inverted {
            assert forall|i: int| 0 <= i < state.records.len() implies holds(
                #[trigger] state.records[i],
            ) by {
                assert(call_ensures(predicate, (&state.records[i],), true));
            }
        } else {
            let k = choose|k: int| #[trigger]
                is_first_answer(predicate, state.records, false, k) && failure == (
                FailureView::Mismatch {
                    kind: Mismatch::PredicateFailed,
                    given: ShownView::Predicate,
                    found: ShownView::Record(state.records[k]),
                });
            assert(!holds(state.records[k]));
        }
    }
}

/// With a predicate whose answers are decided by `holds`, `any` passes if and
/// only if `holds` is true of some record or, negated, of none.
pub proof fn lemma_any_is_exact<T, F: Fn(&T) -> bool>(
    state: Snapshot<T>,
    predicate: F,
    holds: spec_fn(T) -> bool,
)
    requires
        decides(predicate, holds),
    ensures
        state.any_passed(predicate) ==> state.passes(holds_on_some(state.records, holds)),
        forall|failure: FailureView<T>| #[trigger]
            state.any_failure(predicate, failure) ==> !state.passes(
                holds_on_some(state.records, holds),
            ),
{
    if state.any_passed(predicate) {
        if state.inverted {
            assert forall|i: int| 0 <= i < state.records.len() implies !holds(
                #[trigger] state.records[i],
            ) by {
                assert(call_ensures(predicate, (&state.records[i],), false));
            }
        } else {
            let k = choose|k: int| is_first_answer(predicate, state.records, true, k);
            assert(holds(state.records[k]));
        }
    }
    assert forall|failure: FailureView<T>| #[trigger]
        state.any_failure(predicate, failure) implies !state.passes(
        holds_on_some(state.records, holds),
    ) by {
        if state.inverted {
            let k = choose|k: int| #[trigger]
                is_first_answer(predicate, state.records, true, k) && failure == (
                FailureView::UnexpectedMatch {
                    assertion: Unexpected::Any,
                    matched: ShownView::First(state.records[k]),
                });
            assert(holds(state.records[k]));
        } else {
            assert forall|i: int| 0 <= i < state.records.len() implies !holds(
                #[trigger] state.records[i],
            ) by {
                assert(call_ensures(predicate, (&state.records[i],), false));
            }
        }
    }
}

/// On no records at all, `all` passes and `any` fails, whatever the predicate.
pub proof fn lemma_no_records<T, F: Fn(&T) -> bool>(predicate: F)
    ensures
        fresh(Seq::<T>::empty()).all_passed(predicate),
        forall|failure: FailureView<T>|
            !#[trigger] fresh(Seq::<T>::empty()).all_failure(predicate, failure),
        !fresh(Seq::<T>::empty()).any_passed(predicate),
{
}

} // verus!
