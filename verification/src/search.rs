//! Looking records up by equality, and the specification of what is found.

use vstd::prelude::*;
use vstd::std_specs::cmp::PartialEqSpec;

verus! {

/// Some record of `pool` is equal to `x`.
pub open spec fn occurs_in<T: PartialEq>(x: T, pool: Seq<T>) -> bool {
    exists|i: int| 0 <= i < pool.len() && #[trigger] pool[i].eq_spec(&x)
}

/// Every record of `items` occurs in `pool`.
pub open spec fn all_occur_in<T: PartialEq>(items: Seq<T>, pool: Seq<T>) -> bool {
    forall|k: int| 0 <= k < items.len() ==> occurs_in(#[trigger] items[k], pool)
}

/// At least one record of `items` occurs in `pool`.
pub open spec fn some_occurs_in<T: PartialEq>(items: Seq<T>, pool: Seq<T>) -> bool {
    exists|k: int| 0 <= k < items.len() && occurs_in(#[trigger] items[k], pool)
}

/// `k` is the place of the first record of `items` whose presence in `pool` is `present`.
pub open spec fn is_first_with<T: PartialEq>(
    items: Seq<T>,
    pool: Seq<T>,
    present: bool,
    k: int,
) -> bool {
    &&& 0 <= k < items.len()
    &&& occurs_in(items[k], pool) == present
    &&& forall|j: int| 0 <= j < k ==> occurs_in(#[trigger] items[j], pool) != present
}

/// No record of `items` has the presence `present` in `pool`.
pub open spec fn none_with<T: PartialEq>(items: Seq<T>, pool: Seq<T>, present: bool) -> bool {
    forall|j: int| 0 <= j < items.len() ==> occurs_in(#[trigger] items[j], pool) != present
}

/// Whether some record of `pool` equals `x`.
pub fn contains<T: PartialEq>(pool: &Vec<T>, x: &T) -> (found: bool)
    ensures
        T::obeys_eq_spec() ==> found == occurs_in(*x, pool@),
{
    let mut i: usize = 0;
    while i < pool.len()
        invariant
            i <= pool.len(),
            T::obeys_eq_spec() ==> forall|j: int| 0 <= j < i ==> !(#[trigger] pool@[j]).eq_spec(x),
        decreases pool.len() - i,
    {
        if pool[i] == *x {
            return true;
        }
        i += 1;
    }
    false
}

/// The place of the first record of `items` whose presence in `pool` is `present`, if there is one.
pub fn first_with<T: PartialEq>(items: &Vec<T>, pool: &Vec<T>, present: bool) -> (place: Option<usize>)
    ensures
        T::obeys_eq_spec() ==> match place {
            Some(k) => is_first_with(items@, pool@, present, k as int),
            None => none_with(items@, pool@, present),
        },
        place matches Some(k) ==> k < items.len(),
{
    let mut k: usize = 0;
    while k < items.len()
        invariant
            k <= items.len(),
            T::obeys_eq_spec() ==> forall|j: int|
                0 <= j < k ==> occurs_in(#[trigger] items@[j], pool@) != present,
        decreases items.len() - k,
    {
        if contains(pool, &items[k]) == present {
            return Some(k);
        }
        k += 1;
    }
    None
}

/// `k` is the first place in `records` at which `predicate` answers `answer`:
/// it answers so there, and the opposite at every place before.
pub open spec fn is_first_answer<T, F: Fn(&T) -> bool>(
    predicate: F,
    records: Seq<T>,
    answer: bool,
    k: int,
) -> bool {
    &&& 0 <= k < records.len()
    &&& call_ensures(predicate, (&records[k],), answer)
    &&& forall|j: int| 0 <= j < k ==> call_ensures(predicate, (&#[trigger] records[j],), !answer)
}

/// `predicate` answers `answer` on every record.
pub open spec fn answers_all<T, F: Fn(&T) -> bool>(
    predicate: F,
    records: Seq<T>,
    answer: bool,
) -> bool {
    forall|j: int|
        0 <= j < records.len() ==> call_ensures(predicate, (&#[trigger] records[j],), answer)
}

/// `predicate` may be called on every record.
pub open spec fn callable_on<T, F: Fn(&T) -> bool>(predicate: F, records: Seq<T>) -> bool {
    forall|j: int| 0 <= j < records.len() ==> call_requires(predicate, (&#[trigger] records[j],))
}

/// The first place at which `predicate` answers `answer`, if there is one.
/// The predicate is called on the records in order, and not beyond that place.
pub fn first_answer<T, F: Fn(&T) -> bool>(records: &Vec<T>, predicate: &F, answer: bool) -> (place:
    Option<usize>)
    requires
        callable_on(*predicate, records@),
    ensures
        match place {
            Some(k) => is_first_answer(*predicate, records@, answer, k as int),
            None => answers_all(*predicate, records@, !answer),
        },
{
    let mut k: usize = 0;
    while k < records.len()
        invariant
            k <= records.len(),
            callable_on(*predicate, records@),
            forall|j: int|
                0 <= j < k ==> call_ensures(*predicate, (&#[trigger] records@[j],), !answer),
        decreases records.len() - k,
    {
        if predicate(&records[k]) == answer {
            return Some(k);
        }
        k += 1;
    }
    None
}

} // verus!
