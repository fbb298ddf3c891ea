//! The order of two samples, as the sample type defines it.
//!
//! The search for the smallest or the largest sample asks one question of
//! two samples: does the first beat the second? Where the largest sample is
//! sought, the greater one beats the other; where the smallest is, the
//! smaller one does.

use vstd::prelude::*;
use vstd::std_specs::cmp::PartialOrdSpec;
use core::cmp::Ordering;

verus! {

/// Whether the sample type keeps to the specification of its order, so that
/// the comparison of two samples has one outcome.
pub open spec fn order_specified<T: PartialOrd>() -> bool {
    T::obeys_partial_cmp_spec()
}

/// Whether the order of `a` and `b` is defined.
pub open spec fn comparable<T: PartialOrd>(a: T, b: T) -> bool {
    a.partial_cmp_spec(&b) is Some
}

/// Whether `a` is less than `b`.
pub open spec fn less<T: PartialOrd>(a: T, b: T) -> bool {
    a.partial_cmp_spec(&b) == Some(Ordering::Less)
}

/// Whether `a` is greater than `b`.
pub open spec fn greater<T: PartialOrd>(a: T, b: T) -> bool {
    a.partial_cmp_spec(&b) == Some(Ordering::Greater)
}

/// Whether `a` beats `b`.
pub open spec fn beats<T: PartialOrd>(a: T, b: T, largest: bool) -> bool {
    if largest {
        greater(a, b)
    } else {
        less(a, b)
    }
}

/// The answer that an outcome of the comparison of two samples gives to
/// "does the first beat the second?"; none where their order is undefined.
pub open spec fn answer(outcome: Option<Ordering>, largest: bool) -> Option<bool> {
    match outcome {
        Some(Ordering::Less) => Some(!largest),
        Some(Ordering::Equal) => Some(false),
        Some(Ordering::Greater) => Some(largest),
        None => None,
    }
}

/// The answer to "does `a` beat `b`?"; none where their order is undefined.
pub open spec fn decided<T: PartialOrd>(a: T, b: T, largest: bool) -> Option<bool> {
    if comparable(a, b) {
        Some(beats(a, b, largest))
    } else {
        None
    }
}

/// Whether `verdict` is an answer that the comparison of `a` and `b` by the
/// sample type may give to "does `a` beat `b`?".
pub open spec fn may_decide<T: PartialOrd>(
    a: T,
    b: T,
    largest: bool,
    verdict: Option<bool>,
) -> bool {
    exists|outcome: Option<Ordering>| #[trigger]
        call_ensures(T::partial_cmp, (&a, &b), outcome) && verdict == answer(outcome, largest)
}

/// A sample type that keeps to the specification of its order gives one
/// answer.
pub proof fn lemma_one_answer<T: PartialOrd>(a: T, b: T, largest: bool, verdict: Option<bool>)
    requires
        order_specified::<T>(),
        may_decide(a, b, largest, verdict),
    ensures
        verdict == decided(a, b, largest),
{
}

/// Whether `a` beats `b`, by one comparison of the two; nothing where their
/// order is undefined.
pub(crate) fn decide<T: PartialOrd>(a: &T, b: &T, largest: bool) -> (r: Option<bool>)
    ensures
        may_decide(*a, *b, largest, r),
        order_specified::<T>() ==> r == decided(*a, *b, largest),
{
    let outcome = a.partial_cmp(b);
    assert(call_ensures(T::partial_cmp, (a, b), outcome));
    match outcome {
        Some(Ordering::Less) => Some(!largest),
        Some(Ordering::Equal) => Some(false),
        Some(Ordering::Greater) => Some(largest),
        None => None,
    }
}

} // verus!
