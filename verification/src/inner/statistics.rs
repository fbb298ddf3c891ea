//! The smallest and the largest sample of a signal, and where they stand.
//!
//! The samples' own order decides. A search fails where the signal is empty,
//! and where the order of two samples that it compares is undefined. A
//! contract here says which results the search may return, whatever the
//! sample type, and which one it returns for the sample types that keep to
//! the specification of their order.

use vstd::prelude::*;
use vstd::std_specs::ops::SubSpec;
use core::ops::Sub;
use crate::inner::MinMaxError;
use crate::inner::base::SignalBase;
use crate::inner::laws::lemma_search_finds_one;
use crate::inner::model::{
    best_position, best_sample, can_subtract, may_be_best_position, may_be_best_sample,
    may_be_range, may_be_span, may_find, may_find_next, next_best, sample_range, sample_span,
};
use crate::inner::order::{decide, order_specified};

verus! {

/// A search that may have failed may have failed for good.
proof fn lemma_search_stays_failed<T: PartialOrd>(s: Seq<T>, seen: nat, later: nat, largest: bool)
    requires
        seen <= later,
        may_find(s, seen, largest, None),
    ensures
        may_find(s, later, largest, None),
    decreases later,
{
    if seen < later {
        lemma_search_stays_failed(s, seen, (later - 1) as nat, largest);
        assert(may_find_next(s, later - 1, largest, None, None));
    }
}

/// The position of the best sample of `samples`: of the largest one, or of
/// the smallest.
fn find_best<T: Copy + PartialOrd>(samples: &Vec<T>, largest: bool) -> (r: Result<
    usize,
    MinMaxError,
>)
    ensures
        may_be_best_position(samples@, largest, r),
        order_specified::<T>() ==> r == best_position(samples@, largest),
{
    let n: usize = samples.len();
    if n == 0 {
        return Err(MinMaxError::EmptyInput);
    }
    let mut best: usize = 0;
    let mut k: usize = 0;
    while k < n
        invariant
            n == samples@.len(),
            k <= n,
            best < n,
            may_find(samples@, k as nat, largest, Some(best as int)),
        decreases n - k,
    {
        let verdict = decide(&samples[k], &samples[best], largest);
        proof {
            let seen = (k + 1) as nat;
            let found = next_best(best as int, seen - 1, verdict);
            assert(may_find(samples@, (seen - 1) as nat, largest, Some(best as int)));
            assert(may_find_next(samples@, seen - 1, largest, Some(best as int), found));
            assert(may_find(samples@, seen, largest, found));
        }
        match verdict {
            None => {
                proof {
                    lemma_search_stays_failed(samples@, (k + 1) as nat, n as nat, largest);
                    if order_specified::<T>() {
                        lemma_search_finds_one(samples@, n as nat, largest, None);
                    }
                }
                return Err(MinMaxError::UndefinedOrder);
            },
            Some(better) => {
                if better {
                    best = k;
                }
            },
        }
        k += 1;
    }
    proof {
        if order_specified::<T>() {
            lemma_search_finds_one(samples@, n as nat, largest, Some(best as int));
        }
    }
    Ok(best)
}

impl<T: Copy + PartialOrd> SignalBase<T> {
    /// The position of the smallest sample; of the first one, where several
    /// are the smallest. Fails on an empty signal, and where the order of
    /// two samples that the search compares is undefined.
    pub fn argmin(&self) -> (r: Result<usize, MinMaxError>)
        ensures
            may_be_best_position(self@, false, r),
            order_specified::<T>() ==> r == best_position(self@, false),
    {
        find_best(self.samples(), false)
    }

    /// The position of the largest sample; of the first one, where several
    /// are the largest. Fails as `argmin` does.
    pub fn argmax(&self) -> (r: Result<usize, MinMaxError>)
        ensures
            may_be_best_position(self@, true, r),
            order_specified::<T>() ==> r == best_position(self@, true),
    {
        find_best(self.samples(), true)
    }

    /// The smallest sample. Fails as `argmin` does.
    pub fn min(&self) -> (r: Result<T, MinMaxError>)
        ensures
            may_be_best_sample(self@, false, r),
            order_specified::<T>() ==> r == best_sample(self@, false),
    {
        match find_best(self.samples(), false) {
            Ok(i) => {
                assert(may_be_best_position(self@, false, Ok(i)));
                Ok(self.samples()[i])
            },
            Err(failure) => Err(failure),
        }
    }

    /// The largest sample. Fails as `argmax` does.
    pub fn max(&self) -> (r: Result<T, MinMaxError>)
        ensures
            may_be_best_sample(self@, true, r),
            order_specified::<T>() ==> r == best_sample(self@, true),
    {
        match find_best(self.samples(), true) {
            Ok(i) => {
                assert(may_be_best_position(self@, true, Ok(i)));
                Ok(self.samples()[i])
            },
            Err(failure) => Err(failure),
        }
    }

    /// The smallest and the largest sample, in this order. Fails where the
    /// search for either fails.
    pub fn range(&self) -> (r: Result<(T, T), MinMaxError>)
        ensures
            may_be_range(self@, r),
            order_specified::<T>() ==> r == sample_range(self@),
    {
        let smallest: T = match self.min() {
            Ok(sample) => sample,
            Err(failure) => { return Err(failure); },
        };
        let largest: T = match self.max() {
            Ok(sample) => sample,
            Err(failure) => { return Err(failure); },
        };
        Ok((smallest, largest))
    }
}

impl<T: Copy + PartialOrd + Sub<Output = T>> SignalBase<T> {
    /// The largest sample less the smallest. Fails where the search for
    /// either fails.
    pub fn p2p(&self) -> (r: Result<T, MinMaxError>)
        requires
            order_specified::<T>() ==> (sample_range(self@) matches Ok((smallest, largest))
                ==> can_subtract(largest, smallest)),
            !order_specified::<T>() ==> forall|i: int, j: int|
                0 <= i < self@.len() && 0 <= j < self@.len() ==> can_subtract(
                    #[trigger] self@[i],
                    #[trigger] self@[j],
                ),
        ensures
            may_be_span(self@, r),
            order_specified::<T>() && T::obeys_sub_spec() ==> r == sample_span(self@),
    {
        match self.range() {
            Ok((smallest, largest)) => {
                assert(may_be_range(self@, Ok((smallest, largest))));
                Ok(largest - smallest)
            },
            Err(failure) => Err(failure),
        }
    }
}

} // verus!
