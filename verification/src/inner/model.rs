//! The mathematical model of the container's operations: what each of them
//! returns, as a function on sequences.

use vstd::prelude::*;
use vstd::std_specs::ops::{AddSpec, DivSpec, MulSpec, SubSpec};
use core::ops::{Add, Div, Mul, Sub};
use crate::inner::MinMaxError;
use crate::inner::base::PadSide;
use crate::inner::order::{beats, comparable, decided, may_decide};

verus! {

// Logical indices.

/// Whether `idx` is a logical index of a sequence of `len` samples: the
/// positions `0..len`, and `-len..0` counted back from the end.
pub open spec fn is_logical_index(len: nat, idx: int) -> bool {
    -(len as int) <= idx < len
}

/// The physical position that the logical index `idx` stands for.
pub open spec fn physical_position(len: nat, idx: int) -> int {
    if idx < 0 {
        len + idx
    } else {
        idx
    }
}

// Windows.

/// The number of windows of `size` samples in a sequence of `len` samples.
pub open spec fn window_count(len: nat, size: nat) -> nat {
    if size <= len {
        (len - size + 1) as nat
    } else {
        0
    }
}

// Padding.

/// `width` copies of `value`.
pub open spec fn constant_run<T>(value: T, width: nat) -> Seq<T> {
    Seq::new(width, |i: int| value)
}

/// The number of samples that padding by `width` adds in front.
pub open spec fn left_width(side: PadSide, width: nat) -> nat {
    match side {
        PadSide::Left => width,
        PadSide::Right => 0,
        PadSide::Both => width,
    }
}

/// The number of samples that padding by `width` adds behind.
pub open spec fn right_width(side: PadSide, width: nat) -> nat {
    match side {
        PadSide::Left => 0,
        PadSide::Right => width,
        PadSide::Both => width,
    }
}

/// The length of a sequence of `len` samples after padding by `width`.
pub open spec fn padded_len(len: nat, side: PadSide, width: nat) -> nat {
    left_width(side, width) + len + right_width(side, width)
}

/// `s` with `width` copies of `value` on the chosen side or sides.
pub open spec fn padded_with_constant<T>(s: Seq<T>, side: PadSide, value: T, width: nat) -> Seq<T> {
    constant_run(value, left_width(side, width)) + s + constant_run(value, right_width(side, width))
}

/// The sample at position `j` of the endless repetition of `s`, where `j` may
/// be negative: position 0 is the first sample of `s`.
pub open spec fn periodic_sample<T>(s: Seq<T>, j: int) -> T
    recommends
        s.len() > 0,
{
    s[j % (s.len() as int)]
}

/// `s` continued periodically by `width` samples on the chosen side or sides:
/// the stretch of its endless repetition that starts `left_width` samples
/// before `s` and ends `right_width` samples behind it.
pub open spec fn padded_periodically<T>(s: Seq<T>, side: PadSide, width: nat) -> Seq<T>
    recommends
        s.len() > 0,
{
    Seq::new(
        padded_len(s.len(), side, width),
        |j: int| periodic_sample(s, j - left_width(side, width)),
    )
}

/// `count` copies of `s`, one after the other.
pub open spec fn tiled<T>(s: Seq<T>, count: nat) -> Seq<T>
    decreases count,
{
    if count == 0 {
        Seq::empty()
    } else {
        tiled(s, (count - 1) as nat) + s
    }
}

// Arithmetic: what the sample type's operators accept and return, and the
// results for the sample types that keep to the specification of their
// operators.

/// Whether the sample type can add `y` to `x`.
pub open spec fn can_add<T: Add<Output = T>>(x: T, y: T) -> bool {
    call_requires(<T as Add>::add, (x, y))
}

/// Whether `z` is what the sample type gives for `x + y`.
pub open spec fn is_sum<T: Add<Output = T>>(x: T, y: T, z: T) -> bool {
    call_ensures(<T as Add>::add, (x, y), z)
}

/// Whether the sample type can subtract `y` from `x`.
pub open spec fn can_subtract<T: Sub<Output = T>>(x: T, y: T) -> bool {
    call_requires(<T as Sub>::sub, (x, y))
}

/// Whether `z` is what the sample type gives for `x - y`.
pub open spec fn is_difference<T: Sub<Output = T>>(x: T, y: T, z: T) -> bool {
    call_ensures(<T as Sub>::sub, (x, y), z)
}

/// Whether the sample type can multiply `x` by `y`.
pub open spec fn can_multiply<T: Mul<Output = T>>(x: T, y: T) -> bool {
    call_requires(<T as Mul>::mul, (x, y))
}

/// Whether `z` is what the sample type gives for `x * y`.
pub open spec fn is_product<T: Mul<Output = T>>(x: T, y: T, z: T) -> bool {
    call_ensures(<T as Mul>::mul, (x, y), z)
}

/// Whether the sample type can divide `x` by `y`.
pub open spec fn can_divide<T: Div<Output = T>>(x: T, y: T) -> bool {
    call_requires(<T as Div>::div, (x, y))
}

/// Whether `z` is what the sample type gives for `x / y`.
pub open spec fn is_quotient<T: Div<Output = T>>(x: T, y: T, z: T) -> bool {
    call_ensures(<T as Div>::div, (x, y), z)
}

/// The sums of the samples of `a` and `b` that stand at the same position.
pub open spec fn elementwise_sum<T: Add<Output = T>>(a: Seq<T>, b: Seq<T>) -> Seq<T>
    recommends
        a.len() == b.len(),
{
    Seq::new(a.len(), |i: int| a[i].add_spec(b[i]))
}

/// The samples of `a`, each less the sample of `b` at the same position.
pub open spec fn elementwise_difference<T: Sub<Output = T>>(a: Seq<T>, b: Seq<T>) -> Seq<T>
    recommends
        a.len() == b.len(),
{
    Seq::new(a.len(), |i: int| a[i].sub_spec(b[i]))
}

/// The products of the samples of `a` and `b` that stand at the same position.
pub open spec fn elementwise_product<T: Mul<Output = T>>(a: Seq<T>, b: Seq<T>) -> Seq<T>
    recommends
        a.len() == b.len(),
{
    Seq::new(a.len(), |i: int| a[i].mul_spec(b[i]))
}

/// The samples of `a`, each divided by the sample of `b` at the same position.
pub open spec fn elementwise_quotient<T: Div<Output = T>>(a: Seq<T>, b: Seq<T>) -> Seq<T>
    recommends
        a.len() == b.len(),
{
    Seq::new(a.len(), |i: int| a[i].div_spec(b[i]))
}

/// The samples of `a`, each with `scalar` added.
pub open spec fn scalar_sum<T: Add<Output = T>>(a: Seq<T>, scalar: T) -> Seq<T> {
    Seq::new(a.len(), |i: int| a[i].add_spec(scalar))
}

/// The samples of `a`, each less `scalar`.
pub open spec fn scalar_difference<T: Sub<Output = T>>(a: Seq<T>, scalar: T) -> Seq<T> {
    Seq::new(a.len(), |i: int| a[i].sub_spec(scalar))
}

/// The samples of `a`, each multiplied by `scalar`.
pub open spec fn scalar_product<T: Mul<Output = T>>(a: Seq<T>, scalar: T) -> Seq<T> {
    Seq::new(a.len(), |i: int| a[i].mul_spec(scalar))
}

/// The samples of `a`, each divided by `scalar`.
pub open spec fn scalar_quotient<T: Div<Output = T>>(a: Seq<T>, scalar: T) -> Seq<T> {
    Seq::new(a.len(), |i: int| a[i].div_spec(scalar))
}

/// The forward first difference of `s`: each sample but the first, less the
/// sample before it.
pub open spec fn forward_difference<T: Sub<Output = T>>(s: Seq<T>) -> Seq<T>
    recommends
        s.len() >= 2,
{
    Seq::new((s.len() - 1) as nat, |i: int| s[i + 1].sub_spec(s[i]))
}

// The search for the smallest or the largest sample, for the sample types
// that keep to the specification of their order.

/// The best sample after the search has held the sample at position `at`
/// against the best one so far, at position `best`: the sample at `at` where
/// it beats that one, else the best so far; none where their order is
/// undefined.
pub open spec fn next_best(best: int, at: int, verdict: Option<bool>) -> Option<int> {
    match verdict {
        None => None,
        Some(true) => Some(at),
        Some(false) => Some(best),
    }
}

/// What a search through the first `seen` samples of `s` finds: the position
/// of the best sample so far, or nothing once the order of two samples that
/// it compared was undefined. The search starts out with the first sample as
/// the best, then holds each sample in turn against the best so far, the
/// first one too.
pub open spec fn best_so_far<T: PartialOrd>(s: Seq<T>, seen: nat, largest: bool) -> Option<int>
    decreases seen,
{
    if seen == 0 {
        Some(0)
    } else {
        match best_so_far(s, (seen - 1) as nat, largest) {
            None => None,
            Some(best) => next_best(best, seen - 1, decided(s[seen - 1], s[best], largest)),
        }
    }
}

/// What the search for the position of the best sample of `s` returns.
pub open spec fn best_position<T: PartialOrd>(s: Seq<T>, largest: bool) -> Result<
    usize,
    MinMaxError,
>
    recommends
        s.len() <= usize::MAX,
{
    if s.len() == 0 {
        Err(MinMaxError::EmptyInput)
    } else {
        match best_so_far(s, s.len(), largest) {
            Some(best) => Ok(best as usize),
            None => Err(MinMaxError::UndefinedOrder),
        }
    }
}

/// What the search for the best sample of `s` returns: the sample at the
/// position that the search for the position returns.
pub open spec fn best_sample<T: PartialOrd>(s: Seq<T>, largest: bool) -> Result<T, MinMaxError>
    recommends
        s.len() <= usize::MAX,
{
    match best_position(s, largest) {
        Ok(i) => Ok(s[i as int]),
        Err(failure) => Err(failure),
    }
}

/// The smallest and the largest sample of `s`, in this order, where the
/// search for each of them finds one; else the failure of the first search
/// that fails.
pub open spec fn sample_range<T: PartialOrd>(s: Seq<T>) -> Result<(T, T), MinMaxError>
    recommends
        s.len() <= usize::MAX,
{
    match best_sample(s, false) {
        Err(failure) => Err(failure),
        Ok(smallest) => match best_sample(s, true) {
            Err(failure) => Err(failure),
            Ok(largest) => Ok((smallest, largest)),
        },
    }
}

/// The largest sample of `s` less the smallest, where there are both.
pub open spec fn sample_span<T: PartialOrd + Sub<Output = T>>(s: Seq<T>) -> Result<T, MinMaxError>
    recommends
        s.len() <= usize::MAX,
{
    match sample_range(s) {
        Ok((smallest, largest)) => Ok(largest.sub_spec(smallest)),
        Err(failure) => Err(failure),
    }
}

/// Whether the sample at position `i` is the first one of `s` that no sample
/// beats: every sample before it is beaten by it.
pub open spec fn is_first_best<T: PartialOrd>(s: Seq<T>, i: int, largest: bool) -> bool {
    &&& 0 <= i < s.len()
    &&& forall|j: int| 0 <= j < s.len() ==> !beats(#[trigger] s[j], s[i], largest)
    &&& forall|j: int| 0 <= j < i ==> beats(s[i], #[trigger] s[j], largest)
}

/// Whether the samples of `s` are ordered as numbers are: the order of any
/// two of them is defined; of two samples at most one beats the other; a
/// sample that beats one that beats a third beats the third; and one that
/// does not beat another that does not beat a third does not beat the third.
pub open spec fn ordered_as_numbers<T: PartialOrd>(s: Seq<T>, largest: bool) -> bool {
    &&& forall|i: int, j: int|
        0 <= i < s.len() && 0 <= j < s.len() ==> comparable(#[trigger] s[i], #[trigger] s[j])
    &&& forall|i: int, j: int|
        0 <= i < s.len() && 0 <= j < s.len() && beats(#[trigger] s[i], #[trigger] s[j], largest)
            ==> !beats(s[j], s[i], largest)
    &&& forall|i: int, j: int, k: int|
        0 <= i < s.len() && 0 <= j < s.len() && 0 <= k < s.len() && beats(
            #[trigger] s[i],
            #[trigger] s[j],
            largest,
        ) && beats(s[j], #[trigger] s[k], largest) ==> beats(s[i], s[k], largest)
    &&& forall|i: int, j: int, k: int|
        0 <= i < s.len() && 0 <= j < s.len() && 0 <= k < s.len() && !beats(
            #[trigger] s[i],
            #[trigger] s[j],
            largest,
        ) && !beats(s[j], #[trigger] s[k], largest) ==> !beats(s[i], s[k], largest)
}

// The search for the smallest or the largest sample, for any sample type.

/// Whether the search, having found `before` among the samples in front of
/// position `at`, may find `found` once it has seen the sample at `at` too.
pub open spec fn may_find_next<T: PartialOrd>(
    s: Seq<T>,
    at: int,
    largest: bool,
    before: Option<int>,
    found: Option<int>,
) -> bool {
    match before {
        None => found is None,
        Some(best) => exists|verdict: Option<bool>| #[trigger]
            may_decide(s[at], s[best], largest, verdict) && found == next_best(best, at, verdict),
    }
}

/// Whether a search through the first `seen` samples of `s` may find
/// `found`: this is `best_so_far` for a sample type of which nothing is
/// known but what its comparisons return when they are made.
pub open spec fn may_find<T: PartialOrd>(
    s: Seq<T>,
    seen: nat,
    largest: bool,
    found: Option<int>,
) -> bool
    decreases seen,
{
    if seen == 0 {
        found == Some(0int)
    } else {
        exists|before: Option<int>|
            may_find(s, (seen - 1) as nat, largest, before) && #[trigger] may_find_next(
                s,
                seen - 1,
                largest,
                before,
                found,
            )
    }
}

/// Whether `r` is a result that the search for the position of the best
/// sample of `s` may return.
pub open spec fn may_be_best_position<T: PartialOrd>(
    s: Seq<T>,
    largest: bool,
    r: Result<usize, MinMaxError>,
) -> bool {
    match r {
        Ok(i) => i < s.len() && may_find(s, s.len(), largest, Some(i as int)),
        Err(MinMaxError::EmptyInput) => s.len() == 0,
        Err(MinMaxError::UndefinedOrder) => s.len() > 0 && may_find(s, s.len(), largest, None),
    }
}

/// Whether `r` is a result that the search for the best sample of `s` may
/// return: the sample at a position that the search for the position may
/// return, or its failure.
pub open spec fn may_be_best_sample<T: PartialOrd>(
    s: Seq<T>,
    largest: bool,
    r: Result<T, MinMaxError>,
) -> bool {
    match r {
        Ok(sample) => exists|i: usize| #[trigger]
            may_be_best_position(s, largest, Ok(i)) && sample == s[i as int],
        Err(failure) => may_be_best_position(s, largest, Err(failure)),
    }
}

/// Whether `r` is a result that the two searches, for the smallest and for
/// the largest sample of `s`, may return together: both samples, or the
/// failure of one of the searches.
pub open spec fn may_be_range<T: PartialOrd>(s: Seq<T>, r: Result<(T, T), MinMaxError>) -> bool {
    match r {
        Ok((smallest, largest)) => may_be_best_sample(s, false, Ok(smallest))
            && may_be_best_sample(s, true, Ok(largest)),
        Err(failure) => may_be_best_sample(s, false, Err(failure)) || may_be_best_sample(
            s,
            true,
            Err(failure),
        ),
    }
}

/// Whether `r` is a result that the search for the span of `s` may return:
/// what the sample type gives for a largest sample less a smallest one, or
/// the failure of one of the searches.
pub open spec fn may_be_span<T: PartialOrd + Sub<Output = T>>(
    s: Seq<T>,
    r: Result<T, MinMaxError>,
) -> bool {
    match r {
        Ok(span) => exists|smallest: T, largest: T| #[trigger]
            may_be_range(s, Ok((smallest, largest))) && is_difference(largest, smallest, span),
        Err(failure) => may_be_range(s, Err(failure)),
    }
}

} // verus!
