//! Laws of the container's operations, proved over their model.

use vstd::prelude::*;
use vstd::arithmetic::div_mod::{
    lemma_fundamental_div_mod, lemma_fundamental_div_mod_converse, lemma_mod_bound,
    lemma_mod_multiples_vanish, lemma_small_mod,
};
use vstd::std_specs::ops::{AddSpec, MulSpec, SubSpec};
use core::ops::{Add, Mul, Sub};
use crate::inner::base::{PadSide, SignalBase};
use crate::inner::model::{
    best_so_far, constant_run, elementwise_difference, elementwise_sum, forward_difference,
    is_first_best, is_logical_index, left_width, may_find, may_find_next, next_best,
    ordered_as_numbers, padded_len, padded_periodically, padded_with_constant, periodic_sample,
    physical_position, right_width, scalar_product, tiled, window_count,
};
use crate::inner::order::{beats, comparable, lemma_one_answer, may_decide, order_specified};

verus! {

// Logical indices and windows.

/// A position `i` of a signal and the logical index `i - len`, which counts
/// the same position back from the end, stand for the same sample.
pub proof fn lemma_negative_index_equivalence<T: Copy>(signal: SignalBase<T>, i: int)
    requires
        0 <= i < signal@.len(),
    ensures
        is_logical_index(signal@.len(), i),
        is_logical_index(signal@.len(), i - signal@.len()),
        physical_position(signal@.len(), i) == physical_position(
            signal@.len(),
            i - signal@.len(),
        ),
        signal[i] == signal[i - signal@.len()],
{
}

/// A logical index stands for a position inside the signal.
pub proof fn lemma_physical_position_in_range(len: nat, idx: int)
    requires
        is_logical_index(len, idx),
    ensures
        0 <= physical_position(len, idx) < len,
{
}

/// Every window fits into the signal: the window that starts at position
/// `k` ends at position `k + size - 1`, which is a position of the signal
/// or, for an empty window, the one before `k`.
pub proof fn lemma_windows_fit(len: nat, size: nat, k: int)
    requires
        0 <= k < window_count(len, size),
    ensures
        size <= len,
        window_count(len, size) == len - size + 1,
        k + size <= len,
{
}

// Differences and arithmetic.

/// The forward difference of a constant signal is constant: where the sample
/// type gives `zero` for `value - value`, the difference of `len` copies of
/// `value` is `len - 1` copies of `zero`.
pub proof fn lemma_difference_of_constant<T: Sub<Output = T>>(value: T, zero: T, len: nat)
    requires
        len >= 2,
        value.sub_spec(value) == zero,
    ensures
        forward_difference(constant_run(value, len)) == constant_run(zero, (len - 1) as nat),
{
    assert(forward_difference(constant_run(value, len)) =~= constant_run(
        zero,
        (len - 1) as nat,
    ));
}

/// Where subtracting a sample of `b` undoes adding it, at every position,
/// the difference of the sum of `a` and `b`, and `b`, is `a` again.
pub proof fn lemma_add_then_sub<T: Add<Output = T> + Sub<Output = T>>(a: Seq<T>, b: Seq<T>)
    requires
        a.len() == b.len(),
        forall|i: int|
            0 <= i < a.len() ==> (#[trigger] a[i]).add_spec(b[i]).sub_spec(b[i]) == a[i],
    ensures
        elementwise_difference(elementwise_sum(a, b), b) == a,
{
    assert(elementwise_difference(elementwise_sum(a, b), b) =~= a);
}

/// Where multiplying by `scalar` distributes over the sum of two samples, at
/// every position, it distributes over the sum of the two signals.
pub proof fn lemma_scalar_product_distributes<T: Add<Output = T> + Mul<Output = T>>(
    a: Seq<T>,
    b: Seq<T>,
    scalar: T,
)
    requires
        a.len() == b.len(),
        forall|i: int|
            0 <= i < a.len() ==> (#[trigger] a[i]).add_spec(b[i]).mul_spec(scalar) == a[i].mul_spec(
                scalar,
            ).add_spec(b[i].mul_spec(scalar)),
    ensures
        scalar_product(elementwise_sum(a, b), scalar) == elementwise_sum(
            scalar_product(a, scalar),
            scalar_product(b, scalar),
        ),
{
    assert(scalar_product(elementwise_sum(a, b), scalar) =~= elementwise_sum(
        scalar_product(a, scalar),
        scalar_product(b, scalar),
    ));
}

// Padding with a constant.

/// Padding with a constant on both sides gives `len + 2 * width` samples:
/// `width` copies of the constant, then the signal in its order, then
/// `width` copies of the constant.
pub proof fn lemma_pad_cons_both<T>(s: Seq<T>, value: T, width: nat)
    ensures
        padded_with_constant(s, PadSide::Both, value, width).len() == s.len() + 2 * width,
        forall|i: int|
            0 <= i < width ==> #[trigger] padded_with_constant(s, PadSide::Both, value, width)[i]
                == value,
        forall|i: int|
            0 <= i < s.len() ==> padded_with_constant(s, PadSide::Both, value, width)[width + i]
                == #[trigger] s[i],
        forall|i: int|
            width + s.len() <= i < s.len() + 2 * width ==> #[trigger] padded_with_constant(
                s,
                PadSide::Both,
                value,
                width,
            )[i] == value,
        padded_with_constant(s, PadSide::Both, value, width).subrange(
            width as int,
            (width + s.len()) as int,
        ) == s,
{
    let p = padded_with_constant(s, PadSide::Both, value, width);
    assert(p.subrange(width as int, (width + s.len()) as int) =~= s);
}

/// Padding with a constant on one side gives `len + width` samples: the
/// copies of the constant stand in front of the signal for `Left`, behind it
/// for `Right`.
pub proof fn lemma_pad_cons_one_side<T>(s: Seq<T>, value: T, width: nat)
    ensures
        padded_with_constant(s, PadSide::Left, value, width) == constant_run(value, width) + s,
        padded_with_constant(s, PadSide::Right, value, width) == s + constant_run(value, width),
{
    assert(padded_with_constant(s, PadSide::Left, value, width) =~= constant_run(value, width)
        + s);
    assert(padded_with_constant(s, PadSide::Right, value, width) =~= s + constant_run(
        value,
        width,
    ));
}

// Periodic padding.

/// One step along a period of `n` samples: the position after `x` is the next
/// one, or the first one again behind the last.
pub proof fn lemma_periodic_step(x: int, n: int)
    requires
        n > 0,
    ensures
        0 <= x % n < n,
        (x + 1) % n == if x % n + 1 == n {
            0
        } else {
            x % n + 1
        },
{
    lemma_fundamental_div_mod(x, n);
    lemma_mod_bound(x, n);
    let q = x / n;
    let r = x % n;
    if r + 1 == n {
        assert(x + 1 == (q + 1) * n + 0) by (nonlinear_arith)
            requires
                x == n * q + r,
                r + 1 == n,
        ;
        lemma_fundamental_div_mod_converse(x + 1, n, q + 1, 0);
    } else {
        assert(x + 1 == q * n + (r + 1)) by (nonlinear_arith)
            requires
                x == n * q + r,
        ;
        lemma_fundamental_div_mod_converse(x + 1, n, q, r + 1);
    }
}

/// Where a period of `n` samples stands `back` samples before its start.
pub proof fn lemma_periodic_start(back: int, n: int)
    requires
        n > 0,
        back >= 0,
    ensures
        0 <= back % n < n,
        (-back) % n == (n - back % n) % n,
{
    lemma_fundamental_div_mod(back, n);
    lemma_mod_bound(back, n);
    let q = back / n;
    let r = back % n;
    if r == 0 {
        assert(-back == (-q) * n + 0) by (nonlinear_arith)
            requires
                back == n * q + r,
                r == 0,
        ;
        lemma_fundamental_div_mod_converse(-back, n, -q, 0);
        assert(n == 1 * n + 0) by (nonlinear_arith);
        lemma_fundamental_div_mod_converse(n, n, 1, 0);
    } else {
        assert(-back == (-q - 1) * n + (n - r)) by (nonlinear_arith)
            requires
                back == n * q + r,
        ;
        lemma_fundamental_div_mod_converse(-back, n, -q - 1, n - r);
        assert(n - r == 0 * n + (n - r)) by (nonlinear_arith);
        lemma_fundamental_div_mod_converse(n - r, n, 0, n - r);
    }
}

/// `count` copies of `s` hold `count * s.len()` samples, and the one at
/// position `j` is the sample of `s` at position `j % s.len()`.
pub proof fn lemma_tiled_samples<T>(s: Seq<T>, count: nat)
    requires
        s.len() > 0,
    ensures
        tiled(s, count).len() == count * s.len(),
        forall|j: int|
            0 <= j < count * s.len() ==> #[trigger] tiled(s, count)[j] == periodic_sample(s, j),
    decreases count,
{
    let n = s.len() as int;
    if count == 0 {
        assert(count * s.len() == 0) by (nonlinear_arith)
            requires
                count == 0,
        ;
    } else {
        let fewer = (count - 1) as nat;
        lemma_tiled_samples(s, fewer);
        assert(count * s.len() == fewer * s.len() + s.len()) by (nonlinear_arith)
            requires
                fewer == count - 1,
        ;
        assert forall|j: int| 0 <= j < count * s.len() implies #[trigger] tiled(s, count)[j]
            == periodic_sample(s, j) by {
            if j >= fewer * s.len() {
                let within = j - fewer * s.len();
                lemma_mod_multiples_vanish(fewer as int, within, n);
                lemma_small_mod(within as nat, n as nat);
                assert(n * fewer + within == j) by (nonlinear_arith)
                    requires
                        within == j - fewer * n,
                ;
            }
        }
    }
}

/// Periodic padding keeps the signal: its samples stand, in their order,
/// behind the samples added in front.
pub proof fn lemma_pad_wrap_keeps_signal<T>(s: Seq<T>, side: PadSide, width: nat)
    requires
        s.len() > 0,
    ensures
        padded_periodically(s, side, width).len() == padded_len(s.len(), side, width),
        padded_periodically(s, side, width).subrange(
            left_width(side, width) as int,
            (left_width(side, width) + s.len()) as int,
        ) == s,
{
    let p = padded_periodically(s, side, width);
    let left = left_width(side, width) as int;
    assert forall|i: int| 0 <= i < s.len() implies p[left + i] == s[i] by {
        lemma_small_mod(i as nat, s.len());
    }
    assert(p.subrange(left, left + s.len()) =~= s);
}

/// Periodic padding has no seam: each sample of the padded signal is
/// followed by the sample that follows it in the signal, and the last sample
/// of the signal by the first.
pub proof fn lemma_pad_wrap_seamless<T>(s: Seq<T>, side: PadSide, width: nat, j: int)
    requires
        s.len() > 0,
        0 <= j,
        j + 1 < padded_len(s.len(), side, width),
    ensures
        ({
            let p = (j - left_width(side, width)) % (s.len() as int);
            &&& 0 <= p < s.len()
            &&& padded_periodically(s, side, width)[j] == s[p]
            &&& padded_periodically(s, side, width)[j + 1] == s[if p + 1 == s.len() {
                0
            } else {
                p + 1
            }]
        }),
{
    lemma_periodic_step(j - left_width(side, width), s.len() as int);
}

/// Periodic padding by a multiple of the signal's length adds whole copies
/// of the signal: `width / len` of them on each padded side.
pub proof fn lemma_pad_wrap_full_tiles<T>(s: Seq<T>, side: PadSide, width: nat)
    requires
        s.len() > 0,
        width % s.len() == 0,
    ensures
        padded_periodically(s, side, width) == tiled(s, left_width(side, width) / s.len()) + s
            + tiled(s, right_width(side, width) / s.len()),
{
    let n = s.len() as int;
    let left = left_width(side, width);
    let right = right_width(side, width);
    let left_tiles = left / s.len();
    let right_tiles = right / s.len();
    assert(0int % n == 0) by {
        lemma_small_mod(0, s.len());
    }
    assert(left as int % n == 0 && right as int % n == 0);
    lemma_fundamental_div_mod(left as int, n);
    lemma_fundamental_div_mod(right as int, n);
    assert(left == left_tiles * n) by (nonlinear_arith)
        requires
            left == n * left_tiles + 0,
    ;
    assert(right == right_tiles * n) by (nonlinear_arith)
        requires
            right == n * right_tiles + 0,
    ;
    lemma_tiled_samples(s, left_tiles);
    lemma_tiled_samples(s, right_tiles);
    let padded = padded_periodically(s, side, width);
    let joined = tiled(s, left_tiles) + s + tiled(s, right_tiles);
    assert(padded.len() == joined.len());
    assert forall|j: int| 0 <= j < padded.len() implies padded[j] == joined[j] by {
        if j < left {
            // (j - left) and j stand at the same place of the period.
            lemma_mod_multiples_vanish(-(left_tiles as int), j, n);
            assert(n * (-(left_tiles as int)) + j == j - left) by (nonlinear_arith)
                requires
                    left == left_tiles * n,
            ;
        } else if j < left + n {
            lemma_small_mod((j - left) as nat, n as nat);
        } else {
            let behind = j - left - n;
            lemma_mod_multiples_vanish(1, behind, n);
            assert(n * 1 + behind == j - left) by (nonlinear_arith)
                requires
                    behind == j - left - n,
            ;
        }
    }
    assert(padded =~= joined);
}

/// Periodic padding behind the signal by a multiple of its length gives the
/// signal followed by `width / len` copies of it.
pub proof fn lemma_pad_wrap_right_full_tiles<T>(s: Seq<T>, width: nat)
    requires
        s.len() > 0,
        width % s.len() == 0,
    ensures
        padded_periodically(s, PadSide::Right, width) == s + tiled(s, width / s.len()),
{
    lemma_pad_wrap_full_tiles(s, PadSide::Right, width);
    lemma_fundamental_div_mod(0, s.len() as int);
    lemma_small_mod(0, s.len());
    assert(0nat / s.len() == 0) by (nonlinear_arith)
        requires
            s.len() > 0,
    ;
    assert(tiled(s, 0) + s =~= s);
}

// The search for the smallest or the largest sample.

/// For a sample type that keeps to the specification of its order, the
/// search may find one thing only.
pub proof fn lemma_search_finds_one<T: PartialOrd>(
    s: Seq<T>,
    seen: nat,
    largest: bool,
    found: Option<int>,
)
    requires
        order_specified::<T>(),
        may_find(s, seen, largest, found),
    ensures
        found == best_so_far(s, seen, largest),
    decreases seen,
{
    if seen > 0 {
        let before = choose|before: Option<int>|
            may_find(s, (seen - 1) as nat, largest, before) && #[trigger] may_find_next(
                s,
                seen - 1,
                largest,
                before,
                found,
            );
        lemma_search_finds_one(s, (seen - 1) as nat, largest, before);
        if let Some(best) = before {
            let verdict = choose|verdict: Option<bool>| #[trigger]
                may_decide(s[seen - 1], s[best], largest, verdict) && found == next_best(
                    best,
                    seen - 1,
                    verdict,
                );
            lemma_one_answer(s[seen - 1], s[best], largest, verdict);
        }
    }
}

/// Among samples that are ordered as numbers are, the search through the
/// first `seen` of them finds the first one that none of these beats.
proof fn lemma_search_through_prefix<T: PartialOrd>(s: Seq<T>, seen: nat, largest: bool)
    requires
        s.len() > 0,
        seen <= s.len(),
        ordered_as_numbers(s, largest),
    ensures
        best_so_far(s, seen, largest) matches Some(best) && {
            &&& 0 <= best < s.len()
            &&& seen > 0 ==> best < seen
            &&& forall|j: int| 0 <= j < seen ==> !beats(#[trigger] s[j], s[best], largest)
            &&& forall|j: int| 0 <= j < best ==> beats(s[best], #[trigger] s[j], largest)
        },
    decreases seen,
{
    if seen > 0 {
        lemma_search_through_prefix(s, (seen - 1) as nat, largest);
        let before = best_so_far(s, (seen - 1) as nat, largest)->0;
        let at = seen - 1;
        assert(comparable(s[at], s[before]));
        assert(!beats(s[at], s[at], largest));
        if beats(s[at], s[before], largest) {
            assert forall|j: int| 0 <= j < seen implies !beats(#[trigger] s[j], s[at], largest) by {
                if j < at && beats(s[j], s[at], largest) {
                    assert(beats(s[j], s[before], largest));
                }
            }
            assert forall|j: int| 0 <= j < at implies beats(s[at], #[trigger] s[j], largest) by {
                if j < before {
                    assert(beats(s[before], s[j], largest));
                } else if j > before {
                    assert(!beats(s[j], s[before], largest));
                    if !beats(s[at], s[j], largest) {
                        assert(!beats(s[at], s[before], largest));
                    }
                }
            }
        }
    }
}

/// Among samples that are ordered as numbers are, the search finds the
/// first sample that none beats: for the smallest, the first one that no
/// sample is less than; for the largest, the first one that no sample is
/// greater than.
pub proof fn lemma_search_finds_first_best<T: PartialOrd>(s: Seq<T>, largest: bool)
    requires
        s.len() > 0,
        ordered_as_numbers(s, largest),
    ensures
        best_so_far(s, s.len(), largest) matches Some(best) && is_first_best(s, best, largest),
{
    lemma_search_through_prefix(s, s.len(), largest);
}

/// Once the search has seen a sample whose order to every sample is
/// undefined, it has failed.
proof fn lemma_search_fails_from<T: PartialOrd>(s: Seq<T>, at: int, seen: nat, largest: bool)
    requires
        0 <= at < seen <= s.len(),
        forall|j: int| 0 <= j < s.len() ==> !comparable(s[at], #[trigger] s[j]),
    ensures
        best_so_far(s, seen, largest) is None,
    decreases seen,
{
    if at < seen - 1 {
        lemma_search_fails_from(s, at, (seen - 1) as nat, largest);
    } else {
        lemma_search_stays_in_range(s, (seen - 1) as nat, largest);
    }
}

/// A sample whose order to every sample is undefined, itself included, makes
/// the search fail.
pub proof fn lemma_search_fails_on_unordered_sample<T: PartialOrd>(
    s: Seq<T>,
    at: int,
    largest: bool,
)
    requires
        0 <= at < s.len(),
        forall|j: int| 0 <= j < s.len() ==> !comparable(s[at], #[trigger] s[j]),
    ensures
        best_so_far(s, s.len(), largest) is None,
{
    lemma_search_fails_from(s, at, s.len(), largest);
}

/// The best sample so far is one of the samples seen, or the first one.
proof fn lemma_search_stays_in_range<T: PartialOrd>(s: Seq<T>, seen: nat, largest: bool)
    requires
        s.len() > 0,
        seen <= s.len(),
    ensures
        best_so_far(s, seen, largest) matches Some(best) ==> 0 <= best < s.len(),
    decreases seen,
{
    if seen > 0 {
        lemma_search_stays_in_range(s, (seen - 1) as nat, largest);
    }
}

} // verus!
