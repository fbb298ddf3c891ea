//! The sample container: construction, circular indexing, slicing, sliding
//! windows, reversal and padding.

use vstd::prelude::*;
use vstd::std_specs::iter::IteratorSpec;
use vstd::string::StringExecFns;
use crate::inner::PadError;
use crate::inner::laws::{lemma_periodic_start, lemma_periodic_step};
use crate::inner::model::{
    constant_run, is_logical_index, left_width, padded_len, padded_periodically,
    padded_with_constant, periodic_sample, physical_position, right_width, window_count,
};

verus! {

/// The side or sides on which a signal is padded.
#[derive(Debug, Clone, Copy, PartialEq, Eq)]
pub enum PadSide {
    /// In front of the first sample.
    Left,
    /// Behind the last sample.
    Right,
    /// On both sides, by the same width.
    Both,
}

/// An ordered sequence of samples with a fixed length.
///
/// A sample is addressed by a logical index: `0` is the first sample, `-1`
/// the last one.
#[derive(Debug)]
pub struct SignalBase<T> {
    base: Vec<T>,
}

impl<T> View for SignalBase<T> {
    type V = Seq<T>;

    /// The samples, in order.
    closed spec fn view(&self) -> Seq<T> {
        self.base@
    }
}

impl<T: Copy> Clone for SignalBase<T> {
    /// A signal of its own with the same samples.
    fn clone(&self) -> (r: Self)
        ensures
            r@ == self@,
    {
        SignalBase { base: copy_range(&self.base, 0, self.base.len()) }
    }
}

/// The samples of `src` at the positions `start..end`.
fn copy_range<T: Copy>(src: &Vec<T>, start: usize, end: usize) -> (out: Vec<T>)
    requires
        start <= end <= src@.len(),
    ensures
        out@ == src@.subrange(start as int, end as int),
{
    let mut out: Vec<T> = Vec::with_capacity(end - start);
    let mut i: usize = start;
    while i < end
        invariant
            start <= i <= end <= src@.len(),
            out@ == src@.subrange(start as int, i as int),
        decreases end - i,
    {
        out.push(src[i]);
        i += 1;
        assert(out@ =~= src@.subrange(start as int, i as int));
    }
    out
}

/// Puts `width` copies of `value` behind the samples of `out`.
fn push_constant<T: Copy>(out: &mut Vec<T>, value: T, width: usize)
    ensures
        final(out)@ == old(out)@ + constant_run(value, width as nat),
{
    let mut k: usize = 0;
    while k < width
        invariant
            k <= width,
            out@ == old(out)@ + constant_run(value, k as nat),
        decreases width - k,
    {
        out.push(value);
        k += 1;
        assert(out@ =~= old(out)@ + constant_run(value, k as nat));
    }
}

/// Puts the samples of `src` behind the samples of `out`.
fn push_all<T: Copy>(out: &mut Vec<T>, src: &Vec<T>)
    ensures
        final(out)@ == old(out)@ + src@,
{
    let mut i: usize = 0;
    while i < src.len()
        invariant
            i <= src@.len(),
            out@ == old(out)@ + src@.subrange(0, i as int),
        decreases src@.len() - i,
    {
        out.push(src[i]);
        i += 1;
        assert(out@ =~= old(out)@ + src@.subrange(0, i as int));
    }
    assert(src@.subrange(0, src@.len() as int) =~= src@);
}

impl<T: Copy> SignalBase<T> {
    /// The sample that the logical index `idx` stands for: `signal[idx]`.
    pub open spec fn spec_index(&self, idx: int) -> T
        recommends
            is_logical_index(self@.len(), idx),
    {
        self@[physical_position(self@.len(), idx)]
    }

    /// Wraps the samples of `signal`, in their order.
    pub fn from_vec(signal: Vec<T>) -> (r: Self)
        ensures
            r@ == signal@,
    {
        SignalBase { base: signal }
    }

    /// A signal of `len` samples, each equal to `ele`.
    pub fn from_elem(ele: T, len: usize) -> (r: Self)
        ensures
            r@ == constant_run(ele, len as nat),
    {
        let mut base: Vec<T> = Vec::with_capacity(len);
        push_constant(&mut base, ele, len);
        assert(base@ =~= constant_run(ele, len as nat));
        SignalBase { base }
    }

    /// A signal of `len` samples, of which the one at position `i` is `f(i)`.
    pub fn from_len_fn<F: Fn(usize) -> T>(len: usize, f: F) -> (r: Self)
        requires
            forall|i: usize| i < len ==> call_requires(f, (i,)),
        ensures
            r@.len() == len,
            forall|i: usize| i < len ==> call_ensures(f, (i,), #[trigger] r@[i as int]),
    {
        let mut base: Vec<T> = Vec::with_capacity(len);
        let mut i: usize = 0;
        while i < len
            invariant
                i <= len,
                base@.len() == i,
                forall|j: usize| j < len ==> call_requires(f, (j,)),
                forall|j: usize| j < i ==> call_ensures(f, (j,), #[trigger] base@[j as int]),
            decreases len - i,
        {
            base.push(f(i));
            i += 1;
        }
        SignalBase { base }
    }

    /// A signal of the items that `iter` yields, in that order.
    pub fn from_iter<I: Iterator<Item = T>>(iter: I) -> (r: Self)
        requires
            iter.obeys_prophetic_iter_laws(),
            iter.decrease() is Some,
        ensures
            r@ == iter.remaining(),
    {
        let mut rest = iter;
        let mut base: Vec<T> = Vec::new();
        loop
            invariant
                rest.obeys_prophetic_iter_laws(),
                rest.decrease() is Some,
                base@ + rest.remaining() == iter.remaining(),
            ensures
                base@ == iter.remaining(),
            decreases rest.decrease()->0,
        {
            match rest.next() {
                Some(item) => {
                    base.push(item);
                    assert(base@ + rest.remaining() =~= iter.remaining());
                },
                None => {
                    assert(base@ + rest.remaining() =~= base@);
                    break ;
                },
            }
        }
        SignalBase { base }
    }

    /// An iterator over the samples, in order.
    pub fn iter(&self) -> (it: core::slice::Iter<'_, T>)
        ensures
            it.remaining() == self@.as_ref(),
            it.decrease() is Some,
            it.initial_value_relation(&it),
    {
        let samples: &[T] = self.base.as_slice();
        proof {
            vstd::std_specs::slice::axiom_spec_slice_iter(samples);
        }
        samples.iter()
    }

    /// The number of samples, in specifications: `signal.len()`.
    pub open spec fn spec_len(&self) -> usize {
        self@.len() as usize
    }

    /// The number of samples.
    #[verifier::when_used_as_spec(spec_len)]
    pub fn len(&self) -> (n: usize)
        ensures
            n == self.spec_len(),
            n == self@.len(),
    {
        self.base.len()
    }

    /// The samples, in order, as they are stored.
    pub(crate) fn samples(&self) -> (v: &Vec<T>)
        ensures
            v@ == self@,
    {
        &self.base
    }

    /// The samples, in order, as a vector of its own.
    pub fn to_vec(&self) -> (v: Vec<T>)
        ensures
            v@ == self@,
    {
        let v = copy_range(&self.base, 0, self.base.len());
        assert(self.base@.subrange(0, self.base@.len() as int) =~= self.base@);
        v
    }

    /// The samples as a slice. A signal is always contiguous, so there always
    /// is one.
    pub fn as_slice(&self) -> (r: Option<&[T]>)
        ensures
            r matches Some(s) && s@ == self@,
    {
        Some(self.base.as_slice())
    }

    /// The samples as a slice to write to. What is written there is written
    /// to the signal.
    pub fn as_mut_slice(&mut self) -> (r: Option<&mut [T]>)
        ensures
            r matches Some(s) && s@ == old(self)@ && final(s)@ == final(self)@,
    {
        Some(self.base.as_mut_slice())
    }

    /// Whether `idx` is a logical index of this signal.
    pub fn is_idx_valid(&self, idx: isize) -> (ok: bool)
        ensures
            ok == is_logical_index(self@.len(), idx as int),
    {
        let len: usize = self.base.len();
        if idx >= 0 {
            (idx as usize) < len
        } else {
            ((-(idx + 1)) as usize) < len
        }
    }

    /// The physical position of the logical index `index`.
    pub fn pos_idx(&self, index: isize) -> (pos: usize)
        requires
            is_logical_index(self@.len(), index as int),
        ensures
            pos == physical_position(self@.len(), index as int),
    {
        if index < 0 {
            self.base.len() - 1 - ((-(index + 1)) as usize)
        } else {
            index as usize
        }
    }

    /// The place of the sample at the logical index `index`, to write to.
    pub fn index_mut(&mut self, index: isize) -> (r: &mut T)
        requires
            is_logical_index(old(self)@.len(), index as int),
        ensures
            *r == old(self)[index as int],
            final(self)@ == old(self)@.update(
                physical_position(old(self)@.len(), index as int),
                *final(r),
            ),
    {
        let pos: usize = self.pos_idx(index);
        &mut self.base[pos]
    }
}

impl<T: Copy> SignalBase<T> {
    /// The samples from the logical index `from` to the end.
    pub fn cut_from(&self, from: isize) -> (r: SignalBase<T>)
        requires
            is_logical_index(self@.len(), from as int),
        ensures
            r@ == self@.subrange(
                physical_position(self@.len(), from as int),
                self@.len() as int,
            ),
    {
        let start: usize = self.pos_idx(from);
        SignalBase { base: copy_range(&self.base, start, self.base.len()) }
    }

    /// The samples from the start through the logical index `to`.
    pub fn cut_to(&self, to: isize) -> (r: SignalBase<T>)
        requires
            is_logical_index(self@.len(), to as int),
        ensures
            r@ == self@.subrange(0, physical_position(self@.len(), to as int) + 1),
    {
        let tail: usize = self.base.len() - 1 - self.pos_idx(to);
        SignalBase { base: copy_range(&self.base, 0, self.base.len() - tail) }
    }

    /// The samples from the logical index `from` through the logical index
    /// `to`, which must not stand before `from`.
    pub fn cut_from_to(&self, from: isize, to: isize) -> (r: SignalBase<T>)
        requires
            is_logical_index(self@.len(), from as int),
            is_logical_index(self@.len(), to as int),
            physical_position(self@.len(), from as int) <= physical_position(
                self@.len(),
                to as int,
            ),
        ensures
            r@ == self@.subrange(
                physical_position(self@.len(), from as int),
                physical_position(self@.len(), to as int) + 1,
            ),
    {
        let start: usize = self.pos_idx(from);
        let tail: usize = self.base.len() - 1 - self.pos_idx(to);
        SignalBase { base: copy_range(&self.base, start, self.base.len() - tail) }
    }

    /// Every run of `window_size` neighbouring samples, from the one that
    /// starts at position 0 on, each as a signal of its own. A window longer
    /// than the signal does not fit, and none is returned.
    pub fn windows(&self, window_size: usize) -> (r: Vec<SignalBase<T>>)
        ensures
            r@.len() == window_count(self@.len(), window_size as nat),
            forall|k: int|
                0 <= k < r@.len() ==> (#[trigger] r@[k])@ == self@.subrange(k, k + window_size),
            forall|k: int| 0 <= k < r@.len() ==> (#[trigger] r@[k])@.len() == window_size,
    {
        let n: usize = self.base.len();
        let mut out: Vec<SignalBase<T>> = Vec::new();
        if window_size > n {
            return out;
        }
        let last_start: usize = n - window_size;
        let mut k: usize = 0;
        while k <= last_start
            invariant
                n == self.base@.len(),
                last_start == n - window_size,
                k <= last_start + 1,
                out@.len() == k,
                forall|j: int|
                    0 <= j < k ==> (#[trigger] out@[j])@ == self@.subrange(j, j + window_size),
            decreases last_start + 1 - k,
        {
            let window = SignalBase { base: copy_range(&self.base, k, k + window_size) };
            out.push(window);
            let made: usize = out.len();
            k = made;
        }
        out
    }

    /// The samples in reverse order.
    pub fn rev(&self) -> (r: Self)
        ensures
            r@ == self@.reverse(),
    {
        let n: usize = self.base.len();
        let mut base: Vec<T> = Vec::with_capacity(n);
        let mut i: usize = n;
        while i > 0
            invariant
                n == self.base@.len(),
                i <= n,
                base@.len() == n - i,
                forall|j: int| 0 <= j < base@.len() ==> base@[j] == self.base@[n - 1 - j],
            decreases i,
        {
            i -= 1;
            base.push(self.base[i]);
        }
        assert(base@ =~= self.base@.reverse());
        SignalBase { base }
    }

    /// The samples of this signal followed by those of `another`.
    pub fn concat(&self, another: &SignalBase<T>) -> (r: Self)
        ensures
            r@ == self@ + another@,
    {
        let mut base: Vec<T> = Vec::new();
        push_all(&mut base, &self.base);
        push_all(&mut base, &another.base);
        assert(base@ =~= self.base@ + another.base@);
        SignalBase { base }
    }

    /// A signal whose sample at each position is `f` of the sample here.
    pub fn map<F: Fn(&T) -> T>(&self, f: F) -> (r: Self)
        requires
            forall|i: int| 0 <= i < self@.len() ==> call_requires(f, (&#[trigger] self@[i],)),
        ensures
            r@.len() == self@.len(),
            forall|i: int|
                0 <= i < self@.len() ==> call_ensures(f, (&self@[i],), #[trigger] r@[i]),
    {
        let n: usize = self.base.len();
        let mut base: Vec<T> = Vec::with_capacity(n);
        let mut i: usize = 0;
        while i < n
            invariant
                n == self@.len(),
                self@ == self.base@,
                i <= n,
                base@.len() == i,
                forall|j: int| 0 <= j < self@.len() ==> call_requires(f, (&#[trigger] self@[j],)),
                forall|j: int| 0 <= j < i ==> call_ensures(f, (&self@[j],), #[trigger] base@[j]),
            decreases n - i,
        {
            base.push(f(&self.base[i]));
            i += 1;
        }
        SignalBase { base }
    }

    /// Replaces the sample at each position by `f` of it.
    pub fn map_inplace<F: Fn(&T) -> T>(&mut self, f: F)
        requires
            forall|i: int|
                0 <= i < old(self)@.len() ==> call_requires(f, (&#[trigger] old(self)@[i],)),
        ensures
            final(self)@.len() == old(self)@.len(),
            forall|i: int|
                0 <= i < old(self)@.len() ==> call_ensures(
                    f,
                    (&old(self)@[i],),
                    #[trigger] final(self)@[i],
                ),
    {
        let n: usize = self.base.len();
        let mut i: usize = 0;
        while i < n
            invariant
                n == old(self)@.len(),
                self@.len() == n,
                self@ == self.base@,
                i <= n,
                forall|j: int| 0 <= j < n ==> call_requires(f, (&#[trigger] old(self)@[j],)),
                forall|j: int|
                    0 <= j < i ==> call_ensures(f, (&old(self)@[j],), #[trigger] self@[j]),
                forall|j: int| i <= j < n ==> self@[j] == old(self)@[j],
            decreases n - i,
        {
            let value: T = f(&self.base[i]);
            self.base[i] = value;
            i += 1;
        }
    }
}

/// Whether a signal of `len` samples, padded by `width`, is still no longer
/// than the largest signed index.
fn padding_fits(len: usize, side: PadSide, width: usize) -> (ok: bool)
    ensures
        ok == (padded_len(len as nat, side, width as nat) <= isize::MAX),
{
    let limit: usize = isize::MAX as usize;
    if len > limit {
        return false;
    }
    let room: usize = limit - len;
    match side {
        PadSide::Left => width <= room,
        PadSide::Right => width <= room,
        PadSide::Both => width <= room / 2,
    }
}

/// The widths that padding by `width` adds in front and behind.
fn side_widths(side: PadSide, width: usize) -> (r: (usize, usize))
    ensures
        r.0 == left_width(side, width as nat),
        r.1 == right_width(side, width as nat),
{
    match side {
        PadSide::Left => (width, 0),
        PadSide::Right => (0, width),
        PadSide::Both => (width, width),
    }
}

impl<T: Copy> SignalBase<T> {
    /// Pads with `pad_width` copies of `constants` in front (`Left`), behind
    /// (`Right`) or on both sides (`Both`). Fails where the padded signal
    /// would be longer than the largest signed index.
    pub fn pad_cons(&self, pad_side: PadSide, constants: T, pad_width: usize) -> (r: Result<
        Self,
        PadError,
    >)
        ensures
            match r {
                Ok(padded) => padded_len(self@.len(), pad_side, pad_width as nat) <= isize::MAX
                    && padded@ == padded_with_constant(
                    self@,
                    pad_side,
                    constants,
                    pad_width as nat,
                ),
                Err(PadError::ResultOutOfBounds) => padded_len(
                    self@.len(),
                    pad_side,
                    pad_width as nat,
                ) > isize::MAX,
                Err(_) => false,
            },
    {
        let n: usize = self.base.len();
        if !padding_fits(n, pad_side, pad_width) {
            return Err(PadError::ResultOutOfBounds);
        }
        let (left, right) = side_widths(pad_side, pad_width);
        let mut base: Vec<T> = Vec::with_capacity(left + n + right);
        push_constant(&mut base, constants, left);
        push_all(&mut base, &self.base);
        push_constant(&mut base, constants, right);
        assert(base@ =~= padded_with_constant(self@, pad_side, constants, pad_width as nat));
        Ok(SignalBase { base })
    }

    /// Pads with the signal's own periodic continuation: `pad_width` samples
    /// in front (`Left`), behind (`Right`) or on both sides (`Both`), as if
    /// the signal repeated endlessly in both directions. Fails where the
    /// padded signal would be longer than the largest signed index, and
    /// else where the signal is empty.
    pub fn pad_wrap(&self, pad_side: PadSide, pad_width: usize) -> (r: Result<Self, PadError>)
        ensures
            match r {
                Ok(padded) => padded_len(self@.len(), pad_side, pad_width as nat) <= isize::MAX
                    && self@.len() > 0 && padded@ == padded_periodically(
                    self@,
                    pad_side,
                    pad_width as nat,
                ),
                Err(PadError::ResultOutOfBounds) => padded_len(
                    self@.len(),
                    pad_side,
                    pad_width as nat,
                ) > isize::MAX,
                Err(PadError::ConcatenationError(text)) => padded_len(
                    self@.len(),
                    pad_side,
                    pad_width as nat,
                ) <= isize::MAX && self@.len() == 0 && text@ == "Empty input"@,
                Err(PadError::Other(_)) => false,
            },
    {
        let n: usize = self.base.len();
        if !padding_fits(n, pad_side, pad_width) {
            return Err(PadError::ResultOutOfBounds);
        }
        if n == 0 {
            return Err(PadError::ConcatenationError(String::from_str("Empty input")));
        }
        let (left, right) = side_widths(pad_side, pad_width);
        let total: usize = left + n + right;
        let mut base: Vec<T> = Vec::with_capacity(total);
        // The sample that stands `left` places before the first one.
        let mut i: usize = (n - left % n) % n;
        let mut k: usize = 0;
        proof {
            lemma_periodic_start(left as int, n as int);
        }
        while k < total
            invariant
                n == self@.len(),
                self@ == self.base@,
                n > 0,
                k <= total,
                total == padded_len(self@.len(), pad_side, pad_width as nat),
                left == left_width(pad_side, pad_width as nat),
                i == (k - left) % (n as int),
                i < n,
                base@.len() == k,
                forall|j: int| 0 <= j < k ==> base@[j] == periodic_sample(self@, j - left),
            decreases total - k,
        {
            proof {
                lemma_periodic_step(k - left, n as int);
            }
            base.push(self.base[i]);
            i += 1;
            if i == n {
                i = 0;
            }
            k += 1;
        }
        assert(base@ =~= padded_periodically(self@, pad_side, pad_width as nat));
        Ok(SignalBase { base })
    }
}

impl<T: Copy> core::ops::Index<isize> for SignalBase<T> {
    type Output = T;

    /// The sample at the logical index `index`.
    fn index(&self, index: isize) -> (r: &T)
        ensures
            *r == self[index as int],
    {
        let pos: usize = self.pos_idx(index);
        &self.base[pos]
    }
}

impl<T: Copy> vstd::std_specs::core::IndexSpecImpl<isize> for SignalBase<T> {
    /// Indexing is defined on the logical indices only.
    open spec fn index_req(&self, index: &isize) -> bool {
        is_logical_index(self@.len(), *index as int)
    }
}

} // verus!
