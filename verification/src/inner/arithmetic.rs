//! Arithmetic on signals: between two signals of one length, sample by
//! sample; between a signal and a scalar, which is applied to every sample;
//! and the forward first difference.
//!
//! The samples' own `+ - * /` do the arithmetic. A contract here says of each
//! sample of a result that it is what the sample type gives for the two
//! operands, and, for the sample types that keep to the specification of
//! their operators, which value that is.

use vstd::prelude::*;
use vstd::std_specs::ops::{AddSpec, DivSpec, MulSpec, SubSpec};
use core::ops::{Add, Div, Mul, Sub};
use crate::inner::BaseOperationError;
use crate::inner::base::SignalBase;
use crate::inner::model::{
    can_add, can_divide, can_multiply, can_subtract, elementwise_difference,
    elementwise_product, elementwise_quotient, elementwise_sum, forward_difference, is_difference,
    is_product, is_quotient, is_sum, scalar_difference, scalar_product, scalar_quotient,
    scalar_sum,
};

verus! {

/// `x + y`, by the sample type's own operator.
fn plus<T: Copy + Add<Output = T>>(x: T, y: T) -> (z: T)
    requires
        can_add(x, y),
    ensures
        is_sum(x, y, z),
{
    x + y
}

/// `x - y`, by the sample type's own operator.
fn minus<T: Copy + Sub<Output = T>>(x: T, y: T) -> (z: T)
    requires
        can_subtract(x, y),
    ensures
        is_difference(x, y, z),
{
    x - y
}

/// `x * y`, by the sample type's own operator.
fn times<T: Copy + Mul<Output = T>>(x: T, y: T) -> (z: T)
    requires
        can_multiply(x, y),
    ensures
        is_product(x, y, z),
{
    x * y
}

/// `x / y`, by the sample type's own operator.
fn over<T: Copy + Div<Output = T>>(x: T, y: T) -> (z: T)
    requires
        can_divide(x, y),
    ensures
        is_quotient(x, y, z),
{
    x / y
}

/// `f` of the samples of `a` and `b` that stand at the same position.
fn zip_with<T: Copy, F: Fn(T, T) -> T>(a: &Vec<T>, b: &Vec<T>, f: F) -> (out: Vec<T>)
    requires
        a@.len() == b@.len(),
        forall|i: int| 0 <= i < a@.len() ==> call_requires(f, (#[trigger] a@[i], b@[i])),
    ensures
        out@.len() == a@.len(),
        forall|i: int| 0 <= i < a@.len() ==> call_ensures(f, (a@[i], b@[i]), #[trigger] out@[i]),
{
    let n: usize = a.len();
    let mut out: Vec<T> = Vec::with_capacity(n);
    let mut i: usize = 0;
    while i < n
        invariant
            n == a@.len(),
            n == b@.len(),
            i <= n,
            out@.len() == i,
            forall|j: int| 0 <= j < n ==> call_requires(f, (#[trigger] a@[j], b@[j])),
            forall|j: int| 0 <= j < i ==> call_ensures(f, (a@[j], b@[j]), #[trigger] out@[j]),
        decreases n - i,
    {
        out.push(f(a[i], b[i]));
        i += 1;
    }
    out
}

/// `f` of each sample of `a` and of `scalar`.
fn broadcast_with<T: Copy, F: Fn(T, T) -> T>(a: &Vec<T>, scalar: T, f: F) -> (out: Vec<T>)
    requires
        forall|i: int| 0 <= i < a@.len() ==> call_requires(f, (#[trigger] a@[i], scalar)),
    ensures
        out@.len() == a@.len(),
        forall|i: int| 0 <= i < a@.len() ==> call_ensures(f, (a@[i], scalar), #[trigger] out@[i]),
{
    let n: usize = a.len();
    let mut out: Vec<T> = Vec::with_capacity(n);
    let mut i: usize = 0;
    while i < n
        invariant
            n == a@.len(),
            i <= n,
            out@.len() == i,
            forall|j: int| 0 <= j < n ==> call_requires(f, (#[trigger] a@[j], scalar)),
            forall|j: int| 0 <= j < i ==> call_ensures(f, (a@[j], scalar), #[trigger] out@[j]),
        decreases n - i,
    {
        out.push(f(a[i], scalar));
        i += 1;
    }
    out
}

impl<T: Copy + Add<Output = T>> SignalBase<T> {
    /// The sum of two signals of one length, sample by sample.
    /// Signals of different lengths have no sum.
    pub fn add(&self, other: &SignalBase<T>) -> (r: Result<SignalBase<T>, BaseOperationError>)
        requires
            self@.len() == other@.len() ==> forall|i: int|
                0 <= i < self@.len() ==> can_add(#[trigger] self@[i], other@[i]),
        ensures
            match r {
                Ok(sum) => {
                    &&& self@.len() == other@.len()
                    &&& sum@.len() == self@.len()
                    &&& forall|i: int|
                        0 <= i < self@.len() ==> is_sum(
                            self@[i],
                            other@[i],
                            #[trigger] sum@[i],
                        )
                    &&& T::obeys_add_spec() ==> sum@ == elementwise_sum(self@, other@)
                },
                Err(BaseOperationError::ShapeMismatch) => self@.len() != other@.len(),
                Err(_) => false,
            },
    {
        if self.len() != other.len() {
            return Err(BaseOperationError::ShapeMismatch);
        }
        let out = zip_with(self.samples(), other.samples(), plus::<T>);
        assert(T::obeys_add_spec() ==> out@ =~= elementwise_sum(self@, other@));
        Ok(SignalBase::from_vec(out))
    }

    /// Adds `other` to this signal, sample by sample.
    /// Where the lengths differ, the signal stays as it is.
    pub fn add_assign(&mut self, other: &SignalBase<T>) -> (r: Result<(), BaseOperationError>)
        requires
            old(self)@.len() == other@.len() ==> forall|i: int|
                0 <= i < old(self)@.len() ==> can_add(#[trigger] old(self)@[i], other@[i]),
        ensures
            match r {
                Ok(_) => {
                    &&& old(self)@.len() == other@.len()
                    &&& final(self)@.len() == old(self)@.len()
                    &&& forall|i: int|
                        0 <= i < old(self)@.len() ==> is_sum(
                            old(self)@[i],
                            other@[i],
                            #[trigger] final(self)@[i],
                        )
                    &&& T::obeys_add_spec() ==> final(self)@ == elementwise_sum(
                        old(self)@,
                        other@,
                    )
                },
                Err(BaseOperationError::ShapeMismatch) => old(self)@.len() != other@.len()
                    && final(self)@ == old(self)@,
                Err(_) => false,
            },
    {
        if self.len() != other.len() {
            return Err(BaseOperationError::ShapeMismatch);
        }
        let out = zip_with(self.samples(), other.samples(), plus::<T>);
        assert(T::obeys_add_spec() ==> out@ =~= elementwise_sum(self@, other@));
        *self = SignalBase::from_vec(out);
        Ok(())
    }

    /// A signal with `scalar` added to every sample.
    pub fn add_scalar(&self, scalar: T) -> (r: SignalBase<T>)
        requires
            forall|i: int| 0 <= i < self@.len() ==> can_add(#[trigger] self@[i], scalar),
        ensures
            r@.len() == self@.len(),
            forall|i: int| 0 <= i < self@.len() ==> is_sum(self@[i], scalar, #[trigger] r@[i]),
            T::obeys_add_spec() ==> r@ == scalar_sum(self@, scalar),
    {
        let out = broadcast_with(self.samples(), scalar, plus::<T>);
        assert(T::obeys_add_spec() ==> out@ =~= scalar_sum(self@, scalar));
        SignalBase::from_vec(out)
    }

    /// Adds `scalar` to every sample.
    pub fn add_scalar_assign(&mut self, scalar: T)
        requires
            forall|i: int|
                0 <= i < old(self)@.len() ==> can_add(#[trigger] old(self)@[i], scalar),
        ensures
            final(self)@.len() == old(self)@.len(),
            forall|i: int|
                0 <= i < old(self)@.len() ==> is_sum(
                    old(self)@[i],
                    scalar,
                    #[trigger] final(self)@[i],
                ),
            T::obeys_add_spec() ==> final(self)@ == scalar_sum(old(self)@, scalar),
    {
        let out = broadcast_with(self.samples(), scalar, plus::<T>);
        assert(T::obeys_add_spec() ==> out@ =~= scalar_sum(self@, scalar));
        *self = SignalBase::from_vec(out);
    }
}

impl<T: Copy + Sub<Output = T>> SignalBase<T> {
    /// The difference of two signals of one length, sample by sample.
    /// Signals of different lengths have no difference.
    pub fn sub(&self, other: &SignalBase<T>) -> (r: Result<SignalBase<T>, BaseOperationError>)
        requires
            self@.len() == other@.len() ==> forall|i: int|
                0 <= i < self@.len() ==> can_subtract(#[trigger] self@[i], other@[i]),
        ensures
            match r {
                Ok(difference) => {
                    &&& self@.len() == other@.len()
                    &&& difference@.len() == self@.len()
                    &&& forall|i: int|
                        0 <= i < self@.len() ==> is_difference(
                            self@[i],
                            other@[i],
                            #[trigger] difference@[i],
                        )
                    &&& T::obeys_sub_spec() ==> difference@ == elementwise_difference(self@, other@)
                },
                Err(BaseOperationError::ShapeMismatch) => self@.len() != other@.len(),
                Err(_) => false,
            },
    {
        if self.len() != other.len() {
            return Err(BaseOperationError::ShapeMismatch);
        }
        let out = zip_with(self.samples(), other.samples(), minus::<T>);
        assert(T::obeys_sub_spec() ==> out@ =~= elementwise_difference(self@, other@));
        Ok(SignalBase::from_vec(out))
    }

    /// Subtracts `other` from this signal, sample by sample.
    /// Where the lengths differ, the signal stays as it is.
    pub fn sub_assign(&mut self, other: &SignalBase<T>) -> (r: Result<(), BaseOperationError>)
        requires
            old(self)@.len() == other@.len() ==> forall|i: int|
                0 <= i < old(self)@.len() ==> can_subtract(#[trigger] old(self)@[i], other@[i]),
        ensures
            match r {
                Ok(_) => {
                    &&& old(self)@.len() == other@.len()
                    &&& final(self)@.len() == old(self)@.len()
                    &&& forall|i: int|
                        0 <= i < old(self)@.len() ==> is_difference(
                            old(self)@[i],
                            other@[i],
                            #[trigger] final(self)@[i],
                        )
                    &&& T::obeys_sub_spec() ==> final(self)@ == elementwise_difference(
                        old(self)@,
                        other@,
                    )
                },
                Err(BaseOperationError::ShapeMismatch) => old(self)@.len() != other@.len()
                    && final(self)@ == old(self)@,
                Err(_) => false,
            },
    {
        if self.len() != other.len() {
            return Err(BaseOperationError::ShapeMismatch);
        }
        let out = zip_with(self.samples(), other.samples(), minus::<T>);
        assert(T::obeys_sub_spec() ==> out@ =~= elementwise_difference(self@, other@));
        *self = SignalBase::from_vec(out);
        Ok(())
    }

    /// A signal with `scalar` subtracted from every sample.
    pub fn sub_scalar(&self, scalar: T) -> (r: SignalBase<T>)
        requires
            forall|i: int| 0 <= i < self@.len() ==> can_subtract(#[trigger] self@[i], scalar),
        ensures
            r@.len() == self@.len(),
            forall|i: int|
                0 <= i < self@.len() ==> is_difference(self@[i], scalar, #[trigger] r@[i]),
            T::obeys_sub_spec() ==> r@ == scalar_difference(self@, scalar),
    {
        let out = broadcast_with(self.samples(), scalar, minus::<T>);
        assert(T::obeys_sub_spec() ==> out@ =~= scalar_difference(self@, scalar));
        SignalBase::from_vec(out)
    }

    /// Subtracts `scalar` from every sample.
    pub fn sub_scalar_assign(&mut self, scalar: T)
        requires
            forall|i: int|
                0 <= i < old(self)@.len() ==> can_subtract(#[trigger] old(self)@[i], scalar),
        ensures
            final(self)@.len() == old(self)@.len(),
            forall|i: int|
                0 <= i < old(self)@.len() ==> is_difference(
                    old(self)@[i],
                    scalar,
                    #[trigger] final(self)@[i],
                ),
            T::obeys_sub_spec() ==> final(self)@ == scalar_difference(old(self)@, scalar),
    {
        let out = broadcast_with(self.samples(), scalar, minus::<T>);
        assert(T::obeys_sub_spec() ==> out@ =~= scalar_difference(self@, scalar));
        *self = SignalBase::from_vec(out);
    }
}

impl<T: Copy + Mul<Output = T>> SignalBase<T> {
    /// The product of two signals of one length, sample by sample.
    /// Signals of different lengths have no product.
    pub fn mul(&self, other: &SignalBase<T>) -> (r: Result<SignalBase<T>, BaseOperationError>)
        requires
            self@.len() == other@.len() ==> forall|i: int|
                0 <= i < self@.len() ==> can_multiply(#[trigger] self@[i], other@[i]),
        ensures
            match r {
                Ok(product) => {
                    &&& self@.len() == other@.len()
                    &&& product@.len() == self@.len()
                    &&& forall|i: int|
                        0 <= i < self@.len() ==> is_product(
                            self@[i],
                            other@[i],
                            #[trigger] product@[i],
                        )
                    &&& T::obeys_mul_spec() ==> product@ == elementwise_product(self@, other@)
                },
                Err(BaseOperationError::ShapeMismatch) => self@.len() != other@.len(),
                Err(_) => false,
            },
    {
        if self.len() != other.len() {
            return Err(BaseOperationError::ShapeMismatch);
        }
        let out = zip_with(self.samples(), other.samples(), times::<T>);
        assert(T::obeys_mul_spec() ==> out@ =~= elementwise_product(self@, other@));
        Ok(SignalBase::from_vec(out))
    }

    /// Multiplies this signal by `other`, sample by sample.
    /// Where the lengths differ, the signal stays as it is.
    pub fn mul_assign(&mut self, other: &SignalBase<T>) -> (r: Result<(), BaseOperationError>)
        requires
            old(self)@.len() == other@.len() ==> forall|i: int|
                0 <= i < old(self)@.len() ==> can_multiply(#[trigger] old(self)@[i], other@[i]),
        ensures
            match r {
                Ok(_) => {
                    &&& old(self)@.len() == other@.len()
                    &&& final(self)@.len() == old(self)@.len()
                    &&& forall|i: int|
                        0 <= i < old(self)@.len() ==> is_product(
                            old(self)@[i],
                            other@[i],
                            #[trigger] final(self)@[i],
                        )
                    &&& T::obeys_mul_spec() ==> final(self)@ == elementwise_product(
                        old(self)@,
                        other@,
                    )
                },
                Err(BaseOperationError::ShapeMismatch) => old(self)@.len() != other@.len()
                    && final(self)@ == old(self)@,
                Err(_) => false,
            },
    {
        if self.len() != other.len() {
            return Err(BaseOperationError::ShapeMismatch);
        }
        let out = zip_with(self.samples(), other.samples(), times::<T>);
        assert(T::obeys_mul_spec() ==> out@ =~= elementwise_product(self@, other@));
        *self = SignalBase::from_vec(out);
        Ok(())
    }

    /// A signal with every sample multiplied by `scalar`.
    pub fn mul_scalar(&self, scalar: T) -> (r: SignalBase<T>)
        requires
            forall|i: int| 0 <= i < self@.len() ==> can_multiply(#[trigger] self@[i], scalar),
        ensures
            r@.len() == self@.len(),
            forall|i: int| 0 <= i < self@.len() ==> is_product(self@[i], scalar, #[trigger] r@[i]),
            T::obeys_mul_spec() ==> r@ == scalar_product(self@, scalar),
    {
        let out = broadcast_with(self.samples(), scalar, times::<T>);
        assert(T::obeys_mul_spec() ==> out@ =~= scalar_product(self@, scalar));
        SignalBase::from_vec(out)
    }

    /// Multiplies every sample by `scalar`.
    pub fn mul_scalar_assign(&mut self, scalar: T)
        requires
            forall|i: int|
                0 <= i < old(self)@.len() ==> can_multiply(#[trigger] old(self)@[i], scalar),
        ensures
            final(self)@.len() == old(self)@.len(),
            forall|i: int|
                0 <= i < old(self)@.len() ==> is_product(
                    old(self)@[i],
                    scalar,
                    #[trigger] final(self)@[i],
                ),
            T::obeys_mul_spec() ==> final(self)@ == scalar_product(old(self)@, scalar),
    {
        let out = broadcast_with(self.samples(), scalar, times::<T>);
        assert(T::obeys_mul_spec() ==> out@ =~= scalar_product(self@, scalar));
        *self = SignalBase::from_vec(out);
    }
}

impl<T: Copy + Div<Output = T>> SignalBase<T> {
    /// The quotient of two signals of one length, sample by sample.
    /// Signals of different lengths have no quotient.
    pub fn div(&self, other: &SignalBase<T>) -> (r: Result<SignalBase<T>, BaseOperationError>)
        requires
            self@.len() == other@.len() ==> forall|i: int|
                0 <= i < self@.len() ==> can_divide(#[trigger] self@[i], other@[i]),
        ensures
            match r {
                Ok(quotient) => {
                    &&& self@.len() == other@.len()
                    &&& quotient@.len() == self@.len()
                    &&& forall|i: int|
                        0 <= i < self@.len() ==> is_quotient(
                            self@[i],
                            other@[i],
                            #[trigger] quotient@[i],
                        )
                    &&& T::obeys_div_spec() ==> quotient@ == elementwise_quotient(self@, other@)
                },
                Err(BaseOperationError::ShapeMismatch) => self@.len() != other@.len(),
                Err(_) => false,
            },
    {
        if self.len() != other.len() {
            return Err(BaseOperationError::ShapeMismatch);
        }
        let out = zip_with(self.samples(), other.samples(), over::<T>);
        assert(T::obeys_div_spec() ==> out@ =~= elementwise_quotient(self@, other@));
        Ok(SignalBase::from_vec(out))
    }

    /// Divides this signal by `other`, sample by sample.
    /// Where the lengths differ, the signal stays as it is.
    pub fn div_assign(&mut self, other: &SignalBase<T>) -> (r: Result<(), BaseOperationError>)
        requires
            old(self)@.len() == other@.len() ==> forall|i: int|
                0 <= i < old(self)@.len() ==> can_divide(#[trigger] old(self)@[i], other@[i]),
        ensures
            match r {
                Ok(_) => {
                    &&& old(self)@.len() == other@.len()
                    &&& final(self)@.len() == old(self)@.len()
                    &&& forall|i: int|
                        0 <= i < old(self)@.len() ==> is_quotient(
                            old(self)@[i],
                            other@[i],
                            #[trigger] final(self)@[i],
                        )
                    &&& T::obeys_div_spec() ==> final(self)@ == elementwise_quotient(
                        old(self)@,
                        other@,
                    )
                },
                Err(BaseOperationError::ShapeMismatch) => old(self)@.len() != other@.len()
                    && final(self)@ == old(self)@,
                Err(_) => false,
            },
    {
        if self.len() != other.len() {
            return Err(BaseOperationError::ShapeMismatch);
        }
        let out = zip_with(self.samples(), other.samples(), over::<T>);
        assert(T::obeys_div_spec() ==> out@ =~= elementwise_quotient(self@, other@));
        *self = SignalBase::from_vec(out);
        Ok(())
    }

    /// A signal with every sample divided by `scalar`.
    pub fn div_scalar(&self, scalar: T) -> (r: SignalBase<T>)
        requires
            forall|i: int| 0 <= i < self@.len() ==> can_divide(#[trigger] self@[i], scalar),
        ensures
            r@.len() == self@.len(),
            forall|i: int| 0 <= i < self@.len() ==> is_quotient(self@[i], scalar, #[trigger] r@[i]),
            T::obeys_div_spec() ==> r@ == scalar_quotient(self@, scalar),
    {
        let out = broadcast_with(self.samples(), scalar, over::<T>);
        assert(T::obeys_div_spec() ==> out@ =~= scalar_quotient(self@, scalar));
        SignalBase::from_vec(out)
    }

    /// Divides every sample by `scalar`.
    pub fn div_scalar_assign(&mut self, scalar: T)
        requires
            forall|i: int|
                0 <= i < old(self)@.len() ==> can_divide(#[trigger] old(self)@[i], scalar),
        ensures
            final(self)@.len() == old(self)@.len(),
            forall|i: int|
                0 <= i < old(self)@.len() ==> is_quotient(
                    old(self)@[i],
                    scalar,
                    #[trigger] final(self)@[i],
                ),
            T::obeys_div_spec() ==> final(self)@ == scalar_quotient(old(self)@, scalar),
    {
        let out = broadcast_with(self.samples(), scalar, over::<T>);
        assert(T::obeys_div_spec() ==> out@ =~= scalar_quotient(self@, scalar));
        *self = SignalBase::from_vec(out);
    }
}

impl<T: Copy + Sub<Output = T>> SignalBase<T> {
    /// The forward first difference: each sample but the first, less the
    /// sample before it. A signal of fewer than two samples has none.
    pub fn diff(&self) -> (r: Result<SignalBase<T>, BaseOperationError>)
        requires
            forall|i: int|
                0 <= i < self@.len() - 1 ==> can_subtract(self@[i + 1], #[trigger] self@[i]),
        ensures
            match r {
                Ok(d) => {
                    &&& self@.len() >= 2
                    &&& d@.len() == self@.len() - 1
                    &&& forall|i: int|
                        0 <= i < self@.len() - 1 ==> is_difference(
                            self@[i + 1],
                            self@[i],
                            #[trigger] d@[i],
                        )
                    &&& T::obeys_sub_spec() ==> d@ == forward_difference(self@)
                },
                Err(BaseOperationError::DiffShortLength) => self@.len() < 2,
                Err(_) => false,
            },
    {
        let n: usize = self.len();
        if n < 2 {
            return Err(BaseOperationError::DiffShortLength);
        }
        let src: &Vec<T> = self.samples();
        let mut out: Vec<T> = Vec::with_capacity(n - 1);
        let mut i: usize = 0;
        while i < n - 1
            invariant
                n == src@.len(),
                src@ == self@,
                n >= 2,
                i <= n - 1,
                out@.len() == i,
                forall|j: int| 0 <= j < n - 1 ==> can_subtract(src@[j + 1], #[trigger] src@[j]),
                forall|j: int|
                    0 <= j < i ==> is_difference(src@[j + 1], src@[j], #[trigger] out@[j]),
            decreases n - 1 - i,
        {
            out.push(src[i + 1] - src[i]);
            i += 1;
        }
        assert(T::obeys_sub_spec() ==> out@ =~= forward_difference(self@));
        Ok(SignalBase::from_vec(out))
    }
}

} // verus!
