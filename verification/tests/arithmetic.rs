use dsp4rust::inner::base::SignalBase;
use dsp4rust::inner::BaseOperationError;

fn close(a: &[f64], b: &[f64]) -> bool {
    a.len() == b.len() && a.iter().zip(b).all(|(x, y)| (x - y).abs() <= 1e-12 * (1.0 + y.abs()))
}

#[test]
fn diff_of_one_to_four() {
    let signal = SignalBase::from_vec(vec![1.0, 2.0, 3.0, 4.0]);
    assert_eq!(signal.diff().unwrap().to_vec(), vec![1.0, 1.0, 1.0]);
}

#[test]
fn diff_of_triangular_numbers() {
    let signal = SignalBase::from_vec(vec![1.0, 3.0, 6.0, 10.0]);
    assert_eq!(signal.diff().unwrap().to_vec(), vec![2.0, 3.0, 4.0]);
}

#[test]
fn diff_is_one_shorter() {
    for n in 2..9 {
        let signal = SignalBase::from_len_fn(n, |i| (i * i) as f64);
        assert_eq!(signal.diff().unwrap().len(), n - 1);
    }
}

#[test]
fn diff_of_a_constant_signal_is_zero() {
    let signal = SignalBase::from_elem(2.5, 6);
    assert_eq!(signal.diff().unwrap().to_vec(), vec![0.0; 5]);
}

#[test]
fn diff_of_two_samples() {
    let signal = SignalBase::from_vec(vec![5.0, 2.0]);
    assert_eq!(signal.diff().unwrap().to_vec(), vec![-3.0]);
}

#[test]
fn diff_of_a_short_signal_fails() {
    let empty: SignalBase<f64> = SignalBase::from_vec(Vec::new());
    assert_eq!(empty.diff().err(), Some(BaseOperationError::DiffShortLength));
    let single = SignalBase::from_vec(vec![1.0]);
    assert_eq!(single.diff().err(), Some(BaseOperationError::DiffShortLength));
}

#[test]
fn diff_on_integer_samples() {
    let signal: SignalBase<i32> = SignalBase::from_vec(vec![4, 1, 9]);
    assert_eq!(signal.diff().unwrap().to_vec(), vec![-3, 8]);
}

#[test]
fn add_is_elementwise() {
    let a = SignalBase::from_vec(vec![1.0, 2.0, 3.0]);
    let b = SignalBase::from_vec(vec![4.0, 5.0, 6.0]);
    assert_eq!(a.add(&b).unwrap().to_vec(), vec![5.0, 7.0, 9.0]);
    assert_eq!(a.to_vec(), vec![1.0, 2.0, 3.0]);
    assert_eq!(b.to_vec(), vec![4.0, 5.0, 6.0]);
}

#[test]
fn sub_mul_div_are_elementwise() {
    let a = SignalBase::from_vec(vec![8.0, 9.0, 10.0]);
    let b = SignalBase::from_vec(vec![2.0, 3.0, 4.0]);
    assert_eq!(a.sub(&b).unwrap().to_vec(), vec![6.0, 6.0, 6.0]);
    assert_eq!(a.mul(&b).unwrap().to_vec(), vec![16.0, 27.0, 40.0]);
    assert_eq!(a.div(&b).unwrap().to_vec(), vec![4.0, 3.0, 2.5]);
}

#[test]
fn scalar_operations_reach_every_sample() {
    let a = SignalBase::from_vec(vec![1.0, 2.0, 3.0]);
    assert_eq!(a.mul_scalar(2.0).to_vec(), vec![2.0, 4.0, 6.0]);
    assert_eq!(a.add_scalar(0.5).to_vec(), vec![1.5, 2.5, 3.5]);
    assert_eq!(a.sub_scalar(1.0).to_vec(), vec![0.0, 1.0, 2.0]);
    assert_eq!(a.div_scalar(2.0).to_vec(), vec![0.5, 1.0, 1.5]);
    assert_eq!(a.to_vec(), vec![1.0, 2.0, 3.0]);
}

#[test]
fn assign_operations_change_the_left_operand() {
    let mut a = SignalBase::from_vec(vec![8.0, 9.0, 10.0]);
    let b = SignalBase::from_vec(vec![2.0, 3.0, 4.0]);
    assert_eq!(a.add_assign(&b), Ok(()));
    assert_eq!(a.to_vec(), vec![10.0, 12.0, 14.0]);
    assert_eq!(a.sub_assign(&b), Ok(()));
    assert_eq!(a.to_vec(), vec![8.0, 9.0, 10.0]);
    assert_eq!(a.mul_assign(&b), Ok(()));
    assert_eq!(a.to_vec(), vec![16.0, 27.0, 40.0]);
    assert_eq!(a.div_assign(&b), Ok(()));
    assert_eq!(a.to_vec(), vec![8.0, 9.0, 10.0]);
    assert_eq!(b.to_vec(), vec![2.0, 3.0, 4.0]);
}

#[test]
fn scalar_assign_operations_change_every_sample() {
    let mut a = SignalBase::from_vec(vec![1.0, 2.0, 3.0]);
    a.add_scalar_assign(1.0);
    assert_eq!(a.to_vec(), vec![2.0, 3.0, 4.0]);
    a.mul_scalar_assign(3.0);
    assert_eq!(a.to_vec(), vec![6.0, 9.0, 12.0]);
    a.sub_scalar_assign(6.0);
    assert_eq!(a.to_vec(), vec![0.0, 3.0, 6.0]);
    a.div_scalar_assign(3.0);
    assert_eq!(a.to_vec(), vec![0.0, 1.0, 2.0]);
}

#[test]
fn signals_of_different_lengths_do_not_combine() {
    let a = SignalBase::from_vec(vec![1.0, 2.0, 3.0]);
    let b = SignalBase::from_vec(vec![1.0, 2.0]);
    assert_eq!(a.add(&b).err(), Some(BaseOperationError::ShapeMismatch));
    assert_eq!(a.sub(&b).err(), Some(BaseOperationError::ShapeMismatch));
    assert_eq!(a.mul(&b).err(), Some(BaseOperationError::ShapeMismatch));
    assert_eq!(a.div(&b).err(), Some(BaseOperationError::ShapeMismatch));
    assert_eq!(b.add(&a).err(), Some(BaseOperationError::ShapeMismatch));
}

#[test]
fn a_failed_assign_leaves_the_signal_as_it_was() {
    let mut a = SignalBase::from_vec(vec![1.0, 2.0, 3.0]);
    let b = SignalBase::from_vec(vec![1.0, 2.0]);
    assert_eq!(a.add_assign(&b), Err(BaseOperationError::ShapeMismatch));
    assert_eq!(a.sub_assign(&b), Err(BaseOperationError::ShapeMismatch));
    assert_eq!(a.mul_assign(&b), Err(BaseOperationError::ShapeMismatch));
    assert_eq!(a.div_assign(&b), Err(BaseOperationError::ShapeMismatch));
    assert_eq!(a.to_vec(), vec![1.0, 2.0, 3.0]);
}

#[test]
fn empty_signals_combine_to_an_empty_signal() {
    let a: SignalBase<f64> = SignalBase::from_vec(Vec::new());
    let b: SignalBase<f64> = SignalBase::from_vec(Vec::new());
    assert_eq!(a.add(&b).unwrap().len(), 0);
}

#[test]
fn division_by_zero_follows_the_sample_type() {
    let a = SignalBase::from_vec(vec![1.0, -1.0, 0.0]);
    let quotient = a.div_scalar(0.0).to_vec();
    assert_eq!(quotient[0], f64::INFINITY);
    assert_eq!(quotient[1], f64::NEG_INFINITY);
    assert!(quotient[2].is_nan());
}

#[test]
fn add_then_sub_returns_the_first_operand() {
    let a = SignalBase::from_vec(vec![0.1, -2.75, 3.3, 1e6]);
    let b = SignalBase::from_vec(vec![0.2, 5.5, -7.125, 3.0]);
    let back = a.add(&b).unwrap().sub(&b).unwrap();
    assert!(close(&back.to_vec(), &a.to_vec()));
}

#[test]
fn add_then_sub_is_exact_on_integers() {
    let a: SignalBase<i64> = SignalBase::from_vec(vec![1, -2, 30]);
    let b: SignalBase<i64> = SignalBase::from_vec(vec![7, 5, -9]);
    assert_eq!(a.add(&b).unwrap().sub(&b).unwrap().to_vec(), a.to_vec());
}

#[test]
fn scalar_multiply_distributes_over_add() {
    let a = SignalBase::from_vec(vec![0.1, -2.75, 3.3]);
    let b = SignalBase::from_vec(vec![0.2, 5.5, -7.125]);
    let s = 1.7;
    let left = a.add(&b).unwrap().mul_scalar(s);
    let right = a.mul_scalar(s).add(&b.mul_scalar(s)).unwrap();
    assert!(close(&left.to_vec(), &right.to_vec()));
}

#[test]
fn scalar_multiply_distributes_exactly_on_integers() {
    let a: SignalBase<i64> = SignalBase::from_vec(vec![1, -2, 30]);
    let b: SignalBase<i64> = SignalBase::from_vec(vec![7, 5, -9]);
    let left = a.add(&b).unwrap().mul_scalar(4);
    let right = a.mul_scalar(4).add(&b.mul_scalar(4)).unwrap();
    assert_eq!(left.to_vec(), vec![32, 12, 84]);
    assert_eq!(left.to_vec(), right.to_vec());
}
