use dsp4rust::inner::base::SignalBase;

#[test]
fn from_vec_keeps_samples_in_order() {
    let signal = SignalBase::from_vec(vec![1.0, 2.0, 3.0, 4.0, 5.0]);
    assert_eq!(signal.len(), 5);
    assert_eq!(signal.to_vec(), vec![1.0, 2.0, 3.0, 4.0, 5.0]);
}

#[test]
fn from_vec_of_nothing_is_empty() {
    let signal: SignalBase<f64> = SignalBase::from_vec(Vec::new());
    assert_eq!(signal.len(), 0);
    assert_eq!(signal.to_vec(), Vec::<f64>::new());
}

#[test]
fn from_elem_repeats_the_sample() {
    let signal = SignalBase::from_elem(3.14, 3);
    assert_eq!(signal.len(), 3);
    assert_eq!(signal.to_vec(), vec![3.14, 3.14, 3.14]);
}

#[test]
fn from_elem_of_length_zero_is_empty() {
    let signal = SignalBase::from_elem(1.0, 0);
    assert_eq!(signal.len(), 0);
}

#[test]
fn from_len_fn_calls_the_function_on_each_position() {
    let signal = SignalBase::from_len_fn(5, |i| (i as f64) * 2.0);
    assert_eq!(signal.len(), 5);
    assert_eq!(signal.to_vec(), vec![0.0, 2.0, 4.0, 6.0, 8.0]);
}

#[test]
fn from_iter_collects_in_order() {
    let signal = SignalBase::from_iter((0..5).map(|i| i as f64 * 2.0));
    assert_eq!(signal.len(), 5);
    assert_eq!(signal.to_vec(), vec![0.0, 2.0, 4.0, 6.0, 8.0]);
}

#[test]
fn from_iter_of_an_empty_iterator_is_empty() {
    let signal: SignalBase<i32> = SignalBase::from_iter(std::iter::empty());
    assert_eq!(signal.len(), 0);
}

#[test]
fn iter_walks_the_samples_in_order() {
    let signal = SignalBase::from_vec(vec![1.5, 2.5, 3.5]);
    let seen: Vec<f64> = signal.iter().copied().collect();
    assert_eq!(seen, vec![1.5, 2.5, 3.5]);
}

#[test]
fn as_slice_shows_the_samples() {
    let signal = SignalBase::from_vec(vec![1.0, 2.0]);
    assert_eq!(signal.as_slice(), Some(&[1.0, 2.0][..]));
    let empty: SignalBase<f64> = SignalBase::from_vec(Vec::new());
    assert_eq!(empty.as_slice(), Some(&[][..]));
}

#[test]
fn as_mut_slice_writes_through() {
    let mut signal = SignalBase::from_vec(vec![1.0, 2.0, 3.0]);
    match signal.as_mut_slice() {
        Some(samples) => samples[1] = 9.0,
        None => panic!("a signal is contiguous"),
    }
    assert_eq!(signal.to_vec(), vec![1.0, 9.0, 3.0]);
}

#[test]
fn clone_is_a_signal_of_its_own() {
    let signal = SignalBase::from_vec(vec![1.0, 2.0, 3.0]);
    let mut copy = signal.clone();
    *copy.index_mut(0) = 7.0;
    assert_eq!(signal.to_vec(), vec![1.0, 2.0, 3.0]);
    assert_eq!(copy.to_vec(), vec![7.0, 2.0, 3.0]);
}

#[test]
fn map_applies_the_function_to_each_sample() {
    let signal = SignalBase::from_vec(vec![1.0, -2.0, 3.0]);
    let squared = signal.map(|x| x * x);
    assert_eq!(squared.to_vec(), vec![1.0, 4.0, 9.0]);
    assert_eq!(signal.to_vec(), vec![1.0, -2.0, 3.0]);
}

#[test]
fn map_inplace_replaces_each_sample() {
    let mut signal = SignalBase::from_vec(vec![1.0, -2.0, 3.0]);
    signal.map_inplace(|x| x + 0.5);
    assert_eq!(signal.to_vec(), vec![1.5, -1.5, 3.5]);
}
