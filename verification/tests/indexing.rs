use dsp4rust::inner::base::SignalBase;

#[test]
fn index_reads_from_the_start_and_from_the_end() {
    let signal = SignalBase::from_vec(vec![10.0, 20.0, 30.0, 40.0]);
    assert_eq!(signal[0], 10.0);
    assert_eq!(signal[3], 40.0);
    assert_eq!(signal[-1], 40.0);
    assert_eq!(signal[-4], 10.0);
}

#[test]
fn negative_index_equals_position_less_length() {
    let signal = SignalBase::from_vec(vec![1.0, 2.0, 3.0, 4.0, 5.0]);
    let len = signal.len() as isize;
    for i in 0..len {
        assert_eq!(signal[i], signal[i - len]);
        assert_eq!(signal.pos_idx(i), signal.pos_idx(i - len));
    }
}

#[test]
fn is_idx_valid_accepts_exactly_the_logical_indices() {
    let signal = SignalBase::from_vec(vec![1.0, 2.0, 3.0]);
    assert!(signal.is_idx_valid(0));
    assert!(signal.is_idx_valid(2));
    assert!(!signal.is_idx_valid(3));
    assert!(signal.is_idx_valid(-1));
    assert!(signal.is_idx_valid(-3));
    assert!(!signal.is_idx_valid(-4));
    assert!(!signal.is_idx_valid(isize::MAX));
    assert!(!signal.is_idx_valid(isize::MIN));
}

#[test]
fn an_empty_signal_has_no_valid_index() {
    let signal: SignalBase<f64> = SignalBase::from_vec(Vec::new());
    assert!(!signal.is_idx_valid(0));
    assert!(!signal.is_idx_valid(-1));
}

#[test]
fn pos_idx_resolves_negative_indices() {
    let signal = SignalBase::from_vec(vec![1.0, 2.0, 3.0]);
    assert_eq!(signal.pos_idx(0), 0);
    assert_eq!(signal.pos_idx(2), 2);
    assert_eq!(signal.pos_idx(-1), 2);
    assert_eq!(signal.pos_idx(-2), 1);
    assert_eq!(signal.pos_idx(-3), 0);
}

#[test]
fn index_mut_writes_one_sample() {
    let mut signal = SignalBase::from_vec(vec![1.0, 2.0, 3.0]);
    *signal.index_mut(-1) = 9.0;
    *signal.index_mut(0) = 7.0;
    assert_eq!(signal.to_vec(), vec![7.0, 2.0, 9.0]);
}
