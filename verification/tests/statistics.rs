use dsp4rust::inner::base::SignalBase;
use dsp4rust::inner::MinMaxError;
use ndarray::Array1;
use ndarray_stats::QuantileExt;

#[test]
fn smallest_and_largest_sample() {
    let signal = SignalBase::from_vec(vec![3.0, -1.5, 2.0, 7.25, 0.0]);
    assert_eq!(signal.min(), Ok(-1.5));
    assert_eq!(signal.max(), Ok(7.25));
    assert_eq!(signal.argmin(), Ok(1));
    assert_eq!(signal.argmax(), Ok(3));
    assert_eq!(signal.range(), Ok((-1.5, 7.25)));
    assert_eq!(signal.p2p(), Ok(8.75));
}

#[test]
fn the_first_of_several_equal_samples_is_found() {
    let signal = SignalBase::from_vec(vec![2.0, 1.0, 5.0, 1.0, 5.0]);
    assert_eq!(signal.argmin(), Ok(1));
    assert_eq!(signal.argmax(), Ok(2));
}

#[test]
fn a_single_sample_is_both_smallest_and_largest() {
    let signal = SignalBase::from_vec(vec![4.5]);
    assert_eq!(signal.argmin(), Ok(0));
    assert_eq!(signal.argmax(), Ok(0));
    assert_eq!(signal.range(), Ok((4.5, 4.5)));
    assert_eq!(signal.p2p(), Ok(0.0));
}

#[test]
fn an_empty_signal_has_no_smallest_or_largest_sample() {
    let empty: SignalBase<f64> = SignalBase::from_vec(Vec::new());
    assert_eq!(empty.min(), Err(MinMaxError::EmptyInput));
    assert_eq!(empty.max(), Err(MinMaxError::EmptyInput));
    assert_eq!(empty.argmin(), Err(MinMaxError::EmptyInput));
    assert_eq!(empty.argmax(), Err(MinMaxError::EmptyInput));
    assert_eq!(empty.range(), Err(MinMaxError::EmptyInput));
    assert_eq!(empty.p2p(), Err(MinMaxError::EmptyInput));
}

#[test]
fn a_sample_without_order_makes_the_search_fail() {
    for at in 0..3 {
        let mut samples = vec![1.0, 2.0, 3.0];
        samples[at] = f64::NAN;
        let signal = SignalBase::from_vec(samples);
        assert_eq!(signal.min(), Err(MinMaxError::UndefinedOrder));
        assert_eq!(signal.max(), Err(MinMaxError::UndefinedOrder));
        assert_eq!(signal.argmin(), Err(MinMaxError::UndefinedOrder));
        assert_eq!(signal.argmax(), Err(MinMaxError::UndefinedOrder));
        assert_eq!(signal.range(), Err(MinMaxError::UndefinedOrder));
        assert_eq!(signal.p2p(), Err(MinMaxError::UndefinedOrder));
    }
    let single = SignalBase::from_vec(vec![f64::NAN]);
    assert_eq!(single.argmin(), Err(MinMaxError::UndefinedOrder));
}

#[test]
fn infinite_samples_are_ordered() {
    let signal = SignalBase::from_vec(vec![0.0, f64::INFINITY, f64::NEG_INFINITY]);
    assert_eq!(signal.argmin(), Ok(2));
    assert_eq!(signal.argmax(), Ok(1));
}

#[test]
fn order_statistics_on_integer_samples() {
    let signal: SignalBase<i64> = SignalBase::from_vec(vec![3, 1, 2, 1]);
    assert_eq!(signal.argmin(), Ok(1));
    assert_eq!(signal.argmax(), Ok(0));
    assert_eq!(signal.range(), Ok((1, 3)));
    assert_eq!(signal.p2p(), Ok(2));
}

#[test]
fn the_search_agrees_with_ndarray_stats() {
    let cases: Vec<Vec<f64>> = vec![
        vec![1.0],
        vec![2.0, 2.0, 2.0],
        vec![5.0, 4.0, 3.0, 2.0, 1.0],
        vec![1.0, 2.0, 3.0, 4.0, 5.0],
        vec![0.5, -0.5, 0.5, -0.5],
        vec![-0.0, 0.0, -0.0],
        vec![1e300, -1e300, 1e-300],
    ];
    for samples in cases {
        let array = Array1::from_vec(samples.clone());
        let signal = SignalBase::from_vec(samples);
        assert_eq!(signal.argmin().ok(), array.argmin().ok());
        assert_eq!(signal.argmax().ok(), array.argmax().ok());
        assert_eq!(signal.min().ok(), array.min().ok().copied());
        assert_eq!(signal.max().ok(), array.max().ok().copied());
    }
}

#[test]
fn the_search_fails_where_ndarray_stats_fails() {
    let cases: Vec<Vec<f64>> = vec![
        vec![],
        vec![f64::NAN],
        vec![1.0, f64::NAN],
        vec![f64::NAN, 1.0],
        vec![3.0, 1.0, f64::NAN, 0.0],
    ];
    for samples in cases {
        let array = Array1::from_vec(samples.clone());
        let signal = SignalBase::from_vec(samples);
        let expected = match array.argmin() {
            Ok(_) => None,
            Err(ndarray_stats::errors::MinMaxError::EmptyInput) => Some(MinMaxError::EmptyInput),
            Err(ndarray_stats::errors::MinMaxError::UndefinedOrder) => {
                Some(MinMaxError::UndefinedOrder)
            }
        };
        assert!(expected.is_some());
        assert_eq!(signal.argmin().err(), expected);
        assert_eq!(signal.argmax().err(), expected);
        assert_eq!(signal.min().err(), expected);
        assert_eq!(signal.max().err(), expected);
    }
}

#[test]
fn min_max_error_messages() {
    assert_eq!(MinMaxError::EmptyInput.message(), "Empty input.");
    assert_eq!(
        MinMaxError::UndefinedOrder.message(),
        "Undefined ordering between a tested pair of values."
    );
}
