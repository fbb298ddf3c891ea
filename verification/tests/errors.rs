use dsp4rust::errors::DiffError;
use dsp4rust::inner::{BaseOperationError, PadError};

#[test]
fn diff_error_message() {
    assert_eq!(
        DiffError::ShortLength.message(),
        "Function 'diff' requires the wrapper length to be at least 2"
    );
}

#[test]
fn base_operation_error_messages() {
    assert_eq!(
        BaseOperationError::DiffShortLength.message(),
        "Signal length is too short for differentiation"
    );
    assert_eq!(BaseOperationError::ShapeMismatch.message(), "Signal lengths differ");
}

#[test]
fn pad_error_messages() {
    assert_eq!(
        PadError::ConcatenationError("Empty input".to_string()).message(),
        "Concatenation error: Empty input"
    );
    assert_eq!(PadError::ResultOutOfBounds.message(), "Padding result out of bounds");
    assert_eq!(PadError::Other("odd".to_string()).message(), "Other error: odd");
}

#[test]
fn pad_errors_compare_by_kind_and_text() {
    assert_eq!(PadError::Other("a".to_string()), PadError::Other("a".to_string()));
    assert_ne!(PadError::Other("a".to_string()), PadError::Other("b".to_string()));
    assert_ne!(PadError::Other("a".to_string()), PadError::ConcatenationError("a".to_string()));
    assert_eq!(PadError::ResultOutOfBounds.clone(), PadError::ResultOutOfBounds);
}

#[test]
fn signal_level_pad_error_kinds() {
    let empty = dsp4rust::errors::PadError::EmptyInput;
    let other = dsp4rust::errors::PadError::UnknownError("odd".to_string());
    assert!(matches!(empty.clone(), dsp4rust::errors::PadError::EmptyInput));
    assert!(matches!(other, dsp4rust::errors::PadError::UnknownError(text) if text == "odd"));
}
