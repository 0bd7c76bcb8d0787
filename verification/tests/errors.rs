use blog::errors::{AppError, StoreFault};

#[test]
fn absent_row_is_not_found() {
    assert_eq!(AppError::from_fault(StoreFault::RowAbsent), AppError::NotFound);
}

#[test]
fn broken_constraints_are_constraint_violations() {
    assert_eq!(AppError::from_fault(StoreFault::UniqueViolation), AppError::ConstraintViolation);
    assert_eq!(AppError::from_fault(StoreFault::ForeignKeyViolation), AppError::ConstraintViolation);
}

#[test]
fn unreachable_store_is_a_connection_error() {
    assert_eq!(AppError::from_fault(StoreFault::ConnectionRefused), AppError::ConnectionError);
    assert_eq!(AppError::from_fault(StoreFault::ConnectionClosed), AppError::ConnectionError);
    assert_eq!(AppError::from_fault(StoreFault::CommandNotSent), AppError::ConnectionError);
    assert_eq!(AppError::from_fault(StoreFault::TimedOut), AppError::ConnectionError);
    assert_eq!(AppError::from_fault(StoreFault::Other), AppError::ConnectionError);
}

#[test]
fn data_of_the_wrong_shape_is_a_serialization_error() {
    assert_eq!(AppError::from_fault(StoreFault::RowUnreadable), AppError::SerializationError);
    assert_eq!(AppError::from_fault(StoreFault::ValueUnwritable), AppError::SerializationError);
}

#[test]
fn errors_compare_and_copy() {
    let error = AppError::NotFound;
    let copy = error;
    assert_eq!(error, copy);
    assert_ne!(AppError::NotFound, AppError::ConstraintViolation);
    assert_ne!(AppError::ConnectionError, AppError::SerializationError);
}
