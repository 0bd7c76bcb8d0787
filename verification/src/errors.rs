//! The four kinds of failure an operation can report, and the table that
//! sorts what a relational store reports into them.

use vstd::prelude::*;

verus! {

/// Why an operation failed.
#[derive(Clone, Copy, Debug, PartialEq, Eq, Structural)]
pub enum AppError {
    /// The row that a lookup or an update aimed at does not exist.
    NotFound,
    /// A write would break a uniqueness or a foreign-key constraint.
    ConstraintViolation,
    /// The store could not be reached, or did not answer in time.
    ConnectionError,
    /// The store handed back data that does not have the expected shape.
    SerializationError,
}

/// What a relational store reports when a request fails, as plain values.
#[derive(Clone, Copy, Debug, PartialEq, Eq, Structural)]
pub enum StoreFault {
    /// A query that wants one row found none.
    RowAbsent,
    /// A value that must be unique is already taken.
    UniqueViolation,
    /// A foreign key points at no row.
    ForeignKeyViolation,
    /// No connection to the store could be made.
    ConnectionRefused,
    /// The connection to the store was closed.
    ConnectionClosed,
    /// The request could not be sent to the store.
    CommandNotSent,
    /// The store did not answer in time.
    TimedOut,
    /// A row came back that does not fit the expected columns.
    RowUnreadable,
    /// A value could not be put into the form that the store takes.
    ValueUnwritable,
    /// The store gave up on the request for a reason of its own.
    Other,
}

impl StoreFault {
    /// The kind of error that a fault of the store is reported as: a missing
    /// row as `NotFound`, a broken constraint as `ConstraintViolation`, data
    /// of the wrong shape as `SerializationError`, and a request that did not
    /// get through, for whatever reason, as `ConnectionError`.
    pub open spec fn kind(self) -> AppError {
        match self {
            StoreFault::RowAbsent => AppError::NotFound,
            StoreFault::UniqueViolation | StoreFault::ForeignKeyViolation => {
                AppError::ConstraintViolation
            },
            StoreFault::RowUnreadable | StoreFault::ValueUnwritable => AppError::SerializationError,
            StoreFault::ConnectionRefused
            | StoreFault::ConnectionClosed
            | StoreFault::CommandNotSent
            | StoreFault::TimedOut
            | StoreFault::Other => AppError::ConnectionError,
        }
    }
}

impl AppError {
    /// Sorts a fault of the store into the four kinds.
    pub fn from_fault(fault: StoreFault) -> (kind: AppError)
        ensures
            kind == fault.kind(),
    {
        match fault {
            StoreFault::RowAbsent => AppError::NotFound,
            StoreFault::UniqueViolation => AppError::ConstraintViolation,
            StoreFault::ForeignKeyViolation => AppError::ConstraintViolation,
            StoreFault::ConnectionRefused => AppError::ConnectionError,
            StoreFault::ConnectionClosed => AppError::ConnectionError,
            StoreFault::CommandNotSent => AppError::ConnectionError,
            StoreFault::TimedOut => AppError::ConnectionError,
            StoreFault::RowUnreadable => AppError::SerializationError,
            StoreFault::ValueUnwritable => AppError::SerializationError,
            StoreFault::Other => AppError::ConnectionError,
        }
    }
}

} // verus!
