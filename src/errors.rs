//! Errors of FXT parsing.
use vstd::prelude::*;

verus! {

/// A fatal condition met while parsing an FXT resource.
#[derive(Debug, Clone, Copy, PartialEq, Eq, Structural)]
pub enum FXTError {
    /// A null byte outside a value; carries the position just after it.
    UnexpectedNullByte(usize),
}

/// Errors of the command-line front end.
#[derive(Debug, Clone, Copy, PartialEq, Eq, Structural)]
pub enum RNCError {
    InvalidArguments,
}

impl RNCError {
    /// The text shown to the user for this error.
    pub fn message(&self) -> (r: String)
        ensures
            r@ == (match self {
                RNCError::InvalidArguments => "Invalid arguments!\n\nUsage: car-dump <car_file>"@,
            }),
    {
        match self {
            RNCError::InvalidArguments => "Invalid arguments!\n\nUsage: car-dump <car_file>".to_owned(),
        }
    }
}

} // verus!
