//! The interface of a store that takes the rows of a read.

use vstd::prelude::*;
use crate::error::GenericError;

verus! {

/// A store that saves rows one by one.
pub trait Database {
    /// Saves one row, given as JSON text.
    fn save_row(&mut self, row: &str) -> Result<(), GenericError>;
}

} // verus!
