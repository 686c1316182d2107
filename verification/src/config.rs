//! The signature configuration: which patterns to look for in which module, and how
//! to turn a match into a module-relative offset.

use std::collections::HashMap;

use vstd::prelude::*;

verus! {

/// One step applied to the current address, in order, to turn a pattern match into
/// an offset.
#[derive(Debug, Clone, Copy)]
pub enum Operation {
    /// Adds the specified value to the current address.
    Add { value: usize },
    /// Resolves the absolute address of a RIP-relative address.
    Rip {
        /// The offset of the displacement value (3 when not given).
        offset: Option<usize>,
        /// The total length of the instruction (7 when not given).
        len: Option<usize>,
    },
    /// Reads the value at the current address, treating it as a pointer.
    Read,
    /// Extracts a range of bytes from the current address and interprets them as a
    /// little-endian value.
    Slice { start: usize, end: usize },
    /// Subtracts the specified value from the current address.
    Sub { value: usize },
}

/// The whole configuration: the game's executable name, and the signatures to look
/// for, grouped by module name.
#[derive(Debug)]
pub struct Config {
    pub executable: String,
    pub signatures: Vec<HashMap<String, Vec<Signature>>>,
}

/// A named pattern and the operations that turn its match into an offset.
#[derive(Debug)]
pub struct Signature {
    pub name: String,
    pub pattern: String,
    pub operations: Vec<Operation>,
}

} // verus!
