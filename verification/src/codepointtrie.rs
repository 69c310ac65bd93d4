//! The error type of the code-point-trie collection that serves
//! per-code-point property data.

use vstd::prelude::*;

verus! {

/// The error a code-point trie cannot be built from.
#[derive(Copy, Clone, Debug, PartialEq, Eq)]
pub enum Error {
    /// Deserialized values that no trie can be constructed from.
    FromDeserialized {
        /// Why the values are unusable.
        reason: &'static str,
    },
    /// A data vector with no element at all.
    EmptyDataVector,
}

} // verus!
