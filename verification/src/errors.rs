//! The errors of the library.

use vstd::prelude::*;

verus! {

/// Why a block was refused, or why a collaborator failed.
#[derive(Debug, PartialEq)]
pub enum Error {
    /// The block names a parent that the store does not hold.
    UnknownParentBlock,
    /// The store already holds a block with this hash.
    DuplicateBlock,
    /// The proposer's key could not be used.
    InvalidProposer(String),
    /// The signature does not belong to the block and its proposer.
    InvalidSignature,
    /// A word of the block is not in the dictionary.
    InvalidWordset,
    /// The block does not hold the required number of distinct words.
    InvalidWordsetLength,
    /// An input or output failed.
    StdError(String),
    /// The store failed.
    DBError(String),
    /// Bytes from the wire are no message.
    SerdeError(String),
}

} // verus!
