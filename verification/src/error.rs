//! The error of the hardware message encoder.

use vstd::prelude::*;

verus! {

#[derive(Debug, PartialEq, Eq, Clone, Copy)]
pub enum Error {
    /// The buffer holds the first number of bytes; the message needs the
    /// second.
    BufferTooSmall(usize, usize),
}

} // verus!
