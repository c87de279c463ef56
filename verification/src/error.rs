//! The single failure kind of the codecs.

use vstd::prelude::*;

verus! {

/// Decoding failed because the input ended before the required number of
/// bytes could be read.  It is the only way a decode can fail.
#[derive(Debug, Clone, Copy, PartialEq, Eq, Structural)]
pub enum PackError {
    SizeError,
}

} // verus!
