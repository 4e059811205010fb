//! Keeps the set of channel orders closed.

use vstd::prelude::*;

verus! {

/// Implemented by the channel orders of this crate and by nothing else.
pub trait Sealed {
}

} // verus!
