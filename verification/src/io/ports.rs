//! I/O ports.

use vstd::prelude::*;

verus! {

/// Number of an I/O port.
pub type Port = u16;

} // verus!
