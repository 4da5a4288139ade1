//! Function codes of the 68000 address spaces, as stacked in fault frames.

use vstd::prelude::*;

verus! {

/// User-data address space.
pub const USER_DATA: u16 = 1;
/// User-program address space.
pub const USER_PROGRAM: u16 = 2;
/// Supervisor-data address space.
pub const SUPERVISOR_DATA: u16 = 5;
/// Supervisor-program address space.
pub const SUPERVISOR_PROGRAM: u16 = 6;

} // verus!
