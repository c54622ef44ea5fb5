//! The generic emulator.  It follows the CoreWar standards step by step and
//! takes its core size and the other settings at run time.

use crate::emulator_core::{CoreAddr, EmulatorError, EmulatorResult, ErrorKind};
use crate::relaxed_redcode::reduce;
use vstd::arithmetic::div_mod::lemma_add_mod_noop;
use vstd::prelude::*;

pub mod bytecode;
pub mod dispatch;
pub mod emulation_operations;
pub mod operands;
pub mod processes;
pub mod pspace;

verus! {

/// `initial` moved by `delta` cells in a circular core of `size` cells.
pub open spec fn spec_offset(initial: int, delta: int, size: int) -> int {
    (initial + delta) % size
}

/// Evaluate `initial + delta` in the arithmetic of a core of `size` cells.
///
/// The delta may be negative and of any magnitude.  The only failure is a
/// core without cells.
pub fn offset(initial: CoreAddr, delta: i64, size: CoreAddr) -> (r: EmulatorResult<CoreAddr>)
    ensures
        size == 0 ==> (r matches Err(e) && e.kind() == ErrorKind::InternalError),
        size > 0 ==> r == Ok::<CoreAddr, EmulatorError>(
            spec_offset(initial as int, delta as int, size as int) as u32,
        ),
        r matches Ok(v) ==> v < size,
{
    if size == 0 {
        return Err(EmulatorError::InternalError("a core without cells has no addresses"));
    }
    let n: u64 = size as u64;
    let normalized: u64 = reduce(delta, size) as u64;
    let sum: u64 = (initial as u64) % n + normalized;
    let res: u64 = sum % n;
    proof {
        lemma_add_mod_noop(initial as int, delta as int, n as int);
    }
    Ok(res as u32)
}

} // verus!
