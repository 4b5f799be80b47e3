//! Core library of a webOS developer command-line suite: device records and
//! their registry, SSH session configuration, file-transfer strategy, Luna bus
//! RPC framing, the interactive shell's control logic, and the IPK packager.

use vstd::prelude::*;

pub mod device;
pub mod install;
pub mod luna;
pub mod packaging;
pub mod quote;
pub mod rx;
pub mod session;
pub mod shell;
pub mod text;
pub mod transfer;

verus! {

/// Sum of two sizes.
pub fn add(left: usize, right: usize) -> (r: usize)
    requires
        left + right <= usize::MAX,
    ensures
        r == left + right,
{
    left + right
}

} // verus!
