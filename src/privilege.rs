//! Which ports need elevated permission to bind.

use vstd::prelude::*;

verus! {

/// The first port that an unprivileged process may bind.
pub const FIRST_UNPRIVILEGED_PORT: u16 = 1024;

/// A port below 1024 can only be bound with elevated permission.
pub open spec fn is_privileged_port(port: u16) -> bool {
    port < FIRST_UNPRIVILEGED_PORT
}

/// Whether binding every port of `ports` needs elevated permission for at
/// least one of them.
pub fn needs_privilege(ports: &[u16]) -> (r: bool)
    ensures
        r == exists|i: int| 0 <= i < ports@.len() && is_privileged_port(#[trigger] ports@[i]),
{
    let mut i: usize = 0;
    while i < ports.len()
        invariant
            0 <= i <= ports@.len(),
            forall|j: int| 0 <= j < i ==> !is_privileged_port(#[trigger] ports@[j]),
        decreases ports@.len() - i,
    {
        if ports[i] < FIRST_UNPRIVILEGED_PORT {
            return true;
        }
        i += 1;
    }
    false
}

} // verus!
