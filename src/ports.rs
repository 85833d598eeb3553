//! Finding a free local port.

use vstd::prelude::*;

verus! {

/// The port at which the search stops, itself never tried.
pub const PORT_SEARCH_END: u16 = 65535;

/// Why no port was found.
#[derive(Debug, Clone, Copy, PartialEq, Eq, Structural)]
pub enum PortError {
    /// Every port from the start up to the end of the search was taken.
    NoAvailablePort,
}

/// The first port from `start` (up to, not including, 65535) that
/// `check_port` reports free. Each port is tried once, in increasing order.
pub fn get_available_port<F: Fn(u16) -> bool>(start: u16, check_port: F) -> (r: Result<u16, PortError>)
    requires
        forall|p: u16| #[trigger] check_port.requires((p,)),
    ensures
        r matches Ok(p) ==> start <= p < PORT_SEARCH_END && check_port.ensures((p,), true) && (
        forall|q: u16| start <= q < p ==> #[trigger] check_port.ensures((q,), false)),
        r is Err ==> forall|q: u16|
            start <= q < PORT_SEARCH_END ==> #[trigger] check_port.ensures((q,), false),
{
    let mut port: u16 = start;
    while port < PORT_SEARCH_END
        invariant
            forall|p: u16| #[trigger] check_port.requires((p,)),
            start <= port,
            forall|q: u16| start <= q < port ==> #[trigger] check_port.ensures((q,), false),
        decreases PORT_SEARCH_END - port,
    {
        if check_port(port) {
            return Ok(port);
        }
        port += 1;
    }
    Err(PortError::NoAvailablePort)
}

} // verus!
