//! The interface that userspace device drivers implement.

use vstd::prelude::*;

verus! {

/// A device driver: set up once, then called on every interrupt of its device.
pub trait Driver {
    /// Prepares the device; an error message says why it could not.
    fn init(&mut self) -> Result<(), &'static str>;

    /// Services one interrupt of the device.
    fn handle_interrupt(&mut self);
}

} // verus!
