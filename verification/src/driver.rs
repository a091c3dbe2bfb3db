use vstd::prelude::*;

verus! {

/// The driver framework: every driver the kernel manages implements this.
pub trait Driver {
    /// Brings the device up; `Err` carries a message on failure.
    fn init(&mut self) -> Result<(), &'static str>;

    /// The driver's name, for logging.
    fn name(&self) -> &'static str;

    /// Handles a hardware interrupt meant for this driver.
    fn handle_interrupt(&mut self);
}

} // verus!
