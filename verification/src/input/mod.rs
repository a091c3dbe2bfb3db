use vstd::prelude::*;

pub mod keyboard;
pub mod mouse;

verus! {

/// Starts bringing up the input devices: the PS/2 mouse.
pub fn init() -> (m: mouse::MouseInit)
    ensures
        m.wf(),
        m.pc() == 0,
        m.polls() == 0,
        !m.asked(),
        m.config() == 0,
{
    mouse::MouseInit::new()
}

} // verus!
