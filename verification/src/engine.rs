//! The direction of a board's acquisition buffer.

use vstd::prelude::*;

verus! {

/// Whether an acquisition buffer captures input or drives output.
#[derive(Clone, Copy, Debug, PartialEq, Eq, Structural)]
pub enum InterfaceType {
    Input,
    Output,
}

/// The values by which the driver names a board's two subsystems.
#[derive(Clone, Copy, Debug)]
pub struct Subsystems {
    pub input: u32,
    pub output: u32,
}

impl Subsystems {
    /// The subsystem on which a buffer of the given direction is created.
    pub fn of(&self, interface_type: InterfaceType) -> (subsystem: u32)
        ensures
            subsystem == match interface_type {
                InterfaceType::Input => self.input,
                InterfaceType::Output => self.output,
            },
    {
        match interface_type {
            InterfaceType::Input => self.input,
            InterfaceType::Output => self.output,
        }
    }
}

} // verus!
