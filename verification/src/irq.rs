//! Interrupt-controller glue, as data.
//!
//! Acknowledging an interrupt means writing the end-of-interrupt command to
//! both programmable interrupt controllers. The write itself is port I/O and
//! runs outside this crate; here is the decision of what to write where.

use vstd::prelude::*;

verus! {

/// Command port of the primary interrupt controller.
pub const PIC_PRIMARY_COMMAND_PORT: u16 = 0x20;

/// Command port of the secondary interrupt controller.
pub const PIC_SECONDARY_COMMAND_PORT: u16 = 0xA0;

/// The end-of-interrupt command byte.
pub const PIC_EOI: u8 = 0x20;

/// One write to an I/O port.
#[derive(Clone, Copy, Debug, PartialEq, Eq, Structural)]
pub struct PortWrite {
    /// The port written to.
    pub port: u16,
    /// The byte written.
    pub value: u8,
}

/// The writes that acknowledge an interrupt: the end-of-interrupt command to
/// the primary controller, then to the secondary one.
pub fn _pic_eoi() -> (ops: Vec<PortWrite>)
    ensures
        ops@ =~= seq![
            PortWrite { port: PIC_PRIMARY_COMMAND_PORT, value: PIC_EOI },
            PortWrite { port: PIC_SECONDARY_COMMAND_PORT, value: PIC_EOI },
        ],
{
    let mut ops: Vec<PortWrite> = Vec::new();
    ops.push(PortWrite { port: PIC_PRIMARY_COMMAND_PORT, value: PIC_EOI });
    ops.push(PortWrite { port: PIC_SECONDARY_COMMAND_PORT, value: PIC_EOI });
    ops
}

} // verus!
