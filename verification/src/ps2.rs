//! PS/2 controller interaction, as data.
//!
//! Talking to the controller means writing bytes to port `0x60` (data) or
//! `0x64` (command), reading port `0x60`, and polling the status register at
//! port `0x64`. Port I/O itself cannot run here; these functions compute which
//! operation to perform, and the runtime that owns the ports carries each
//! [`Ps2Op`] out in order.

use vstd::prelude::*;

verus! {

/// The PS/2 data port.
pub const PS2_DATA_PORT: u16 = 0x60;

/// The PS/2 command/status port.
pub const PS2_COMMAND_PORT: u16 = 0x64;

/// One operation on the PS/2 controller's ports.
#[derive(Clone, Copy, Debug, PartialEq, Eq, Structural)]
pub enum Ps2Op {
    /// Write a byte to the data port `0x60`.
    WriteData(u8),
    /// Write a byte to the command port `0x64`.
    WriteCommand(u8),
    /// Read a byte from the data port `0x60`.
    ReadData,
}

/// The operation that sends `data` to the controller's data port.
pub fn send_data(data: u8) -> (op: Ps2Op)
    ensures
        op == Ps2Op::WriteData(data),
{
    Ps2Op::WriteData(data)
}

/// The operation that reads the controller's data port.
pub fn read_ps2() -> (op: Ps2Op)
    ensures
        op == Ps2Op::ReadData,
{
    Ps2Op::ReadData
}

/// The operation that sends the command `cmd` to the controller.
pub fn send_ps2(cmd: u8) -> (op: Ps2Op)
    ensures
        op == Ps2Op::WriteCommand(cmd),
{
    Ps2Op::WriteCommand(cmd)
}

/// Whether a status-register value says the controller's input buffer is
/// clear, so a new byte may be written to it. Polling loops wait for this bit
/// (bit 1) to drop.
pub fn input_buffer_clear(status: u8) -> (r: bool)
    ensures
        r == (status & 2 == 0),
{
    status & 2 == 0
}

/// Whether a status-register value says the controller's output buffer holds
/// a byte for us. Polling loops wait for this bit (bit 0) to rise.
pub fn output_buffer_full(status: u8) -> (r: bool)
    ensures
        r == (status & 1 == 1),
{
    status & 1 == 1
}

} // verus!
