//! The A20-gate enablement policy, as a state machine.
//!
//! Enabling the A20 line takes BIOS calls, keyboard-controller commands and
//! port writes that cannot run here. What can be verified is the policy: in
//! which order the methods are tried, when the line counts as enabled, and
//! which bytes the keyboard-controller sequence sends. A runtime drives the
//! machine: it performs each returned action, re-checks the line, and feeds
//! the result back into [`enable_a20`].

use vstd::prelude::*;

use crate::ps2::Ps2Op;

verus! {

/// How far the enablement has come.
#[derive(Clone, Copy, Debug, PartialEq, Eq, Structural)]
pub enum A20Stage {
    /// Nothing tried yet beyond the initial line check.
    Initial,
    /// The BIOS interrupt was tried.
    BiosTried,
    /// The keyboard-controller sequence was tried.
    KeyboardTried,
    /// The fast gate at port `0x92` was tried.
    FastGateTried,
    /// The line is enabled; terminal.
    Enabled,
    /// Every method failed; terminal.
    Failed,
}

/// What the runtime is asked to do next.
#[derive(Clone, Copy, Debug, PartialEq, Eq, Structural)]
pub enum A20Action {
    /// Issue the BIOS A20-enable interrupt.
    RunBios,
    /// Drive the keyboard-controller sequence of
    /// [`kb_enable_preamble`] and [`kb_enable_epilogue`].
    RunKeyboard,
    /// Set the enable bit on system-control port A (the fast gate).
    RunFastGate,
}

/// The transition table: after each failed check the next method in the
/// order BIOS, keyboard controller, fast gate is tried; a passed check is
/// terminal success, and a failed check after the last method is terminal
/// failure.
pub open spec fn spec_enable_a20_step(stage: A20Stage, line_enabled: bool) -> (
    A20Stage,
    Option<A20Action>,
) {
    match stage {
        A20Stage::Initial => if line_enabled {
            (A20Stage::Enabled, None)
        } else {
            (A20Stage::BiosTried, Some(A20Action::RunBios))
        },
        A20Stage::BiosTried => if line_enabled {
            (A20Stage::Enabled, None)
        } else {
            (A20Stage::KeyboardTried, Some(A20Action::RunKeyboard))
        },
        A20Stage::KeyboardTried => if line_enabled {
            (A20Stage::Enabled, None)
        } else {
            (A20Stage::FastGateTried, Some(A20Action::RunFastGate))
        },
        A20Stage::FastGateTried => if line_enabled {
            (A20Stage::Enabled, None)
        } else {
            (A20Stage::Failed, None)
        },
        A20Stage::Enabled => (A20Stage::Enabled, None),
        A20Stage::Failed => (A20Stage::Failed, None),
    }
}

/// One decision step of the A20 enablement: given how far things have come
/// and whether the line checks as enabled right now, says what state that
/// amounts to and what to try next, per [`spec_enable_a20_step`].
pub fn enable_a20(stage: A20Stage, line_enabled: bool) -> (r: (A20Stage, Option<A20Action>))
    ensures
        r == spec_enable_a20_step(stage, line_enabled),
{
    match stage {
        A20Stage::Initial => if line_enabled {
            (A20Stage::Enabled, None)
        } else {
            (A20Stage::BiosTried, Some(A20Action::RunBios))
        },
        A20Stage::BiosTried => if line_enabled {
            (A20Stage::Enabled, None)
        } else {
            (A20Stage::KeyboardTried, Some(A20Action::RunKeyboard))
        },
        A20Stage::KeyboardTried => if line_enabled {
            (A20Stage::Enabled, None)
        } else {
            (A20Stage::FastGateTried, Some(A20Action::RunFastGate))
        },
        A20Stage::FastGateTried => if line_enabled {
            (A20Stage::Enabled, None)
        } else {
            (A20Stage::Failed, None)
        },
        A20Stage::Enabled => (A20Stage::Enabled, None),
        A20Stage::Failed => (A20Stage::Failed, None),
    }
}

/// Whether a stage is terminal: the driver loop stops there.
pub open spec fn spec_a20_terminal(stage: A20Stage) -> bool {
    stage == A20Stage::Enabled || stage == A20Stage::Failed
}

/// How many steps a stage can still take before the machine must stop.
pub open spec fn spec_a20_measure(stage: A20Stage) -> nat {
    match stage {
        A20Stage::Initial => 4,
        A20Stage::BiosTried => 3,
        A20Stage::KeyboardTried => 2,
        A20Stage::FastGateTried => 1,
        A20Stage::Enabled => 0,
        A20Stage::Failed => 0,
    }
}

/// Law: the enablement machine halts — every step out of a non-terminal
/// stage strictly shrinks the measure, so a driver loop over
/// [`enable_a20`] takes at most four steps.
pub proof fn lemma_a20_terminates(stage: A20Stage, line_enabled: bool)
    requires
        !spec_a20_terminal(stage),
    ensures
        spec_a20_measure(spec_enable_a20_step(stage, line_enabled).0) < spec_a20_measure(stage),
{
}

/// Law: the machine answers `Enabled` only on a passed line check, and asks
/// for an action only out of a non-terminal stage that checked as disabled.
pub proof fn lemma_a20_sound(stage: A20Stage, line_enabled: bool)
    ensures
        spec_enable_a20_step(stage, line_enabled).0 == A20Stage::Enabled ==> (line_enabled || stage
            == A20Stage::Enabled),
        spec_enable_a20_step(stage, line_enabled).1 is Some ==> (!line_enabled
            && !spec_a20_terminal(stage)),
{
}

/// The keyboard-controller commands that precede the read of the controller
/// output port: disable the keyboard, then ask for the output port.
pub fn kb_enable_preamble() -> (ops: Vec<Ps2Op>)
    ensures
        ops@ =~= seq![
            Ps2Op::WriteCommand(0xAD),
            Ps2Op::WriteCommand(0xD0),
            Ps2Op::ReadData,
        ],
{
    let mut ops: Vec<Ps2Op> = Vec::new();
    ops.push(crate::ps2::send_ps2(0xAD));
    ops.push(crate::ps2::send_ps2(0xD0));
    ops.push(crate::ps2::read_ps2());
    ops
}

/// The keyboard-controller commands that follow the read: write the output
/// port back with the A20 bit set, then re-enable the keyboard.
pub fn kb_enable_epilogue(ctrl_output: u8) -> (ops: Vec<Ps2Op>)
    ensures
        ops@ =~= seq![
            Ps2Op::WriteCommand(0xD1),
            Ps2Op::WriteData(ctrl_output | 2),
            Ps2Op::WriteCommand(0xAE),
        ],
{
    let mut ops: Vec<Ps2Op> = Vec::new();
    ops.push(crate::ps2::send_ps2(0xD1));
    ops.push(crate::ps2::send_data(ctrl_output | 2));
    ops.push(crate::ps2::send_ps2(0xAE));
    ops
}

/// The value that enables the A20 line through the fast gate: the current
/// value of system-control port A with bit 1 set.
pub fn fast_gate_enable_value(port_value: u8) -> (r: u8)
    ensures
        r == port_value | 2,
{
    port_value | 2
}

} // verus!
