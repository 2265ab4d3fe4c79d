//! The build's configuration: which of the three trap vectors it selects.

use vstd::prelude::*;
use crate::registers::FrameLayout;

verus! {

/// The three ways in which the trap vector can be built.  A build selects
/// exactly one.
#[derive(Clone, Copy, Debug, PartialEq, Eq, Structural)]
pub enum TrapVariant {
    /// No interrupt support: every trap restarts the system.
    Bare,
    /// Interrupt support with every saved register on the stack.
    Full,
    /// Interrupt support with `ra` and `sp` held in scratch registers.
    Compact,
}

impl TrapVariant {
    /// The variant that a choice of the two build switches stands for.
    pub open spec fn select_spec(interrupts: bool, scratch_registers: bool) -> Option<
        TrapVariant,
    > {
        if scratch_registers {
            if interrupts {
                Some(TrapVariant::Compact)
            } else {
                None
            }
        } else if interrupts {
            Some(TrapVariant::Full)
        } else {
            Some(TrapVariant::Bare)
        }
    }

    /// Selects the variant from the two build switches: whether interrupts
    /// are supported, and whether `ra` and `sp` are kept in scratch
    /// registers.  The second needs the first: without it there is no
    /// variant to select.
    pub fn select(interrupts: bool, scratch_registers: bool) -> (variant: Option<TrapVariant>)
        ensures
            variant == Self::select_spec(interrupts, scratch_registers),
    {
        if scratch_registers {
            if interrupts {
                Some(TrapVariant::Compact)
            } else {
                None
            }
        } else if interrupts {
            Some(TrapVariant::Full)
        } else {
            Some(TrapVariant::Bare)
        }
    }

    /// The layout in which the variant saves registers, if it saves any.
    pub open spec fn layout_spec(&self) -> Option<FrameLayout> {
        match *self {
            TrapVariant::Bare => None,
            TrapVariant::Full => Some(FrameLayout::Full),
            TrapVariant::Compact => Some(FrameLayout::Compact),
        }
    }

    /// The layout in which the variant saves registers, if it saves any.
    pub fn layout(&self) -> (layout: Option<FrameLayout>)
        ensures
            layout == self.layout_spec(),
    {
        match *self {
            TrapVariant::Bare => None,
            TrapVariant::Full => Some(FrameLayout::Full),
            TrapVariant::Compact => Some(FrameLayout::Compact),
        }
    }

    /// Tells whether the variant supports interrupts.
    pub fn interrupts_configured(&self) -> (configured: bool)
        ensures
            configured == (*self != TrapVariant::Bare),
    {
        match *self {
            TrapVariant::Bare => false,
            _ => true,
        }
    }
}

} // verus!
