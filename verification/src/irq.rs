//! The two-bit state of a virtual interrupt.

use vstd::prelude::*;

verus! {

/// State of an interrupt: bit 0 is the pending bit, bit 1 the active bit, as
/// in the state field of a list register.
#[derive(Clone, Copy, Debug, PartialEq, Eq, Structural)]
pub enum IrqState {
    IrqSInactive,
    IrqSPend,
    IrqSActive,
    IrqSPendActive,
}

impl IrqState {
    /// Whether the pending bit is set.
    pub open spec fn pending(self) -> bool {
        self is IrqSPend || self is IrqSPendActive
    }

    /// Whether the active bit is set.
    pub open spec fn active(self) -> bool {
        self is IrqSActive || self is IrqSPendActive
    }

    /// The state with the given two bits.
    pub open spec fn from_bits(pending: bool, active: bool) -> IrqState {
        if active {
            if pending {
                IrqState::IrqSPendActive
            } else {
                IrqState::IrqSActive
            }
        } else {
            if pending {
                IrqState::IrqSPend
            } else {
                IrqState::IrqSInactive
            }
        }
    }

    /// This state with the pending bit replaced.
    pub open spec fn with_pending(self, pending: bool) -> IrqState {
        Self::from_bits(pending, self.active())
    }

    /// This state with the active bit replaced.
    pub open spec fn with_active(self, active: bool) -> IrqState {
        Self::from_bits(self.pending(), active)
    }

    /// The numeric encoding: pending bit plus twice the active bit.
    pub open spec fn spec_to_num(self) -> usize {
        ((if self.pending() { 1int } else { 0int }) + (if self.active() { 2int } else { 0int })) as usize
    }

    /// The state that a number in `0..4` encodes.
    pub open spec fn spec_num_to_state(num: usize) -> IrqState {
        Self::from_bits(num % 2 == 1, num / 2 == 1)
    }

    /// Decodes a state number.
    pub fn num_to_state(num: usize) -> (s: IrqState)
        requires
            num <= 3,
        ensures
            s == Self::spec_num_to_state(num),
            s.spec_to_num() == num,
    {
        if num == 0 {
            IrqState::IrqSInactive
        } else if num == 1 {
            IrqState::IrqSPend
        } else if num == 2 {
            IrqState::IrqSActive
        } else {
            IrqState::IrqSPendActive
        }
    }

    /// Encodes the state as a number in `0..4`.
    #[verifier::when_used_as_spec(spec_to_num)]
    pub fn to_num(self) -> (n: usize)
        ensures
            n == self.spec_to_num(),
            n <= 3,
            Self::spec_num_to_state(n) == self,
    {
        match self {
            IrqState::IrqSInactive => 0,
            IrqState::IrqSPend => 1,
            IrqState::IrqSActive => 2,
            IrqState::IrqSPendActive => 3,
        }
    }

    /// Reads the pending bit.
    #[verifier::when_used_as_spec(pending)]
    pub fn is_pending(self) -> (b: bool)
        ensures
            b == self.pending(),
    {
        match self {
            IrqState::IrqSPend | IrqState::IrqSPendActive => true,
            _ => false,
        }
    }

    /// Reads the active bit.
    #[verifier::when_used_as_spec(active)]
    pub fn is_active(self) -> (b: bool)
        ensures
            b == self.active(),
    {
        match self {
            IrqState::IrqSActive | IrqState::IrqSPendActive => true,
            _ => false,
        }
    }

    /// Builds the state with the given two bits.
    #[verifier::when_used_as_spec(from_bits)]
    pub fn of_bits(pending: bool, active: bool) -> (s: IrqState)
        ensures
            s == Self::from_bits(pending, active),
            s.pending() == pending,
            s.active() == active,
    {
        if active {
            if pending {
                IrqState::IrqSPendActive
            } else {
                IrqState::IrqSActive
            }
        } else {
            if pending {
                IrqState::IrqSPend
            } else {
                IrqState::IrqSInactive
            }
        }
    }
}

} // verus!
