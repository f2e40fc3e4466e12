//! Why a running block handed control back.

use vstd::prelude::*;

verus! {

/// The reason a block suspended, written by emitted code just before it
/// jumps back and read by the engine just after.
#[derive(Debug, Clone, Copy, PartialEq, Eq, Structural)]
pub enum Interruption {
    /// The block ran to its end.
    Empty,
    /// The block wants to go on at the given guest address.
    PrepareJump(u64),
}

impl Interruption {
    /// The tag that emitted code writes into the first byte of the slot.
    pub open spec fn tag(self) -> u8 {
        match self {
            Interruption::Empty => 0,
            Interruption::PrepareJump(_) => 1,
        }
    }

    pub fn discriminant(&self) -> (t: u8)
        ensures
            t == self.tag(),
    {
        match self {
            Interruption::Empty => 0,
            Interruption::PrepareJump(_) => 1,
        }
    }

    /// Consumes the interruption: the slot is empty afterwards.
    #[must_use]
    pub fn take(&mut self) -> (taken: Interruption)
        ensures
            taken == *old(self),
            *final(self) == Interruption::Empty,
    {
        let taken = *self;
        *self = Interruption::Empty;
        taken
    }
}

} // verus!
