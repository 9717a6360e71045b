//! Decision windows of the match log: what a player could do at a moment and what they did.
//!
//! Passing is always an explicit offer. Reaction and robbery windows offer it; turn windows
//! never do, since a turn ends in a discard or declaration.

use vstd::prelude::*;

verus! {

/// Phase of a decision window.
#[derive(Debug, Clone, Copy, PartialEq, Eq, Hash, Structural)]
pub enum WindowPhase {
    /// Own turn after drawing: discard, or declare tsumo / kyuushu kyuuhai / kan /
    /// nukidora / riichi. No `PassAll`.
    Turn,
    /// Response window after another player's discard (chi / pon / open kan / ron / pass).
    Reaction,
    /// Robbing window after a kan or nukidora (chankan / robbing North / pass).
    Robbery,
}

impl WindowPhase {
    pub open spec fn spec_requires_pass_option(self) -> bool {
        self == WindowPhase::Reaction || self == WindowPhase::Robbery
    }

    /// Whether a pass must be among the offers of this phase.
    #[verifier::when_used_as_spec(spec_requires_pass_option)]
    pub fn requires_pass_option(self) -> (r: bool)
        ensures
            r == self.requires_pass_option(),
    {
        matches!(self, WindowPhase::Reaction | WindowPhase::Robbery)
    }
}

/// A decision window.
///
/// `A` is the action type.
#[derive(Debug, PartialEq, Eq)]
pub struct DecisionWindow<A> {
    /// Monotonic within a hand. 
    pub window_id: u64,
    pub seat: u8,
    pub phase: WindowPhase,
    /// Match log event cursor when the window opens: the number of match log events
    /// so far
    pub anchor_seq: u64,
    /// Offered actions.
    pub offers: Vec<A>,
    /// Required. Equals the `action_id` of one entry in `offers`; passing is expressed by
    /// pointing at `PassAll`. 
    pub chosen: usize,
}

impl<A> DecisionWindow<A> {
    /// Whether `chosen` is within the index range of `offers`.
    pub fn chosen_in_range(&self) -> (r: bool)
        ensures
            r == (self.chosen < self.offers@.len()),
    {
        self.chosen < self.offers.len()
    }
}

} // verus!
