//! The lifecycle of credits: `Active → Reserved → Consumed | Released`, and
//! `Released → Active`.

use vstd::prelude::*;

verus! {

/// Where credits stand in their lifecycle.
#[derive(Debug, Clone, Copy, PartialEq, Eq, Hash)]
pub enum CreditState {
    /// Free to be reserved.
    Active,
    /// Set aside for one spend.
    Reserved,
    /// Spent for good.
    Consumed,
    /// Given up by a reservation, on the way back to `Active`.
    Released,
}

/// A step that the lifecycle does not have.
#[derive(Debug, Clone, Copy, PartialEq, Eq, Hash)]
pub struct StateTransitionError {
    pub from: CreditState,
    pub to: CreditState,
}

impl CreditState {
    /// The steps of the lifecycle.
    pub open spec fn may_become(self, to: CreditState) -> bool {
        ||| self is Active && to is Reserved
        ||| self is Reserved && to is Consumed
        ||| self is Reserved && to is Released
        ||| self is Released && to is Active
    }

    /// Takes the step to `to`, where the lifecycle has it.
    pub fn transition(self, to: CreditState) -> (r: Result<CreditState, StateTransitionError>)
        ensures
            r == if self.may_become(to) {
                Ok::<CreditState, StateTransitionError>(to)
            } else {
                Err::<CreditState, StateTransitionError>(StateTransitionError { from: self, to })
            },
    {
        match (self, to) {
            (CreditState::Active, CreditState::Reserved)
            | (CreditState::Reserved, CreditState::Consumed)
            | (CreditState::Reserved, CreditState::Released)
            | (CreditState::Released, CreditState::Active) => Ok(to),
            _ => Err(StateTransitionError { from: self, to }),
        }
    }
}

} // verus!
