//! The four lifecycle states and the rule that derives the effective state
//! from the stored tag, the custody balance and the clock.

use vstd::prelude::*;

verus! {

/// Lifecycle state of a project.
///
/// `Funding → Annotating → Success` is the path of a funded project;
/// `Funding → Expired` is the path of one whose deadline passed unmet.
#[derive(Clone, Copy, PartialEq, Eq, Structural, Debug)]
pub enum State {
    Funding,
    Annotating,
    Success,
    Expired,
}

impl State {
    /// The number under which the state is stored and reported:
    /// 0 = Funding, 1 = Annotating, 2 = Success, 3 = Expired.
    pub open spec fn spec_ordinal(self) -> u32 {
        match self {
            State::Funding => 0u32,
            State::Annotating => 1u32,
            State::Success => 2u32,
            State::Expired => 3u32,
        }
    }

    /// The state stored under a number, if there is one.
    pub open spec fn spec_from_ordinal(n: u32) -> Option<State> {
        if n == 0 {
            Some(State::Funding)
        } else if n == 1 {
            Some(State::Annotating)
        } else if n == 2 {
            Some(State::Success)
        } else if n == 3 {
            Some(State::Expired)
        } else {
            None
        }
    }

    /// The number under which the state is stored and reported.
    #[verifier::when_used_as_spec(spec_ordinal)]
    pub fn ordinal(self) -> (n: u32)
        ensures
            n == self.spec_ordinal(),
            n <= 3,
    {
        match self {
            State::Funding => 0u32,
            State::Annotating => 1u32,
            State::Success => 2u32,
            State::Expired => 3u32,
        }
    }

    /// Reads a stored ordinal back; `None` for a number that names no state.
    #[verifier::when_used_as_spec(spec_from_ordinal)]
    pub fn from_ordinal(n: u32) -> (s: Option<State>)
        ensures
            s == State::spec_from_ordinal(n),
            s is Some <==> n <= 3,
    {
        if n == 0 {
            Some(State::Funding)
        } else if n == 1 {
            Some(State::Annotating)
        } else if n == 2 {
            Some(State::Success)
        } else if n == 3 {
            Some(State::Expired)
        } else {
            None
        }
    }
}

/// The funding rules: a project that is still `Funding` opens the annotation
/// market once custody has reached the target, and otherwise expires once the
/// deadline has passed. Reaching the target takes precedence over the deadline.
/// Every other state is left as it is.
pub open spec fn settle_funding(
    stored: State,
    deadline: u64,
    custody: int,
    target: int,
    now: u64,
) -> State {
    if stored == State::Funding {
        if custody >= target {
            State::Annotating
        } else if now > deadline {
            State::Expired
        } else {
            State::Funding
        }
    } else {
        stored
    }
}

/// The payout rule: an `Annotating` project whose escrow is used up (custody
/// below one unit) has succeeded.
pub open spec fn settle_escrow(state: State, custody: int) -> State {
    if state == State::Annotating && custody < 1 {
        State::Success
    } else {
        state
    }
}

/// The effective state of a project: the funding rules applied to the stored
/// tag, then the payout rule applied to what they gave.
pub open spec fn effective_state(
    stored: State,
    deadline: u64,
    custody: int,
    target: int,
    now: u64,
) -> State {
    settle_escrow(settle_funding(stored, deadline, custody, target, now), custody)
}

/// Computes the effective state from the stored facts and the current time.
pub fn derive_state(stored: State, deadline: u64, custody: i128, target: i128, now: u64) -> (s:
    State)
    ensures
        s == effective_state(stored, deadline, custody as int, target as int, now),
{
    let funded = match stored {
        State::Funding => {
            if custody >= target {
                State::Annotating
            } else if now > deadline {
                State::Expired
            } else {
                State::Funding
            }
        },
        other => other,
    };
    match funded {
        State::Annotating => {
            if custody < 1 {
                State::Success
            } else {
                State::Annotating
            }
        },
        other => other,
    }
}

/// Deriving the state again from what was derived, with the same balance and
/// clock, changes nothing.
pub proof fn law_derivation_idempotent(
    stored: State,
    deadline: u64,
    custody: int,
    target: int,
    now: u64,
)
    ensures
        effective_state(
            effective_state(stored, deadline, custody, target, now),
            deadline,
            custody,
            target,
            now,
        ) == effective_state(stored, deadline, custody, target, now),
{
}

/// `Expired` and `Success` are final: no balance and no time leads out of them.
pub proof fn law_final_states_stay(
    stored: State,
    deadline: u64,
    custody: int,
    target: int,
    now: u64,
)
    requires
        stored == State::Expired || stored == State::Success,
    ensures
        effective_state(stored, deadline, custody, target, now) == stored,
{
}

/// Only a project stored as `Funding` can be observed as `Funding`, and only a
/// project stored as `Funding` can be observed as `Expired` without having been
/// stored so.
pub proof fn law_state_origin(
    stored: State,
    deadline: u64,
    custody: int,
    target: int,
    now: u64,
)
    ensures
        effective_state(stored, deadline, custody, target, now) == State::Funding ==> stored
            == State::Funding && custody < target && now <= deadline,
        effective_state(stored, deadline, custody, target, now) == State::Expired ==> stored
            == State::Expired || (stored == State::Funding && custody < target && now > deadline),
        effective_state(stored, deadline, custody, target, now) == State::Annotating ==> custody
            >= 1,
{
}

} // verus!
