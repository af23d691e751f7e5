//! The reputation contract: one point per repaid loan, one off per slash.

use crate::address::Address;
use crate::env::State;
use crate::errors::{Failure, Trap};
use crate::table::Table;
use vstd::prelude::*;

verus! {

/// Storage of the reputation contract.
pub struct ReputationEnv {
    /// Address authorised to mint and burn (the lending contract).
    pub minter: Option<Address>,
    /// Borrower to reputation score.
    pub scores: Table<Address, u32>,
}

/// The mathematical view of [`ReputationEnv`].
#[verifier::ext_equal]
pub struct ReputationState {
    pub minter: Option<Address>,
    pub scores: Map<Address, u32>,
}

impl View for ReputationEnv {
    type V = ReputationState;

    open spec fn view(&self) -> ReputationState {
        ReputationState { minter: self.minter, scores: self.scores@ }
    }
}

impl ReputationState {
    pub open spec fn score(self, address: Address) -> u32 {
        State::count(self.scores, address)
    }

    pub open spec fn with_score(self, address: Address, score: u32) -> ReputationState {
        ReputationState { scores: self.scores.insert(address, score), ..self }
    }

    pub open spec fn mint_failure(self, to: Address) -> Option<Failure> {
        if self.minter is None {
            Some(Failure::Trap(Trap::NotInitialized))
        } else if self.score(to) == u32::MAX {
            Some(Failure::Trap(Trap::Overflow))
        } else {
            None
        }
    }

    pub open spec fn minted(self, to: Address) -> ReputationState {
        self.with_score(to, (self.score(to) + 1) as u32)
    }

    pub open spec fn burn_failure(self) -> Option<Failure> {
        if self.minter is None {
            Some(Failure::Trap(Trap::NotInitialized))
        } else {
            None
        }
    }

    pub open spec fn burnt(self, from: Address) -> ReputationState {
        self.with_score(
            from,
            if self.score(from) == 0 {
                0
            } else {
                (self.score(from) - 1) as u32
            },
        )
    }

    /// The state after a call: a call that fails leaves everything as it was.
    pub open spec fn unless_failed(
        self,
        failure: Option<Failure>,
        next: ReputationState,
    ) -> ReputationState {
        match failure {
            Some(_) => self,
            None => next,
        }
    }
}

impl ReputationEnv {
    pub fn new() -> (env: ReputationEnv)
        ensures
            env@ == (ReputationState { minter: None, scores: Map::empty() }),
    {
        ReputationEnv { minter: None, scores: Table::new() }
    }
}

/// Keeps the scores.
pub struct ReputationNftContract;

impl ReputationNftContract {
    /// One-time setup: record the authorised minter (the lending contract).
    pub fn initialize(env: &mut ReputationEnv, minter: Address) -> (res: Result<(), Failure>)
        ensures
            ({
                let failure = if old(env)@.minter is Some {
                    Some(Failure::Trap(Trap::AlreadyInitialized))
                } else {
                    None
                };
                &&& res == State::verdict(failure, ())
                &&& final(env)@ == old(env)@.unless_failed(
                    failure,
                    ReputationState { minter: Some(minter), ..old(env)@ },
                )
            }),
    {
        if env.minter.is_some() {
            return Err(Failure::Trap(Trap::AlreadyInitialized));
        }
        env.minter = Some(minter);
        Ok(())
    }

    /// Mint one reputation point to `to`. Only callable by the registered minter, whose
    /// authorisation is required: its address is returned.
    pub fn mint(env: &mut ReputationEnv, to: Address) -> (res: Result<Address, Failure>)
        ensures
            res == State::verdict(old(env)@.mint_failure(to), old(env)@.minter->0),
            final(env)@ == old(env)@.unless_failed(
                old(env)@.mint_failure(to),
                old(env)@.minted(to),
            ),
    {
        match env.minter {
            None => Err(Failure::Trap(Trap::NotInitialized)),
            Some(minter) => {
                let score: u32 = ReputationNftContract::balance(env, to);
                match score.checked_add(1) {
                    None => Err(Failure::Trap(Trap::Overflow)),
                    Some(next) => {
                        env.scores.insert(to, next);
                        Ok(minter)
                    },
                }
            },
        }
    }

    /// Burn one reputation point from `from` (floor at 0). Only callable by the registered
    /// minter, whose authorisation is required: its address is returned.
    pub fn burn(env: &mut ReputationEnv, from: Address) -> (res: Result<Address, Failure>)
        ensures
            res == State::verdict(old(env)@.burn_failure(), old(env)@.minter->0),
            final(env)@ == old(env)@.unless_failed(
                old(env)@.burn_failure(),
                old(env)@.burnt(from),
            ),
    {
        match env.minter {
            None => Err(Failure::Trap(Trap::NotInitialized)),
            Some(minter) => {
                let score: u32 = ReputationNftContract::balance(env, from);
                env.scores.insert(from, score.saturating_sub(1));
                Ok(minter)
            },
        }
    }

    /// Returns the reputation score for `addr`.
    pub fn balance(env: &ReputationEnv, addr: Address) -> (score: u32)
        ensures
            score == env@.score(addr),
    {
        match env.scores.get(&addr) {
            Some(score) => *score,
            None => 0,
        }
    }
}

} // verus!
