//! A single election: candidates are registered, voting opens, votes are
//! counted, and a winner is computed exactly once.
//!
//! The election moves through the phases of [`Status`] in one direction only.
//! Every operation either succeeds or reports an [`ElectionError`] and leaves
//! the election unchanged.
//!
//! `model` holds the mathematical view of an election and the outcome of each
//! operation on it; `election` the executable election, whose operations are
//! proved against that view; `laws` what holds across several operations.

mod candidate;
mod election;
mod laws;
mod model;

pub use candidate::{Candidate, CandidateView, ElectionError, Status};
pub use election::{views_of, Election};
pub use laws::{
    law_no_registration_after_opening, law_parts_round_trip, law_phase_forward,
    law_register_distinct, law_register_repeated, law_vote_unregistered, law_winner_once,
    register_each,
};
pub use model::{
    add_vote, distinct_symbols, has_symbol, is_first_max, lemma_winner_at, restore, winner,
    ElectionView,
};
