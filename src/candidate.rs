use vstd::prelude::*;

verus! {

/// The phase of an election. Phases only move forward:
/// `Preparation`, then `Progress`, then `End`.
#[derive(Clone, Copy, Debug, PartialEq, Eq, Structural)]
pub enum Status {
    Preparation,
    Progress,
    End,
}

impl Status {
    /// Position of the phase in the forward order.
    pub open spec fn rank(self) -> nat {
        match self {
            Status::Preparation => 0,
            Status::Progress => 1,
            Status::End => 2,
        }
    }
}

/// Why an operation on an election was refused.
#[derive(Clone, Copy, Debug, PartialEq, Eq, Structural)]
pub enum ElectionError {
    /// A candidate with the same symbol is already registered.
    DuplicateCandidate,
    /// The election is not in the phase that the operation needs.
    PhaseError,
    /// No candidate has the given symbol.
    CandidateNotFound,
    /// The winner has been computed; no more votes are taken.
    ElectionClosed,
}

/// A registered candidate and the votes it has received.
pub struct Candidate {
    pub symbol: String,
    pub votes: u64,
}

/// The mathematical content of a candidate.
pub struct CandidateView {
    pub symbol: Seq<char>,
    pub votes: nat,
}

impl View for Candidate {
    type V = CandidateView;

    open spec fn view(&self) -> CandidateView {
        CandidateView { symbol: self.symbol@, votes: self.votes as nat }
    }
}

impl Candidate {
    /// A fresh candidate with no votes.
    pub fn new(symbol: String) -> (c: Candidate)
        ensures
            c.symbol == symbol,
            c.votes == 0,
    {
        Candidate { symbol, votes: 0 }
    }

    /// Records one more vote for this candidate.
    pub fn obtain_vote(&mut self)
        requires
            old(self).votes < u64::MAX,
        ensures
            final(self).symbol == old(self).symbol,
            final(self).votes == old(self).votes + 1,
    {
        self.votes = self.votes + 1;
    }
}

} // verus!
