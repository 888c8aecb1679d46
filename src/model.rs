use vstd::prelude::*;
use crate::candidate::{CandidateView, ElectionError, Status};

verus! {

/// The mathematical content of an election: its candidates in order of
/// registration, and its phase.
pub struct ElectionView {
    pub candidates: Seq<CandidateView>,
    pub status: Status,
}

/// No two candidates share a symbol.
pub open spec fn distinct_symbols(cs: Seq<CandidateView>) -> bool {
    forall|i: int, j: int|
        0 <= i < cs.len() && 0 <= j < cs.len() && i != j ==> #[trigger] cs[i].symbol
            != #[trigger] cs[j].symbol
}

/// Some candidate has symbol `s`.
pub open spec fn has_symbol(cs: Seq<CandidateView>, s: Seq<char>) -> bool {
    exists|i: int| 0 <= i < cs.len() && #[trigger] cs[i].symbol == s
}

/// `k` is the first position at which the largest vote count occurs.
pub open spec fn is_first_max(cs: Seq<CandidateView>, k: int) -> bool {
    &&& 0 <= k < cs.len()
    &&& forall|j: int| 0 <= j < cs.len() ==> #[trigger] cs[j].votes <= cs[k].votes
    &&& forall|j: int| 0 <= j < k ==> #[trigger] cs[j].votes < cs[k].votes
}

/// The symbol of the first candidate, in order of registration, that has the
/// most votes; empty when there are no candidates.
pub open spec fn winner(cs: Seq<CandidateView>) -> Seq<char> {
    if cs.len() == 0 {
        Seq::empty()
    } else {
        cs[choose|k: int| is_first_max(cs, k)].symbol
    }
}

/// The candidates after one vote for `s`: that candidate's count grows by one,
/// every other count stays.
pub open spec fn add_vote(cs: Seq<CandidateView>, s: Seq<char>) -> Seq<CandidateView> {
    cs.map_values(
        |c: CandidateView|
            if c.symbol == s {
                CandidateView { symbol: c.symbol, votes: c.votes + 1 }
            } else {
                c
            },
    )
}

/// The election that a stored list of candidates and a phase describe, if
/// their symbols are distinct.
pub open spec fn restore(cs: Seq<CandidateView>, status: Status) -> Option<ElectionView> {
    if distinct_symbols(cs) {
        Some(ElectionView { candidates: cs, status })
    } else {
        None
    }
}

impl ElectionView {
    /// The election as it is before anything happens.
    pub open spec fn initial() -> ElectionView {
        ElectionView { candidates: Seq::empty(), status: Status::Preparation }
    }

    /// Candidate symbols are pairwise distinct.
    pub open spec fn wf(self) -> bool {
        distinct_symbols(self.candidates)
    }

    pub open spec fn has(self, s: Seq<char>) -> bool {
        has_symbol(self.candidates, s)
    }

    /// A vote for `s` can be counted without leaving the range of `u64`.
    pub open spec fn vote_fits(self, s: Seq<char>) -> bool {
        forall|i: int|
            0 <= i < self.candidates.len() && #[trigger] self.candidates[i].symbol == s
                ==> self.candidates[i].votes < u64::MAX
    }

    /// Outcome of registering `s`.
    pub open spec fn register_outcome(self, s: Seq<char>) -> Result<(), ElectionError> {
        if self.status != Status::Preparation {
            Err(ElectionError::PhaseError)
        } else if self.has(s) {
            Err(ElectionError::DuplicateCandidate)
        } else {
            Ok(())
        }
    }

    /// The election after a successful registration of `s`.
    pub open spec fn registered(self, s: Seq<char>) -> ElectionView {
        ElectionView {
            candidates: self.candidates.push(CandidateView { symbol: s, votes: 0 }),
            status: self.status,
        }
    }

    /// Outcome of opening the vote.
    pub open spec fn open_outcome(self) -> Result<(), ElectionError> {
        if self.status == Status::Preparation {
            Ok(())
        } else {
            Err(ElectionError::PhaseError)
        }
    }

    /// The election after the vote is opened.
    pub open spec fn opened(self) -> ElectionView {
        ElectionView { candidates: self.candidates, status: Status::Progress }
    }

    /// Outcome of a vote for `s`.
    pub open spec fn vote_outcome(self, s: Seq<char>) -> Result<(), ElectionError> {
        if self.status == Status::End {
            Err(ElectionError::ElectionClosed)
        } else if !self.has(s) {
            Err(ElectionError::CandidateNotFound)
        } else {
            Ok(())
        }
    }

    /// The election after a counted vote for `s`; a vote in preparation opens
    /// the election.
    pub open spec fn voted(self, s: Seq<char>) -> ElectionView {
        ElectionView { candidates: add_vote(self.candidates, s), status: Status::Progress }
    }

    /// Outcome of computing the winner.
    pub open spec fn winner_outcome(self) -> Result<Seq<char>, ElectionError> {
        if self.status == Status::Progress {
            Ok(winner(self.candidates))
        } else {
            Err(ElectionError::PhaseError)
        }
    }

    /// The election after the winner is computed.
    pub open spec fn closed(self) -> ElectionView {
        ElectionView { candidates: self.candidates, status: Status::End }
    }
}

/// There is exactly one first position of the largest count in a non-empty
/// list, and `winner` names the candidate there.
pub proof fn lemma_winner_at(cs: Seq<CandidateView>, k: int)
    requires
        is_first_max(cs, k),
    ensures
        winner(cs) == cs[k].symbol,
{
    let c = choose|m: int| is_first_max(cs, m);
    assert(is_first_max(cs, c));
    if c < k {
        assert(cs[c].votes < cs[k].votes);
        assert(cs[k].votes <= cs[c].votes);
    } else if k < c {
        assert(cs[k].votes < cs[c].votes);
        assert(cs[c].votes <= cs[k].votes);
    }
}

} // verus!
