use vstd::prelude::*;
use crate::candidate::{Candidate, CandidateView, ElectionError, Status};
use crate::model::{add_vote, distinct_symbols, is_first_max, lemma_winner_at, restore, ElectionView};

verus! {

/// One election: its candidates in order of registration and its phase.
///
/// Candidate symbols are pairwise distinct (`self@.wf()`); every operation
/// keeps that so.
pub struct Election {
    candidates: Vec<Candidate>,
    status: Status,
}

/// The views of a list of candidates.
pub open spec fn views_of(cs: Seq<Candidate>) -> Seq<CandidateView> {
    cs.map_values(|c: Candidate| c@)
}

impl View for Election {
    type V = ElectionView;

    closed spec fn view(&self) -> ElectionView {
        ElectionView { candidates: views_of(self.candidates@), status: self.status }
    }
}

impl Election {
    /// An election in preparation with no candidates.
    pub fn new() -> (e: Election)
        ensures
            e@ == ElectionView::initial(),
            e@.wf(),
    {
        let e = Election { candidates: Vec::new(), status: Status::Preparation };
        assert(views_of(e.candidates@) =~= Seq::<CandidateView>::empty());
        e
    }

    /// Position of the candidate with symbol `symbol`, if there is one.
    fn position_of(&self, symbol: &String) -> (r: Option<usize>)
        ensures
            match r {
                Some(i) => i < self@.candidates.len() && self@.candidates[i as int].symbol
                    == symbol@,
                None => !self@.has(symbol@),
            },
    {
        let ghost cs = self@.candidates;
        let mut i: usize = 0;
        while i < self.candidates.len()
            invariant
                cs == views_of(self.candidates@),
                i <= self.candidates@.len(),
                forall|j: int| 0 <= j < i ==> #[trigger] cs[j].symbol != symbol@,
            decreases self.candidates@.len() - i,
        {
            if self.candidates[i].symbol == *symbol {
                return Some(i);
            }
            i = i + 1;
        }
        None
    }

    /// Registers a candidate with no votes, at the end of the order.
    ///
    /// Refused with `PhaseError` once the vote has opened, and with
    /// `DuplicateCandidate` if the symbol is taken.
    pub fn add_candidate(&mut self, symbol: String) -> (r: Result<(), ElectionError>)
        requires
            old(self)@.wf(),
        ensures
            r == old(self)@.register_outcome(symbol@),
            final(self)@ == (if r is Ok {
                old(self)@.registered(symbol@)
            } else {
                old(self)@
            }),
            final(self)@.wf(),
    {
        if self.status != Status::Preparation {
            return Err(ElectionError::PhaseError);
        }
        match self.position_of(&symbol) {
            Some(_) => Err(ElectionError::DuplicateCandidate),
            None => {
                let ghost before = self@;
                self.candidates.push(Candidate::new(symbol));
                assert(self@.candidates =~= before.candidates.push(
                    CandidateView { symbol: symbol@, votes: 0 },
                ));
                Ok(())
            },
        }
    }

    /// Opens the vote. Refused with `PhaseError` unless in preparation.
    pub fn start_voting(&mut self) -> (r: Result<(), ElectionError>)
        ensures
            r == old(self)@.open_outcome(),
            final(self)@ == (if r is Ok {
                old(self)@.opened()
            } else {
                old(self)@
            }),
    {
        if self.status != Status::Preparation {
            return Err(ElectionError::PhaseError);
        }
        self.status = Status::Progress;
        Ok(())
    }

    /// Counts one vote for the candidate `symbol`.
    ///
    /// A vote while in preparation opens the election first. Refused with
    /// `ElectionClosed` once the winner is computed, and with
    /// `CandidateNotFound` if no candidate has that symbol.
    pub fn vote_to_candidate(&mut self, symbol: String) -> (r: Result<(), ElectionError>)
        requires
            old(self)@.wf(),
            old(self)@.vote_fits(symbol@),
        ensures
            r == old(self)@.vote_outcome(symbol@),
            final(self)@ == (if r is Ok {
                old(self)@.voted(symbol@)
            } else {
                old(self)@
            }),
            final(self)@.wf(),
    {
        if self.status == Status::End {
            return Err(ElectionError::ElectionClosed);
        }
        match self.position_of(&symbol) {
            None => Err(ElectionError::CandidateNotFound),
            Some(i) => {
                let ghost before = self@;
                self.candidates[i].obtain_vote();
                self.status = Status::Progress;
                assert forall|j: int| 0 <= j < before.candidates.len() && j != i implies
                    #[trigger] before.candidates[j].symbol != symbol@ by {
                    assert(before.candidates[j].symbol != before.candidates[i as int].symbol);
                }
                assert(self@.candidates =~= add_vote(before.candidates, symbol@));
                Ok(())
            },
        }
    }

    /// Closes the election and returns the symbol of the first candidate, in
    /// order of registration, with the most votes (empty if there are no
    /// candidates).
    ///
    /// Refused with `PhaseError` unless the vote is in progress, so the
    /// winner is computed at most once.
    pub fn compute_winner(&mut self) -> (r: Result<String, ElectionError>)
        ensures
            match r {
                Ok(w) => old(self)@.winner_outcome() == Ok::<Seq<char>, ElectionError>(w@),
                Err(e) => old(self)@.winner_outcome() == Err::<Seq<char>, ElectionError>(e),
            },
            final(self)@ == (if r is Ok {
                old(self)@.closed()
            } else {
                old(self)@
            }),
    {
        if self.status != Status::Progress {
            return Err(ElectionError::PhaseError);
        }
        self.status = Status::End;
        let ghost cs = self@.candidates;
        let n = self.candidates.len();
        if n == 0 {
            return Ok(String::new());
        }
        let mut best: usize = 0;
        let mut i: usize = 1;
        while i < n
            invariant
                cs == views_of(self.candidates@),
                n == cs.len(),
                1 <= i <= n,
                is_first_max(cs.take(i as int), best as int),
            decreases n - i,
        {
            if self.candidates[i].votes > self.candidates[best].votes {
                best = i;
            }
            assert(cs.take(i as int + 1) =~= cs.take(i as int).push(cs[i as int]));
            i = i + 1;
        }
        assert(cs.take(n as int) =~= cs);
        proof {
            lemma_winner_at(cs, best as int);
        }
        Ok(self.candidates[best].symbol.clone())
    }

    /// The election that a stored list of candidates and a phase describe,
    /// or `None` when two candidates share a symbol.
    pub fn from_parts(candidates: Vec<Candidate>, status: Status) -> (r: Option<Election>)
        ensures
            match r {
                Some(e) => restore(views_of(candidates@), status) == Some(e@),
                None => restore(views_of(candidates@), status) is None,
            },
    {
        let ghost cs = views_of(candidates@);
        let n = candidates.len();
        let mut i: usize = 0;
        while i < n
            invariant
                cs == views_of(candidates@),
                n == cs.len(),
                i <= n,
                forall|a: int, b: int|
                    0 <= a < i && 0 <= b < n && a != b ==> #[trigger] cs[a].symbol
                        != #[trigger] cs[b].symbol,
            decreases n - i,
        {
            let mut j: usize = 0;
            while j < n
                invariant
                    cs == views_of(candidates@),
                    n == cs.len(),
                    i < n,
                    j <= n,
                    forall|a: int, b: int|
                        0 <= a < i && 0 <= b < n && a != b ==> #[trigger] cs[a].symbol
                            != #[trigger] cs[b].symbol,
                    forall|b: int| 0 <= b < j && b != i ==> #[trigger] cs[b].symbol != cs[i as int].symbol,
                decreases n - j,
            {
                if j != i && candidates[j].symbol == candidates[i].symbol {
                    assert(!distinct_symbols(cs)) by {
                        assert(cs[j as int].symbol == cs[i as int].symbol);
                    }
                    return None;
                }
                j = j + 1;
            }
            i = i + 1;
        }
        Some(Election { candidates, status })
    }

    /// The candidates, in order of registration.
    pub fn candidates(&self) -> (r: &Vec<Candidate>)
        ensures
            views_of(r@) == self@.candidates,
    {
        &self.candidates
    }

    /// The current phase.
    pub fn status(&self) -> (r: Status)
        ensures
            r == self@.status,
    {
        self.status
    }

    /// The candidate with symbol `symbol`, if there is one.
    pub fn get_candidate(&self, symbol: &String) -> (r: Option<&Candidate>)
        ensures
            match r {
                Some(c) => c.symbol@ == symbol@ && exists|i: int|
                    0 <= i < self@.candidates.len() && #[trigger] self@.candidates[i] == c@,
                None => !self@.has(symbol@),
            },
    {
        match self.position_of(symbol) {
            Some(i) => Some(&self.candidates[i]),
            None => None,
        }
    }
}

} // verus!
