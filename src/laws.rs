use vstd::prelude::*;
use crate::candidate::{CandidateView, ElectionError, Status};
use crate::model::{add_vote, restore, ElectionView};

verus! {

/// The election after registering each symbol of `ss` in turn, each
/// registration applied only where it succeeds.
pub open spec fn register_each(e: ElectionView, ss: Seq<Seq<char>>) -> ElectionView
    decreases ss.len(),
{
    if ss.len() == 0 {
        e
    } else {
        let p = register_each(e, ss.drop_last());
        if p.register_outcome(ss.last()) is Ok {
            p.registered(ss.last())
        } else {
            p
        }
    }
}

/// Registering distinct new symbols one after another during preparation:
/// every registration succeeds and each adds exactly one candidate, at the
/// end of the order.
pub proof fn law_register_distinct(e: ElectionView, ss: Seq<Seq<char>>)
    requires
        e.wf(),
        e.status == Status::Preparation,
        forall|i: int, j: int| 0 <= i < ss.len() && 0 <= j < ss.len() && i != j ==> ss[i] != ss[j],
        forall|i: int| 0 <= i < ss.len() ==> !e.has(#[trigger] ss[i]),
    ensures
        forall|k: int|
            0 <= k < ss.len() ==> (#[trigger] register_each(e, ss.take(k))).register_outcome(ss[k])
                == Ok::<(), ElectionError>(()),
        forall|k: int|
            0 <= k <= ss.len() ==> (#[trigger] register_each(e, ss.take(k))).candidates.len()
                == e.candidates.len() + k,
        register_each(e, ss).candidates.len() == e.candidates.len() + ss.len(),
        forall|i: int|
            0 <= i < e.candidates.len() ==> #[trigger] register_each(e, ss).candidates[i]
                == e.candidates[i],
        forall|k: int|
            0 <= k < ss.len() ==> #[trigger] register_each(e, ss).candidates[e.candidates.len()
                + k] == (CandidateView { symbol: ss[k], votes: 0 }),
        register_each(e, ss).wf(),
        register_each(e, ss).status == Status::Preparation,
    decreases ss.len(),
{
    if ss.len() > 0 {
        let init = ss.drop_last();
        law_register_distinct(e, init);
        assert forall|k: int| 0 <= k <= init.len() implies #[trigger] ss.take(k) == init.take(k) by {
            assert(ss.take(k) =~= init.take(k));
        }
        assert(init.take(init.len() as int) =~= init);
        assert(ss.take(ss.len() as int) =~= ss);
        let p = register_each(e, init);
        let s = ss.last();
        let n = e.candidates.len();
        assert(!p.has(s)) by {
            if p.has(s) {
                let i = choose|i: int| 0 <= i < p.candidates.len() && #[trigger] p.candidates[i].symbol == s;
                if i >= n {
                    assert(p.candidates[n + (i - n)].symbol == init[i - n]);
                    assert(init[i - n] == ss[i - n]);
                } else {
                    assert(p.candidates[i] == e.candidates[i]);
                    assert(e.has(ss[ss.len() - 1]));
                }
            }
        }
        assert(p.register_outcome(s) == Ok::<(), ElectionError>(()));
        let r = register_each(e, ss);
        assert(r == p.registered(s));
        assert forall|k: int| 0 <= k < ss.len() implies #[trigger] r.candidates[n + k]
            == (CandidateView { symbol: ss[k], votes: 0 }) by {
            if k < init.len() {
                assert(p.candidates[n + k] == (CandidateView { symbol: init[k], votes: 0 }));
            }
        }
    }
}

/// During preparation, a symbol that is already registered is refused as a
/// duplicate (and a refused call leaves the election as it was).
pub proof fn law_register_repeated(e: ElectionView, s: Seq<char>)
    requires
        e.status == Status::Preparation,
        e.has(s),
    ensures
        e.register_outcome(s) == Err::<(), ElectionError>(ElectionError::DuplicateCandidate),
{
}

/// No operation moves the phase backwards.
pub proof fn law_phase_forward(e: ElectionView, s: Seq<char>)
    ensures
        e.registered(s).status.rank() == e.status.rank(),
        e.open_outcome() is Ok ==> e.opened().status.rank() > e.status.rank(),
        e.vote_outcome(s) is Ok ==> e.voted(s).status.rank() >= e.status.rank(),
        e.winner_outcome() is Ok ==> e.closed().status.rank() > e.status.rank(),
{
}

/// Once the vote has been opened, or a vote counted, registration is refused
/// with `PhaseError`, and stays refused since the phase never moves back.
pub proof fn law_no_registration_after_opening(e: ElectionView, s: Seq<char>, t: Seq<char>)
    ensures
        e.open_outcome() is Ok ==> e.opened().register_outcome(s) == Err::<(), ElectionError>(
            ElectionError::PhaseError,
        ),
        e.vote_outcome(t) is Ok ==> e.voted(t).register_outcome(s) == Err::<(), ElectionError>(
            ElectionError::PhaseError,
        ),
        e.status.rank() > 0 ==> e.register_outcome(s) == Err::<(), ElectionError>(
            ElectionError::PhaseError,
        ),
{
}

/// A vote for an unregistered symbol is always refused, so no count changes;
/// before the election closes the refusal is `CandidateNotFound`.
pub proof fn law_vote_unregistered(e: ElectionView, s: Seq<char>)
    requires
        !e.has(s),
    ensures
        e.vote_outcome(s) is Err,
        e.status != Status::End ==> e.vote_outcome(s) == Err::<(), ElectionError>(
            ElectionError::CandidateNotFound,
        ),
        add_vote(e.candidates, s) == e.candidates,
{
    assert(add_vote(e.candidates, s) =~= e.candidates);
}

/// The winner is computed at most once: a second computation is refused with
/// `PhaseError`.
pub proof fn law_winner_once(e: ElectionView)
    requires
        e.winner_outcome() is Ok,
    ensures
        e.closed().winner_outcome() == Err::<Seq<char>, ElectionError>(ElectionError::PhaseError),
{
}

/// Rebuilding an election from the candidates and phase it exposes gives the
/// same election back.
pub proof fn law_parts_round_trip(e: ElectionView)
    requires
        e.wf(),
    ensures
        restore(e.candidates, e.status) == Some(e),
{
}

} // verus!
