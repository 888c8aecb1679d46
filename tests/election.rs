use election::{Candidate, Election, ElectionError, Status};

fn s(text: &str) -> String {
    String::from(text)
}

#[test]
fn add_candidate() {
    let mut e = Election::new();
    assert_eq!(e.add_candidate(s("candidate1")), Ok(()));
    assert!(e.candidates().len() == 1);
    assert!(e.candidates()[0].symbol == "candidate1");
    assert!(e.candidates()[0].votes == 0);
}

#[test]
fn vote_to_candidate() {
    let mut e = Election::new();
    assert_eq!(e.add_candidate(s("candidate1")), Ok(()));
    assert_eq!(e.vote_to_candidate(s("candidate1")), Ok(()));
    assert!(e.candidates().len() == 1);
    assert!(e.candidates()[0].symbol == "candidate1");
    assert!(e.candidates()[0].votes == 1);

    assert!(e.add_candidate(s("after started voting")) == Err(ElectionError::PhaseError));
}

#[test]
fn compute_winner() {
    let mut e = Election::new();
    assert_eq!(e.add_candidate(s("candidate1")), Ok(()));
    assert_eq!(e.add_candidate(s("candidate2")), Ok(()));
    assert_eq!(e.vote_to_candidate(s("candidate1")), Ok(()));
    assert!(e.candidates().len() == 2);
    assert!(e.compute_winner().unwrap() == "candidate1");
    assert!(e.add_candidate(s("after computed winner")) == Err(ElectionError::PhaseError));
    assert!(e.vote_to_candidate(s("candidate1")) == Err(ElectionError::ElectionClosed));
}

#[test]
fn obtain_vote_increase_num() {
    let mut c = Candidate { symbol: s("test"), votes: 0 };
    c.obtain_vote();
    assert!(c.votes == 1)
}

#[test]
fn new_candidate_has_no_votes() {
    let c = Candidate::new(s("z"));
    assert_eq!(c.symbol, "z");
    assert_eq!(c.votes, 0);
}

#[test]
fn new_election_is_empty_in_preparation() {
    let e = Election::new();
    assert_eq!(e.status(), Status::Preparation);
    assert!(e.candidates().is_empty());
}

#[test]
fn distinct_registrations_each_add_one() {
    let mut e = Election::new();
    for (n, name) in ["a", "b", "c", "d"].iter().enumerate() {
        assert_eq!(e.add_candidate(s(name)), Ok(()));
        assert_eq!(e.candidates().len(), n + 1);
        assert_eq!(e.candidates()[n].symbol, *name);
    }
    assert_eq!(e.status(), Status::Preparation);
}

#[test]
fn repeated_symbol_is_duplicate_and_changes_nothing() {
    let mut e = Election::new();
    assert_eq!(e.add_candidate(s("a")), Ok(()));
    assert_eq!(e.add_candidate(s("b")), Ok(()));
    assert_eq!(e.add_candidate(s("a")), Err(ElectionError::DuplicateCandidate));
    assert_eq!(e.candidates().len(), 2);
    assert_eq!(e.candidates()[0].symbol, "a");
    assert_eq!(e.candidates()[1].symbol, "b");
}

#[test]
fn registration_refused_after_opening() {
    let mut e = Election::new();
    assert_eq!(e.start_voting(), Ok(()));
    assert_eq!(e.add_candidate(s("a")), Err(ElectionError::PhaseError));
    assert!(e.candidates().is_empty());
}

#[test]
fn registration_refused_after_first_vote() {
    let mut e = Election::new();
    assert_eq!(e.add_candidate(s("a")), Ok(()));
    assert_eq!(e.vote_to_candidate(s("a")), Ok(()));
    assert_eq!(e.status(), Status::Progress);
    assert_eq!(e.add_candidate(s("b")), Err(ElectionError::PhaseError));
}

#[test]
fn opening_twice_is_phase_error() {
    let mut e = Election::new();
    assert_eq!(e.start_voting(), Ok(()));
    assert_eq!(e.status(), Status::Progress);
    assert_eq!(e.start_voting(), Err(ElectionError::PhaseError));
    assert_eq!(e.status(), Status::Progress);
}

#[test]
fn opening_after_end_is_phase_error() {
    let mut e = Election::new();
    assert_eq!(e.start_voting(), Ok(()));
    assert_eq!(e.compute_winner(), Ok(s("")));
    assert_eq!(e.start_voting(), Err(ElectionError::PhaseError));
    assert_eq!(e.status(), Status::End);
}

#[test]
fn vote_for_unknown_is_not_found_and_changes_nothing() {
    let mut e = Election::new();
    assert_eq!(e.add_candidate(s("a")), Ok(()));
    assert_eq!(e.vote_to_candidate(s("zz")), Err(ElectionError::CandidateNotFound));
    assert_eq!(e.status(), Status::Preparation);
    assert_eq!(e.candidates()[0].votes, 0);
    assert_eq!(e.vote_to_candidate(s("a")), Ok(()));
    assert_eq!(e.vote_to_candidate(s("zz")), Err(ElectionError::CandidateNotFound));
    assert_eq!(e.candidates()[0].votes, 1);
    assert_eq!(e.status(), Status::Progress);
}

#[test]
fn winner_twice_is_phase_error() {
    let mut e = Election::new();
    assert_eq!(e.add_candidate(s("a")), Ok(()));
    assert_eq!(e.vote_to_candidate(s("a")), Ok(()));
    assert_eq!(e.compute_winner(), Ok(s("a")));
    assert_eq!(e.compute_winner(), Err(ElectionError::PhaseError));
    assert_eq!(e.status(), Status::End);
}

#[test]
fn winner_before_opening_is_phase_error() {
    let mut e = Election::new();
    assert_eq!(e.add_candidate(s("a")), Ok(()));
    assert_eq!(e.compute_winner(), Err(ElectionError::PhaseError));
    assert_eq!(e.status(), Status::Preparation);
}

#[test]
fn tie_goes_to_first_registered() {
    let mut e = Election::new();
    assert_eq!(e.add_candidate(s("A")), Ok(()));
    assert_eq!(e.add_candidate(s("B")), Ok(()));
    assert_eq!(e.add_candidate(s("C")), Ok(()));
    assert_eq!(e.vote_to_candidate(s("A")), Ok(()));
    assert_eq!(e.vote_to_candidate(s("B")), Ok(()));
    assert_eq!(e.vote_to_candidate(s("C")), Ok(()));
    assert_eq!(e.compute_winner(), Ok(s("A")));
}

#[test]
fn most_votes_wins_wherever_registered() {
    let mut e = Election::new();
    assert_eq!(e.add_candidate(s("A")), Ok(()));
    assert_eq!(e.add_candidate(s("B")), Ok(()));
    assert_eq!(e.add_candidate(s("C")), Ok(()));
    assert_eq!(e.vote_to_candidate(s("B")), Ok(()));
    assert_eq!(e.vote_to_candidate(s("C")), Ok(()));
    assert_eq!(e.vote_to_candidate(s("C")), Ok(()));
    assert_eq!(e.vote_to_candidate(s("A")), Ok(()));
    assert_eq!(e.compute_winner(), Ok(s("C")));
}

#[test]
fn two_candidate_tie_then_closed() {
    let mut e = Election::new();
    assert_eq!(e.add_candidate(s("x")), Ok(()));
    assert_eq!(e.add_candidate(s("y")), Ok(()));
    assert_eq!(e.status(), Status::Preparation);
    assert_eq!(e.vote_to_candidate(s("x")), Ok(()));
    assert_eq!(e.status(), Status::Progress);
    assert_eq!(e.get_candidate(&s("x")).unwrap().votes, 1);
    assert_eq!(e.vote_to_candidate(s("y")), Ok(()));
    assert_eq!(e.get_candidate(&s("y")).unwrap().votes, 1);
    assert_eq!(e.compute_winner(), Ok(s("x")));
    assert_eq!(e.status(), Status::End);
    assert_eq!(e.vote_to_candidate(s("x")), Err(ElectionError::ElectionClosed));
    assert_eq!(e.get_candidate(&s("x")).unwrap().votes, 1);
}

#[test]
fn empty_election_has_empty_winner() {
    let mut e = Election::new();
    assert_eq!(e.start_voting(), Ok(()));
    assert_eq!(e.compute_winner(), Ok(s("")));
    assert_eq!(e.status(), Status::End);
}

#[test]
fn get_candidate_finds_by_symbol() {
    let mut e = Election::new();
    assert_eq!(e.add_candidate(s("a")), Ok(()));
    assert_eq!(e.add_candidate(s("b")), Ok(()));
    assert_eq!(e.vote_to_candidate(s("b")), Ok(()));
    let b = e.get_candidate(&s("b")).unwrap();
    assert_eq!(b.symbol, "b");
    assert_eq!(b.votes, 1);
    assert!(e.get_candidate(&s("c")).is_none());
}

fn parts_of(e: &Election) -> Vec<Candidate> {
    e.candidates()
        .iter()
        .map(|c| Candidate { symbol: c.symbol.clone(), votes: c.votes })
        .collect()
}

#[test]
fn rebuilding_from_parts_gives_the_same_election() {
    let mut e = Election::new();
    assert_eq!(e.add_candidate(s("a")), Ok(()));
    assert_eq!(e.add_candidate(s("b")), Ok(()));
    assert_eq!(e.vote_to_candidate(s("b")), Ok(()));
    assert_eq!(e.vote_to_candidate(s("b")), Ok(()));
    let back = Election::from_parts(parts_of(&e), e.status()).unwrap();
    assert_eq!(back.status(), Status::Progress);
    assert_eq!(back.candidates().len(), 2);
    assert_eq!(back.candidates()[0].symbol, "a");
    assert_eq!(back.candidates()[0].votes, 0);
    assert_eq!(back.candidates()[1].symbol, "b");
    assert_eq!(back.candidates()[1].votes, 2);
}

#[test]
fn rebuilding_with_duplicate_symbols_is_refused() {
    let parts = vec![
        Candidate { symbol: s("a"), votes: 1 },
        Candidate { symbol: s("b"), votes: 0 },
        Candidate { symbol: s("a"), votes: 2 },
    ];
    assert!(Election::from_parts(parts, Status::Progress).is_none());
    assert!(Election::from_parts(Vec::new(), Status::End).is_some());
}
