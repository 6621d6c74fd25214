use voting::pallet::Pallet;
use voting::types::{Config, Error, Event, Origin};

fn config() -> Config {
    Config {
        max_candidates: 3,
        max_name_length: 16,
        max_encrypted_vote_length: 8,
        max_blind_signature_length: 4,
    }
}

fn with_election() -> Pallet {
    let mut p = Pallet::new(config());
    p.create_election(Origin::Root, b"Spring2024".to_vec(), 10, 100).unwrap();
    p
}

#[test]
fn create_twice_and_duplicate_candidate_ids() {
    let mut p = Pallet::new(config());
    let r = p.create_election(Origin::Root, b"Spring2024".to_vec(), 10, 100);
    assert_eq!(
        r,
        Ok(Event::ElectionCreated { title: b"Spring2024".to_vec(), start_block: 10, end_block: 100 })
    );
    let e = p.election().unwrap();
    assert_eq!(e.title, b"Spring2024".to_vec());
    assert!(!e.is_active);
    assert!(!e.is_finalized);
    assert_eq!(
        p.create_election(Origin::Root, b"Other".to_vec(), 10, 100),
        Err(Error::ElectionAlreadyExists)
    );
    assert_eq!(
        p.add_candidate(Origin::Root, 1, b"Alice".to_vec(), b"...".to_vec()),
        Ok(Event::CandidateAdded { candidate_id: 1, name: b"Alice".to_vec() })
    );
    assert!(p.add_candidate(Origin::Root, 1, b"Bob".to_vec(), b"...".to_vec()).is_ok());
    assert_eq!(p.candidates().len(), 2);
    assert_eq!(
        p.get_results(),
        vec![(1, b"Alice".to_vec(), 0), (1, b"Bob".to_vec(), 0)]
    );
}

#[test]
fn start_inside_and_after_window() {
    let mut p = with_election();
    assert_eq!(p.start_election(Origin::Root, 50), Ok(Event::ElectionStarted));
    assert!(p.election().unwrap().is_active);
    assert_eq!(p.start_election(Origin::Root, 150), Err(Error::ElectionEnded));
    let mut q = with_election();
    assert_eq!(q.start_election(Origin::Root, 100), Err(Error::ElectionEnded));
    assert_eq!(q.start_election(Origin::Root, 9), Err(Error::ElectionNotStarted));
    assert_eq!(q.start_election(Origin::Root, 10), Ok(Event::ElectionStarted));
    assert_eq!(q.start_election(Origin::Root, 99), Ok(Event::ElectionStarted));
}

#[test]
fn vote_inactive_then_active_then_again() {
    let mut p = with_election();
    p.add_candidate(Origin::Root, 1, b"Alice".to_vec(), b"...".to_vec()).unwrap();
    assert_eq!(p.cast_vote(Origin::Signed(7), 50, 1), Err(Error::ElectionNotActive));
    p.start_election(Origin::Root, 50).unwrap();
    assert_eq!(
        p.cast_vote(Origin::Signed(7), 50, 1),
        Ok(Event::VoteCast { voter: 7, candidate_id: 1 })
    );
    assert_eq!(p.vote_count(1), 1);
    assert_eq!(p.total_votes(), 1);
    assert!(p.has_account_voted(&7));
    assert_eq!(p.get_vote_for_account(&7), Some(1));
    assert_eq!(p.cast_vote(Origin::Signed(7), 50, 1), Err(Error::AlreadyVoted));
    assert_eq!(p.vote_count(1), 1);
    assert_eq!(p.total_votes(), 1);
}

#[test]
fn reset_after_finalize_allows_new_election() {
    let mut p = with_election();
    p.add_candidate(Origin::Root, 1, b"Alice".to_vec(), b"...".to_vec()).unwrap();
    p.start_election(Origin::Root, 50).unwrap();
    p.cast_vote(Origin::Signed(7), 50, 1).unwrap();
    assert_eq!(p.end_election(Origin::Root), Ok(Event::ElectionEnded));
    assert_eq!(p.finalize_election(Origin::Root), Ok(Event::ElectionFinalized));
    assert_eq!(p.reset_election(Origin::Root), Ok(Event::ElectionReset));
    assert!(p.election().is_none());
    assert!(p.candidates().is_empty());
    assert_eq!(p.total_votes(), 0);
    assert_eq!(p.vote_count(1), 0);
    assert!(!p.has_account_voted(&7));
    assert!(p.create_election(Origin::Root, b"Autumn2024".to_vec(), 200, 300).is_ok());
    assert_eq!(p.election().unwrap().title, b"Autumn2024".to_vec());
}

#[test]
fn total_is_sum_of_counts() {
    let mut p = with_election();
    p.add_candidate(Origin::Root, 1, b"Alice".to_vec(), vec![]).unwrap();
    p.add_candidate(Origin::Root, 2, b"Bob".to_vec(), vec![]).unwrap();
    p.start_election(Origin::Root, 20).unwrap();
    for voter in 0..5u64 {
        p.cast_vote(Origin::Signed(voter), 20, if voter % 2 == 0 { 1 } else { 2 }).unwrap();
    }
    assert_eq!(p.vote_count(1), 3);
    assert_eq!(p.vote_count(2), 2);
    assert_eq!(p.total_votes(), p.vote_count(1) + p.vote_count(2));
    assert_eq!(
        p.get_results(),
        vec![(1, b"Alice".to_vec(), 3), (2, b"Bob".to_vec(), 2)]
    );
}

#[test]
fn refused_calls_change_nothing() {
    let mut p = with_election();
    p.add_candidate(Origin::Root, 1, b"Alice".to_vec(), vec![]).unwrap();
    p.start_election(Origin::Root, 20).unwrap();
    p.cast_vote(Origin::Signed(1), 20, 1).unwrap();
    let results = p.get_results();
    assert_eq!(p.cast_vote(Origin::Signed(2), 20, 9), Err(Error::InvalidCandidate));
    assert_eq!(p.cast_vote(Origin::Signed(2), 100, 1), Err(Error::ElectionEnded));
    assert_eq!(p.add_candidate(Origin::Root, 2, b"Bob".to_vec(), vec![]), Err(Error::ElectionIsActive));
    assert_eq!(p.finalize_election(Origin::Root), Err(Error::ElectionIsActive));
    assert_eq!(p.get_results(), results);
    assert_eq!(p.total_votes(), 1);
    assert!(!p.has_account_voted(&2));
    assert!(p.election().unwrap().is_active);
    assert_eq!(p.candidates().len(), 1);
}

#[test]
fn lifecycle_errors() {
    let mut p = Pallet::new(config());
    assert_eq!(p.add_candidate(Origin::Root, 1, vec![], vec![]), Err(Error::NoElectionExists));
    assert_eq!(p.start_election(Origin::Root, 1), Err(Error::NoElectionExists));
    assert_eq!(p.end_election(Origin::Root), Err(Error::NoElectionExists));
    assert_eq!(p.finalize_election(Origin::Root), Err(Error::NoElectionExists));
    assert_eq!(p.cast_vote(Origin::Signed(1), 1, 1), Err(Error::NoElectionExists));
    assert_eq!(p.create_election(Origin::Root, vec![], 10, 10), Err(Error::InvalidTimeRange));
    assert_eq!(p.create_election(Origin::Root, vec![], 11, 10), Err(Error::InvalidTimeRange));
    assert_eq!(p.create_election(Origin::Root, vec![b'x'; 17], 10, 20), Err(Error::NameTooLong));
    assert!(p.election().is_none());
    assert!(p.create_election(Origin::Root, vec![b'x'; 16], 10, 20).is_ok());
    assert_eq!(p.end_election(Origin::Root), Ok(Event::ElectionEnded));
    assert_eq!(p.finalize_election(Origin::Root), Ok(Event::ElectionFinalized));
    assert_eq!(p.finalize_election(Origin::Root), Err(Error::AlreadyFinalized));
}

#[test]
fn candidate_bounds() {
    let mut p = with_election();
    assert_eq!(p.add_candidate(Origin::Root, 1, vec![b'n'; 17], vec![]), Err(Error::NameTooLong));
    assert_eq!(p.add_candidate(Origin::Root, 1, vec![], vec![b'd'; 17]), Err(Error::NameTooLong));
    for id in 0..3u32 {
        p.add_candidate(Origin::Root, id, vec![b'n'; 16], vec![b'd'; 16]).unwrap();
    }
    assert_eq!(p.add_candidate(Origin::Root, 3, vec![], vec![]), Err(Error::TooManyCandidates));
    assert_eq!(p.candidates().len(), 3);
}

#[test]
fn origins_are_checked() {
    let mut p = with_election();
    assert_eq!(p.create_election(Origin::Signed(1), vec![], 1, 2), Err(Error::BadOrigin));
    assert_eq!(p.add_candidate(Origin::Unsigned, 1, vec![], vec![]), Err(Error::BadOrigin));
    assert_eq!(p.start_election(Origin::Signed(1), 50), Err(Error::BadOrigin));
    assert_eq!(p.end_election(Origin::Signed(1)), Err(Error::BadOrigin));
    assert_eq!(p.finalize_election(Origin::Signed(1)), Err(Error::BadOrigin));
    assert_eq!(p.reset_election(Origin::Signed(1)), Err(Error::BadOrigin));
    assert!(p.election().is_some());
    p.add_candidate(Origin::Root, 1, vec![], vec![]).unwrap();
    p.start_election(Origin::Root, 50).unwrap();
    assert_eq!(p.cast_vote(Origin::Root, 50, 1), Err(Error::BadOrigin));
    assert_eq!(p.submit_vote(Origin::Root, vec![], vec![]), Err(Error::BadOrigin));
    assert_eq!(p.approve_vote(Origin::Unsigned, 0), Err(Error::BadOrigin));
    assert_eq!(p.reject_vote(Origin::Root, 0), Err(Error::BadOrigin));
    assert_eq!(p.total_votes(), 0);
}

#[test]
fn readding_a_voted_id_keeps_its_count() {
    let mut p = with_election();
    p.add_candidate(Origin::Root, 1, b"Alice".to_vec(), vec![]).unwrap();
    p.start_election(Origin::Root, 20).unwrap();
    p.cast_vote(Origin::Signed(3), 20, 1).unwrap();
    p.end_election(Origin::Root).unwrap();
    assert!(!p.election().unwrap().is_active);
    p.add_candidate(Origin::Root, 1, b"Bob".to_vec(), vec![]).unwrap();
    assert_eq!(p.vote_count(1), 1);
    assert_eq!(p.total_votes(), 1);
    assert_eq!(
        p.get_results(),
        vec![(1, b"Alice".to_vec(), 1), (1, b"Bob".to_vec(), 1)]
    );
}

#[test]
fn finalized_election_cannot_restart() {
    let mut p = with_election();
    p.add_candidate(Origin::Root, 1, b"Alice".to_vec(), vec![]).unwrap();
    p.start_election(Origin::Root, 20).unwrap();
    p.cast_vote(Origin::Signed(3), 20, 1).unwrap();
    p.end_election(Origin::Root).unwrap();
    p.finalize_election(Origin::Root).unwrap();
    let results = p.get_results();
    assert_eq!(p.start_election(Origin::Root, 50), Err(Error::AlreadyFinalized));
    let e = p.election().unwrap();
    assert!(!e.is_active);
    assert!(e.is_finalized);
    assert_eq!(p.get_results(), results);
    assert_eq!(p.cast_vote(Origin::Signed(4), 50, 1), Err(Error::ElectionNotActive));
    assert_eq!(p.total_votes(), 1);
}

#[test]
fn finalized_inactive_election_accepts_candidates() {
    let mut p = with_election();
    p.add_candidate(Origin::Root, 1, b"Alice".to_vec(), vec![]).unwrap();
    p.start_election(Origin::Root, 20).unwrap();
    p.cast_vote(Origin::Signed(3), 20, 1).unwrap();
    p.end_election(Origin::Root).unwrap();
    p.finalize_election(Origin::Root).unwrap();
    assert_eq!(
        p.add_candidate(Origin::Root, 2, vec![b'n'; 17], vec![]),
        Err(Error::NameTooLong)
    );
    assert_eq!(
        p.add_candidate(Origin::Root, 1, b"Bob".to_vec(), vec![]),
        Ok(Event::CandidateAdded { candidate_id: 1, name: b"Bob".to_vec() })
    );
    assert_eq!(p.vote_count(1), 1);
    assert_eq!(p.total_votes(), 1);
    assert!(p.election().unwrap().is_finalized);
}
