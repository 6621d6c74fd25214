use voting::pallet::Pallet;
use voting::types::{Config, Error, Event, Origin};

fn fresh() -> Pallet {
    Pallet::new(Config {
        max_candidates: 3,
        max_name_length: 16,
        max_encrypted_vote_length: 8,
        max_blind_signature_length: 4,
    })
}

#[test]
fn submit_then_approve_once() {
    let mut p = fresh();
    assert_eq!(
        p.submit_vote(Origin::Signed(5), b"cipher".to_vec(), b"sig".to_vec()),
        Ok(Event::VoteSubmittedForApproval { pending_id: 0 })
    );
    assert_eq!(p.pending_vote(0).unwrap().encrypted_vote, b"cipher".to_vec());
    assert_eq!(
        p.approve_vote(Origin::Signed(6), 0),
        Ok(Event::VoteApproved { pending_id: 0, vote_id: 0 })
    );
    assert!(p.pending_vote(0).is_none());
    let approved = p.encrypted_vote(0).unwrap();
    assert_eq!(approved.encrypted_vote, b"cipher".to_vec());
    assert_eq!(approved.blind_signature, b"sig".to_vec());
    assert_eq!(p.approve_vote(Origin::Signed(6), 0), Err(Error::VoteNotFound));
    assert_eq!(p.vote_counter(), 1);
}

#[test]
fn pending_ids_increase_across_approvals_and_rejections() {
    let mut p = fresh();
    let mut ids = Vec::new();
    for round in 0..3u8 {
        match p.submit_vote(Origin::Signed(1), vec![round], vec![round]) {
            Ok(Event::VoteSubmittedForApproval { pending_id }) => ids.push(pending_id),
            other => panic!("unexpected {:?}", other),
        }
        if round == 0 {
            p.approve_vote(Origin::Signed(2), 0).unwrap();
        } else {
            p.reject_vote(Origin::Signed(2), ids[ids.len() - 1]).unwrap();
        }
    }
    assert_eq!(ids, vec![0, 1, 2]);
    assert_eq!(p.pending_vote_counter(), 3);
    assert!(p.pending_vote(1).is_none());
    assert!(p.pending_vote(2).is_none());
}

#[test]
fn vote_ids_increase() {
    let mut p = fresh();
    for _ in 0..3 {
        p.submit_vote(Origin::Signed(1), vec![1], vec![2]).unwrap();
    }
    assert_eq!(
        p.approve_vote(Origin::Signed(1), 2),
        Ok(Event::VoteApproved { pending_id: 2, vote_id: 0 })
    );
    assert_eq!(
        p.approve_vote(Origin::Signed(1), 0),
        Ok(Event::VoteApproved { pending_id: 0, vote_id: 1 })
    );
    assert_eq!(p.encrypted_vote(1).unwrap().encrypted_vote, vec![1]);
    assert!(p.encrypted_vote(2).is_none());
    assert!(p.pending_vote(1).is_some());
}

#[test]
fn payload_bounds_and_absent_rejection() {
    let mut p = fresh();
    assert_eq!(
        p.submit_vote(Origin::Signed(1), vec![0; 9], vec![]),
        Err(Error::EncryptedVoteTooLarge)
    );
    assert_eq!(
        p.submit_vote(Origin::Signed(1), vec![0; 8], vec![0; 5]),
        Err(Error::BlindSignatureTooLarge)
    );
    assert_eq!(p.pending_vote_counter(), 0);
    assert!(p.submit_vote(Origin::Signed(1), vec![0; 8], vec![0; 4]).is_ok());
    assert_eq!(p.reject_vote(Origin::Signed(1), 42), Ok(Event::VoteRejected { pending_id: 42 }));
    assert!(p.pending_vote(0).is_some());
}

#[test]
fn submissions_ignore_election_phase_and_reset() {
    let mut p = fresh();
    p.create_election(Origin::Root, b"T".to_vec(), 10, 100).unwrap();
    p.submit_vote(Origin::Signed(1), vec![1], vec![1]).unwrap();
    p.reset_election(Origin::Root).unwrap();
    assert!(p.pending_vote(0).is_some());
    assert_eq!(p.pending_vote_counter(), 1);
}
