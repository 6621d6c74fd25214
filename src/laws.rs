use vstd::prelude::*;

use crate::model::{
    candidate_fits, count_of, dispatch, initial_state, payload_fits, well_formed, issued_pending_ids, issued_vote_ids, map_sum, next_state,
    run, spec_cast_vote, strictly_increasing, window_check, Call, PalletState, Request,
};
use crate::types::{AccountId, BlockNumber, Config, Error, Origin};

verus! {

broadcast use {vstd::set::group_set_axioms, vstd::map::group_map_axioms};

proof fn lemma_map_sum_nonneg(m: Map<u32, u32>)
    requires
        m.dom().finite(),
    ensures
        map_sum(m) >= 0,
    decreases m.dom().len(),
{
    if m.dom().len() != 0 {
        let k = m.dom().choose();
        assert(m.remove(k).dom() =~= m.dom().remove(k));
        lemma_map_sum_nonneg(m.remove(k));
    }
}

proof fn lemma_map_sum_remove(m: Map<u32, u32>, k: u32)
    requires
        m.dom().finite(),
        m.contains_key(k),
    ensures
        map_sum(m) == m[k] + map_sum(m.remove(k)),
    decreases m.dom().len(),
{
    assert(m.remove(k).dom() =~= m.dom().remove(k));
    let c = m.dom().choose();
    assert(m.dom().contains(c));
    if c != k {
        assert(m.remove(c).dom() =~= m.dom().remove(c));
        lemma_map_sum_remove(m.remove(c), k);
        lemma_map_sum_remove(m.remove(k), c);
        assert(m.remove(c).remove(k) =~= m.remove(k).remove(c));
    }
}

proof fn lemma_map_sum_insert(m: Map<u32, u32>, k: u32, v: u32)
    requires
        m.dom().finite(),
    ensures
        m.insert(k, v).dom().finite(),
        map_sum(m.insert(k, v)) == map_sum(m) - count_of(m, k) + v,
{
    let n = m.insert(k, v);
    assert(n.dom() =~= m.dom().insert(k));
    lemma_map_sum_remove(n, k);
    if m.contains_key(k) {
        assert(n.remove(k) =~= m.remove(k));
        lemma_map_sum_remove(m, k);
    } else {
        assert(n.remove(k) =~= m);
    }
}

proof fn lemma_count_le_sum(m: Map<u32, u32>, k: u32)
    requires
        m.dom().finite(),
    ensures
        count_of(m, k) <= map_sum(m),
{
    lemma_map_sum_nonneg(m);
    if m.contains_key(k) {
        lemma_map_sum_remove(m, k);
        assert(m.remove(k).dom() =~= m.dom().remove(k));
        lemma_map_sum_nonneg(m.remove(k));
    }
}

/// Whether the vote total equals the sum of the per-candidate counts.
pub open spec fn tally_consistent(s: PalletState) -> bool {
    s.total_votes == map_sum(s.vote_count)
}

/// A refused call leaves the whole stored state exactly as it found it.
pub proof fn lemma_refused_call_changes_nothing(s: PalletState, r: Request)
    requires
        dispatch(s, r) is Err,
    ensures
        next_state(s, r) == s,
{
}

/// A fresh pallet is well formed, holds no votes, and its total is the sum
/// of its counts.
pub proof fn lemma_initial_state(config: Config)
    ensures
        well_formed(initial_state(config)),
        tally_consistent(initial_state(config)),
{
    assert(Map::<u32, u32>::empty().dom() =~= Set::empty());
    assert(Map::<AccountId, u32>::empty().dom() =~= Set::empty());
}

/// Every call, accepted or refused, keeps the state well formed.
pub proof fn lemma_dispatch_keeps_well_formed(s: PalletState, r: Request)
    requires
        well_formed(s),
    ensures
        well_formed(next_state(s, r)),
{
    let n = next_state(s, r);
    if dispatch(s, r) is Ok {
        match r.call {
            Call::AddCandidate { candidate_id, .. } => {
                assert(n.vote_count.dom() =~= s.vote_count.dom().insert(candidate_id));
                assert forall|i: int| 0 <= i < n.candidates.len() implies candidate_fits(
                    n.config,
                    #[trigger] n.candidates[i],
                ) by {
                    if i < s.candidates.len() {
                        assert(n.candidates[i] == s.candidates[i]);
                    }
                }
            },
            Call::ResetElection => {
                assert(n.vote_count.dom() =~= Set::empty());
                assert(n.has_voted.dom() =~= Set::empty());
            },
            Call::CastVote { candidate_id } => {
                assert(n.vote_count.dom() =~= s.vote_count.dom().insert(candidate_id));
                assert(n.has_voted.dom() =~= s.has_voted.dom().insert(r.origin->Signed_0));
            },
            Call::SubmitVote { .. } => {
                assert forall|k: u64| #[trigger] n.pending_votes.contains_key(k) implies payload_fits(
                    n.config,
                    n.pending_votes[k],
                ) by {
                    if k != s.pending_vote_counter {
                        assert(s.pending_votes.contains_key(k));
                    }
                }
            },
            Call::ApproveVote { pending_id } => {
                assert forall|k: u64| #[trigger] n.encrypted_votes.contains_key(k) implies payload_fits(
                    n.config,
                    n.encrypted_votes[k],
                ) by {
                    if k != s.vote_counter {
                        assert(s.encrypted_votes.contains_key(k));
                    } else {
                        assert(s.pending_votes.contains_key(pending_id));
                    }
                }
                assert forall|k: u64| #[trigger] n.pending_votes.contains_key(k) implies payload_fits(
                    n.config,
                    n.pending_votes[k],
                ) by {
                    assert(s.pending_votes.contains_key(k));
                }
            },
            Call::RejectVote { .. } => {
                assert forall|k: u64| #[trigger] n.pending_votes.contains_key(k) implies payload_fits(
                    n.config,
                    n.pending_votes[k],
                ) by {
                    assert(s.pending_votes.contains_key(k));
                }
            },
            _ => {},
        }
    }
}

/// The vote total stays the sum of the per-candidate counts across every
/// call, as long as a vote does not find the total at its ceiling.
pub proof fn lemma_total_votes_is_sum(s: PalletState, r: Request)
    requires
        well_formed(s),
        tally_consistent(s),
        r.call is CastVote ==> s.total_votes < u32::MAX,
    ensures
        tally_consistent(next_state(s, r)),
{
    let n = next_state(s, r);
    match r.call {
        Call::AddCandidate { candidate_id, .. } => {
            if !s.vote_count.contains_key(candidate_id) {
                lemma_map_sum_insert(s.vote_count, candidate_id, 0);
            }
        },
        Call::ResetElection => {
            assert(Map::<u32, u32>::empty().dom() =~= Set::empty());
        },
        Call::CastVote { candidate_id } => {
            lemma_count_le_sum(s.vote_count, candidate_id);
            lemma_map_sum_insert(
                s.vote_count,
                candidate_id,
                count_of(s.vote_count, candidate_id).saturating_add(1),
            );
        },
        _ => {},
    }
}

/// Once a voter is recorded, every further vote by that voter is refused,
/// with `AlreadyVoted` whenever the election is open at that block.
pub proof fn lemma_recorded_voter_refused(
    s: PalletState,
    voter: AccountId,
    now: BlockNumber,
    candidate_id: u32,
)
    requires
        s.has_voted.contains_key(voter),
    ensures
        spec_cast_vote(s, Origin::Signed(voter), now, candidate_id) is Err,
        s.election is Some && s.election->Some_0.is_active && window_check(
            s.election->Some_0,
            now,
        ) is Ok ==> spec_cast_vote(s, Origin::Signed(voter), now, candidate_id) == Err::<
            (PalletState, crate::types::EventRecord),
            Error,
        >(Error::AlreadyVoted),
{
}

/// A vote cast twice by the same voter at the same block is refused the
/// second time with `AlreadyVoted`, and leaves counts and total as the first
/// vote left them.
pub proof fn lemma_second_vote_refused(
    s: PalletState,
    voter: AccountId,
    now: BlockNumber,
    first: u32,
    second: u32,
)
    requires
        spec_cast_vote(s, Origin::Signed(voter), now, first) is Ok,
    ensures
        ({
            let after = spec_cast_vote(s, Origin::Signed(voter), now, first)->Ok_0.0;
            let again = Request { origin: Origin::Signed(voter), now, call: Call::CastVote { candidate_id: second } };
            &&& dispatch(after, again) == Err::<(PalletState, crate::types::EventRecord), Error>(
                Error::AlreadyVoted,
            )
            &&& next_state(after, again) == after
        }),
{
}

/// A recorded vote is never changed by any call but a reset.
pub proof fn lemma_recorded_vote_kept(s: PalletState, r: Request, voter: AccountId)
    requires
        s.has_voted.contains_key(voter),
        !(r.call is ResetElection),
    ensures
        next_state(s, r).has_voted.contains_key(voter),
        next_state(s, r).has_voted[voter] == s.has_voted[voter],
{
}

proof fn lemma_pending_run(s: PalletState, reqs: Seq<Request>)
    requires
        s.pending_vote_counter + reqs.len() <= u64::MAX,
    ensures
        s.pending_vote_counter <= run(s, reqs).pending_vote_counter <= s.pending_vote_counter
            + reqs.len(),
        strictly_increasing(issued_pending_ids(s, reqs)),
        forall|i: int|
            0 <= i < issued_pending_ids(s, reqs).len() ==> s.pending_vote_counter
                <= #[trigger] issued_pending_ids(s, reqs)[i] < run(s, reqs).pending_vote_counter,
    decreases reqs.len(),
{
    if reqs.len() > 0 {
        lemma_pending_run(s, reqs.drop_last());
    }
}

/// Across any run of calls, submissions receive strictly increasing pending
/// ids, all at or above the counter the run started from and below the one
/// it ends with, so no id is issued twice; this holds while the counter stays
/// below its ceiling.
pub proof fn lemma_pending_ids_never_reused(s: PalletState, reqs: Seq<Request>)
    requires
        s.pending_vote_counter + reqs.len() <= u64::MAX,
    ensures
        strictly_increasing(issued_pending_ids(s, reqs)),
        forall|i: int|
            0 <= i < issued_pending_ids(s, reqs).len() ==> s.pending_vote_counter
                <= #[trigger] issued_pending_ids(s, reqs)[i] < run(s, reqs).pending_vote_counter,
{
    lemma_pending_run(s, reqs);
}

proof fn lemma_vote_run(s: PalletState, reqs: Seq<Request>)
    requires
        s.vote_counter + reqs.len() <= u64::MAX,
    ensures
        s.vote_counter <= run(s, reqs).vote_counter <= s.vote_counter + reqs.len(),
        strictly_increasing(issued_vote_ids(s, reqs)),
        forall|i: int|
            0 <= i < issued_vote_ids(s, reqs).len() ==> s.vote_counter
                <= #[trigger] issued_vote_ids(s, reqs)[i] < run(s, reqs).vote_counter,
    decreases reqs.len(),
{
    if reqs.len() > 0 {
        lemma_vote_run(s, reqs.drop_last());
    }
}

/// Across any run of calls, approvals issue strictly increasing vote ids, all
/// at or above the counter the run started from and below the one it ends
/// with, so no id is issued twice; this holds while the counter stays below
/// its ceiling.
pub proof fn lemma_vote_ids_never_reused(s: PalletState, reqs: Seq<Request>)
    requires
        s.vote_counter + reqs.len() <= u64::MAX,
    ensures
        strictly_increasing(issued_vote_ids(s, reqs)),
        forall|i: int|
            0 <= i < issued_vote_ids(s, reqs).len() ==> s.vote_counter
                <= #[trigger] issued_vote_ids(s, reqs)[i] < run(s, reqs).vote_counter,
{
    lemma_vote_run(s, reqs);
}

} // verus!
