use vstd::prelude::*;

use crate::types::{
    AccountId, BlockNumber, CandidateRecord, Config, ElectionRecord, Error, EventRecord, Origin,
    VotePayload,
};

verus! {

/// Everything the pallet keeps in storage, as mathematical values.
pub struct PalletState {
    pub config: Config,
    /// The single election, if one exists.
    pub election: Option<ElectionRecord>,
    /// Registered candidates, in the order they were added.
    pub candidates: Seq<CandidateRecord>,
    /// Voter to the candidate id they voted for.
    pub has_voted: Map<AccountId, u32>,
    /// Candidate id to its number of votes; an absent key counts zero.
    pub vote_count: Map<u32, u32>,
    pub total_votes: u32,
    /// Approved votes, by vote id.
    pub encrypted_votes: Map<u64, VotePayload>,
    /// The vote id that the next approval issues.
    pub vote_counter: u64,
    /// The pending id that the next submission issues.
    pub pending_vote_counter: u64,
    /// Queued votes, by pending id.
    pub pending_votes: Map<u64, VotePayload>,
}

/// What a call does: the state it leaves and the event it emits, or the error.
pub type Outcome = Result<(PalletState, EventRecord), Error>;

/// The state of a freshly deployed pallet.
pub open spec fn initial_state(config: Config) -> PalletState {
    PalletState {
        config,
        election: None,
        candidates: Seq::empty(),
        has_voted: Map::empty(),
        vote_count: Map::empty(),
        total_votes: 0,
        encrypted_votes: Map::empty(),
        vote_counter: 0,
        pending_vote_counter: 0,
        pending_votes: Map::empty(),
    }
}

/// The vote count stored for `id`, zero where none is stored.
pub open spec fn count_of(m: Map<u32, u32>, id: u32) -> u32 {
    if m.contains_key(id) {
        m[id]
    } else {
        0
    }
}

/// Whether some candidate in `cs` has the id `id`.
pub open spec fn has_candidate(cs: Seq<CandidateRecord>, id: u32) -> bool {
    exists|i: int| 0 <= i < cs.len() && #[trigger] cs[i].id == id
}

/// Whether `now` lies in the election's window `[start_block, end_block)`.
pub open spec fn window_check(e: ElectionRecord, now: BlockNumber) -> Result<(), Error> {
    if now < e.start_block {
        Err(Error::ElectionNotStarted)
    } else if now >= e.end_block {
        Err(Error::ElectionEnded)
    } else {
        Ok(())
    }
}

/// Creating the election: administrator only, when none exists, with a
/// window that ends after it starts and a title within the name bound.
pub open spec fn spec_create_election(
    s: PalletState,
    origin: Origin,
    title: Seq<u8>,
    start_block: BlockNumber,
    end_block: BlockNumber,
) -> Outcome {
    if !(origin is Root) {
        Err(Error::BadOrigin)
    } else if s.election is Some {
        Err(Error::ElectionAlreadyExists)
    } else if end_block <= start_block {
        Err(Error::InvalidTimeRange)
    } else if title.len() > s.config.max_name_length {
        Err(Error::NameTooLong)
    } else {
        let e = ElectionRecord { title, start_block, end_block, is_active: false, is_finalized: false };
        Ok((
            PalletState { election: Some(e), ..s },
            EventRecord::ElectionCreated { title, start_block, end_block },
        ))
    }
}

/// Registering a candidate: administrator only, while an election exists and
/// is inactive, with name and description within the bound and room left in
/// the list. An id already in use is accepted and keeps its count; a new
/// id starts at zero.
pub open spec fn spec_add_candidate(
    s: PalletState,
    origin: Origin,
    candidate_id: u32,
    name: Seq<u8>,
    description: Seq<u8>,
) -> Outcome {
    if !(origin is Root) {
        Err(Error::BadOrigin)
    } else if s.election is None {
        Err(Error::NoElectionExists)
    } else if s.election->Some_0.is_active {
        Err(Error::ElectionIsActive)
    } else if name.len() > s.config.max_name_length || description.len() > s.config.max_name_length {
        Err(Error::NameTooLong)
    } else if s.candidates.len() >= s.config.max_candidates {
        Err(Error::TooManyCandidates)
    } else {
        let c = CandidateRecord { id: candidate_id, name, description };
        Ok((
            PalletState {
                candidates: s.candidates.push(c),
                vote_count: if s.vote_count.contains_key(candidate_id) {
                    s.vote_count
                } else {
                    s.vote_count.insert(candidate_id, 0)
                },
                ..s
            },
            EventRecord::CandidateAdded { candidate_id, name },
        ))
    }
}

/// Opening voting: administrator only, on an election not yet finalized,
/// while `now` lies in the window; an election already active is accepted
/// again.
pub open spec fn spec_start_election(s: PalletState, origin: Origin, now: BlockNumber) -> Outcome {
    if !(origin is Root) {
        Err(Error::BadOrigin)
    } else if s.election is None {
        Err(Error::NoElectionExists)
    } else if s.election->Some_0.is_finalized {
        Err(Error::AlreadyFinalized)
    } else if window_check(s.election->Some_0, now) is Err {
        Err(window_check(s.election->Some_0, now)->Err_0)
    } else {
        let e = s.election->Some_0;
        Ok((
            PalletState { election: Some(ElectionRecord { is_active: true, ..e }), ..s },
            EventRecord::ElectionStarted,
        ))
    }
}

/// Closing voting: administrator only, whenever an election exists.
pub open spec fn spec_end_election(s: PalletState, origin: Origin) -> Outcome {
    if !(origin is Root) {
        Err(Error::BadOrigin)
    } else if s.election is None {
        Err(Error::NoElectionExists)
    } else {
        let e = s.election->Some_0;
        Ok((
            PalletState { election: Some(ElectionRecord { is_active: false, ..e }), ..s },
            EventRecord::ElectionEnded,
        ))
    }
}

/// Finalizing: administrator only, once, on an inactive election.
pub open spec fn spec_finalize_election(s: PalletState, origin: Origin) -> Outcome {
    if !(origin is Root) {
        Err(Error::BadOrigin)
    } else if s.election is None {
        Err(Error::NoElectionExists)
    } else if s.election->Some_0.is_active {
        Err(Error::ElectionIsActive)
    } else if s.election->Some_0.is_finalized {
        Err(Error::AlreadyFinalized)
    } else {
        let e = s.election->Some_0;
        Ok((
            PalletState { election: Some(ElectionRecord { is_finalized: true, ..e }), ..s },
            EventRecord::ElectionFinalized,
        ))
    }
}

/// Clears the election and its tally; the submission queue and ledger stay.
pub open spec fn spec_reset_election(s: PalletState, origin: Origin) -> Outcome {
    if !(origin is Root) {
        Err(Error::BadOrigin)
    } else {
        Ok((
            PalletState {
                election: None,
                candidates: Seq::empty(),
                has_voted: Map::empty(),
                vote_count: Map::empty(),
                total_votes: 0,
                ..s
            },
            EventRecord::ElectionReset,
        ))
    }
}

/// Voting: a signed account, once, for a registered candidate, while the
/// election is active and `now` lies in its window. Counts saturate.
pub open spec fn spec_cast_vote(
    s: PalletState,
    origin: Origin,
    now: BlockNumber,
    candidate_id: u32,
) -> Outcome {
    if !(origin is Signed) {
        Err(Error::BadOrigin)
    } else if s.election is None {
        Err(Error::NoElectionExists)
    } else if !s.election->Some_0.is_active {
        Err(Error::ElectionNotActive)
    } else if window_check(s.election->Some_0, now) is Err {
        Err(window_check(s.election->Some_0, now)->Err_0)
    } else if s.has_voted.contains_key(origin->Signed_0) {
        Err(Error::AlreadyVoted)
    } else if !has_candidate(s.candidates, candidate_id) {
        Err(Error::InvalidCandidate)
    } else {
        let voter = origin->Signed_0;
        Ok((
            PalletState {
                has_voted: s.has_voted.insert(voter, candidate_id),
                vote_count: s.vote_count.insert(
                    candidate_id,
                    count_of(s.vote_count, candidate_id).saturating_add(1),
                ),
                total_votes: s.total_votes.saturating_add(1),
                ..s
            },
            EventRecord::VoteCast { voter, candidate_id },
        ))
    }
}

/// Queueing a blinded vote: a signed account, payloads within their bounds,
/// under the next pending id, whatever the election's phase.
pub open spec fn spec_submit_vote(
    s: PalletState,
    origin: Origin,
    encrypted_vote: Seq<u8>,
    blind_signature: Seq<u8>,
) -> Outcome {
    if !(origin is Signed) {
        Err(Error::BadOrigin)
    } else if encrypted_vote.len() > s.config.max_encrypted_vote_length {
        Err(Error::EncryptedVoteTooLarge)
    } else if blind_signature.len() > s.config.max_blind_signature_length {
        Err(Error::BlindSignatureTooLarge)
    } else {
        let id = s.pending_vote_counter;
        Ok((
            PalletState {
                pending_votes: s.pending_votes.insert(id, VotePayload { encrypted_vote, blind_signature }),
                pending_vote_counter: id.saturating_add(1),
                ..s
            },
            EventRecord::VoteSubmittedForApproval { pending_id: id },
        ))
    }
}

/// Approving a queued vote: a signed account; the payload moves verbatim to
/// the ledger under the next vote id.
pub open spec fn spec_approve_vote(s: PalletState, origin: Origin, pending_id: u64) -> Outcome {
    if !(origin is Signed) {
        Err(Error::BadOrigin)
    } else if !s.pending_votes.contains_key(pending_id) {
        Err(Error::VoteNotFound)
    } else {
        let vote_id = s.vote_counter;
        Ok((
            PalletState {
                encrypted_votes: s.encrypted_votes.insert(vote_id, s.pending_votes[pending_id]),
                vote_counter: vote_id.saturating_add(1),
                pending_votes: s.pending_votes.remove(pending_id),
                ..s
            },
            EventRecord::VoteApproved { pending_id, vote_id },
        ))
    }
}

/// Rejecting a queued vote: a signed account; removing an id that is not
/// queued is accepted and changes nothing.
pub open spec fn spec_reject_vote(s: PalletState, origin: Origin, pending_id: u64) -> Outcome {
    if !(origin is Signed) {
        Err(Error::BadOrigin)
    } else {
        Ok((
            PalletState { pending_votes: s.pending_votes.remove(pending_id), ..s },
            EventRecord::VoteRejected { pending_id },
        ))
    }
}

/// Whether a payload fits the configured bounds.
pub open spec fn payload_fits(config: Config, p: VotePayload) -> bool {
    &&& p.encrypted_vote.len() <= config.max_encrypted_vote_length
    &&& p.blind_signature.len() <= config.max_blind_signature_length
}

/// Whether a candidate's name and description fit the configured bound.
pub open spec fn candidate_fits(config: Config, c: CandidateRecord) -> bool {
    &&& c.name.len() <= config.max_name_length
    &&& c.description.len() <= config.max_name_length
}

/// What every state reached from a fresh pallet satisfies: finite maps,
/// stored values within their bounds, an election window that ends after it
/// starts, and a finalized election that is never active.
pub open spec fn well_formed(s: PalletState) -> bool {
    &&& s.vote_count.dom().finite()
    &&& s.has_voted.dom().finite()
    &&& s.candidates.len() <= s.config.max_candidates
    &&& forall|i: int| 0 <= i < s.candidates.len() ==> candidate_fits(s.config, #[trigger] s.candidates[i])
    &&& match s.election {
        Some(e) => {
            &&& e.start_block < e.end_block
            &&& e.title.len() <= s.config.max_name_length
            &&& e.is_finalized ==> !e.is_active
        },
        None => true,
    }
    &&& forall|k: u64| #[trigger] s.pending_votes.contains_key(k) ==> payload_fits(s.config, s.pending_votes[k])
    &&& forall|k: u64| #[trigger] s.encrypted_votes.contains_key(k) ==> payload_fits(s.config, s.encrypted_votes[k])
}

/// Sum of all values of a finite map.
pub open spec fn map_sum(m: Map<u32, u32>) -> int
    decreases m.dom().len(),
    when m.dom().finite()
{
    if m.dom().len() == 0 {
        0
    } else {
        let k = m.dom().choose();
        m[k] + map_sum(m.remove(k))
    }
}

/// One row of the results: candidate id, name and vote count.
pub open spec fn result_row(s: PalletState, c: CandidateRecord) -> (u32, Seq<u8>, u32) {
    (c.id, c.name, count_of(s.vote_count, c.id))
}

/// The results, one row per candidate, in registration order.
pub open spec fn spec_results(s: PalletState) -> Seq<(u32, Seq<u8>, u32)> {
    s.candidates.map_values(|c: CandidateRecord| result_row(s, c))
}

/// A call on the pallet, with its arguments.
pub enum Call {
    CreateElection { title: Seq<u8>, start_block: BlockNumber, end_block: BlockNumber },
    AddCandidate { candidate_id: u32, name: Seq<u8>, description: Seq<u8> },
    StartElection,
    EndElection,
    FinalizeElection,
    ResetElection,
    CastVote { candidate_id: u32 },
    SubmitVote { encrypted_vote: Seq<u8>, blind_signature: Seq<u8> },
    ApproveVote { pending_id: u64 },
    RejectVote { pending_id: u64 },
}

/// A call as the runtime dispatches it: who calls, at which block, and what.
pub struct Request {
    pub origin: Origin,
    pub now: BlockNumber,
    pub call: Call,
}

/// The outcome of dispatching `r` on `s`.
pub open spec fn dispatch(s: PalletState, r: Request) -> Outcome {
    match r.call {
        Call::CreateElection { title, start_block, end_block } => spec_create_election(
            s,
            r.origin,
            title,
            start_block,
            end_block,
        ),
        Call::AddCandidate { candidate_id, name, description } => spec_add_candidate(
            s,
            r.origin,
            candidate_id,
            name,
            description,
        ),
        Call::StartElection => spec_start_election(s, r.origin, r.now),
        Call::EndElection => spec_end_election(s, r.origin),
        Call::FinalizeElection => spec_finalize_election(s, r.origin),
        Call::ResetElection => spec_reset_election(s, r.origin),
        Call::CastVote { candidate_id } => spec_cast_vote(s, r.origin, r.now, candidate_id),
        Call::SubmitVote { encrypted_vote, blind_signature } => spec_submit_vote(
            s,
            r.origin,
            encrypted_vote,
            blind_signature,
        ),
        Call::ApproveVote { pending_id } => spec_approve_vote(s, r.origin, pending_id),
        Call::RejectVote { pending_id } => spec_reject_vote(s, r.origin, pending_id),
    }
}

/// The state after dispatching `r` on `s`: a refused call leaves `s` as it was.
pub open spec fn next_state(s: PalletState, r: Request) -> PalletState {
    match dispatch(s, r) {
        Ok((n, _)) => n,
        Err(_) => s,
    }
}

/// The state after dispatching `reqs` on `s`, in order.
pub open spec fn run(s: PalletState, reqs: Seq<Request>) -> PalletState
    decreases reqs.len(),
{
    if reqs.len() == 0 {
        s
    } else {
        next_state(run(s, reqs.drop_last()), reqs.last())
    }
}

/// The pending ids that the submissions among `reqs` were given, in order.
pub open spec fn issued_pending_ids(s: PalletState, reqs: Seq<Request>) -> Seq<u64>
    decreases reqs.len(),
{
    if reqs.len() == 0 {
        Seq::empty()
    } else {
        let earlier = issued_pending_ids(s, reqs.drop_last());
        match dispatch(run(s, reqs.drop_last()), reqs.last()) {
            Ok((_, EventRecord::VoteSubmittedForApproval { pending_id })) => earlier.push(pending_id),
            _ => earlier,
        }
    }
}

/// The vote ids that the approvals among `reqs` issued, in order.
pub open spec fn issued_vote_ids(s: PalletState, reqs: Seq<Request>) -> Seq<u64>
    decreases reqs.len(),
{
    if reqs.len() == 0 {
        Seq::empty()
    } else {
        let earlier = issued_vote_ids(s, reqs.drop_last());
        match dispatch(run(s, reqs.drop_last()), reqs.last()) {
            Ok((_, EventRecord::VoteApproved { vote_id, .. })) => earlier.push(vote_id),
            _ => earlier,
        }
    }
}

/// Whether `ids` is strictly increasing.
pub open spec fn strictly_increasing(ids: Seq<u64>) -> bool {
    forall|i: int, j: int| 0 <= i < j < ids.len() ==> ids[i] < ids[j]
}

} // verus!
