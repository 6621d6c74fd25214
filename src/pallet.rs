use std::collections::HashMap;

use vstd::prelude::*;

use crate::model::{
    count_of, has_candidate, initial_state, result_row, spec_add_candidate, spec_approve_vote,
    spec_cast_vote, spec_create_election, spec_end_election, spec_finalize_election,
    spec_reject_vote, spec_reset_election, spec_results, spec_start_election, spec_submit_vote,
    well_formed, Call, Outcome, PalletState, Request,
};
use crate::laws::{
    lemma_dispatch_keeps_well_formed, lemma_initial_state, lemma_total_votes_is_sum, tally_consistent,
};
use crate::types::{
    copy_bytes, AccountId, BlockNumber, Candidate, CandidateRecord, Config, ElectionInfo, Error,
    Event, Origin, PendingVote, VotePayload,
};

verus! {

broadcast use vstd::std_specs::hash::group_hash_axioms;

/// Whether the result `r` of a call that left `after` behind `before` is the
/// outcome `t`: on success the state and event it gives, on failure its error
/// with the state untouched.
pub open spec fn realizes(
    t: Outcome,
    before: PalletState,
    after: PalletState,
    r: Result<Event, Error>,
) -> bool {
    match t {
        Ok((s, e)) => after == s && r is Ok && r->Ok_0@ == e,
        Err(err) => after == before && r == Err::<Event, Error>(err),
    }
}

/// The election pallet's storage and the calls that change it.
pub struct Pallet {
    config: Config,
    election: Option<ElectionInfo>,
    candidates: Vec<Candidate>,
    has_voted: HashMap<AccountId, u32>,
    vote_count: HashMap<u32, u32>,
    total_votes: u32,
    encrypted_votes: HashMap<u64, PendingVote>,
    vote_counter: u64,
    pending_vote_counter: u64,
    pending_votes: HashMap<u64, PendingVote>,
}

pub open spec fn payload_of(p: PendingVote) -> VotePayload {
    p@
}

pub open spec fn record_of(c: Candidate) -> CandidateRecord {
    c@
}

impl View for Pallet {
    type V = PalletState;

    closed spec fn view(&self) -> PalletState {
        PalletState {
            config: self.config,
            election: match self.election {
                Some(e) => Some(e@),
                None => None,
            },
            candidates: self.candidates@.map_values(|c: Candidate| record_of(c)),
            has_voted: self.has_voted@,
            vote_count: self.vote_count@,
            total_votes: self.total_votes,
            encrypted_votes: self.encrypted_votes@.map_values(|p: PendingVote| payload_of(p)),
            vote_counter: self.vote_counter,
            pending_vote_counter: self.pending_vote_counter,
            pending_votes: self.pending_votes@.map_values(|p: PendingVote| payload_of(p)),
        }
    }
}

fn ensure_root(origin: Origin) -> (r: Result<(), Error>)
    ensures
        r is Ok <==> origin is Root,
        r is Err ==> r->Err_0 == Error::BadOrigin,
{
    match origin {
        Origin::Root => Ok(()),
        _ => Err(Error::BadOrigin),
    }
}

fn ensure_signed(origin: Origin) -> (r: Result<AccountId, Error>)
    ensures
        r is Ok <==> origin is Signed,
        r is Ok ==> r->Ok_0 == origin->Signed_0,
        r is Err ==> r->Err_0 == Error::BadOrigin,
{
    match origin {
        Origin::Signed(who) => Ok(who),
        _ => Err(Error::BadOrigin),
    }
}

/// Checks `now` against the window `[start_block, end_block)` of `e`.
fn check_window(e: &ElectionInfo, now: BlockNumber) -> (r: Result<(), Error>)
    ensures
        r == crate::model::window_check(e@, now),
{
    if now < e.start_block {
        Err(Error::ElectionNotStarted)
    } else if now >= e.end_block {
        Err(Error::ElectionEnded)
    } else {
        Ok(())
    }
}

impl Pallet {
    #[verifier::type_invariant]
    spec fn inv(&self) -> bool {
        well_formed(self@)
    }

    /// Tells a verified caller that every pallet is well formed; it does
    /// nothing at run time.
    pub fn well_formed_holds(&self)
        ensures
            well_formed(self@),
    {
        proof {
            use_type_invariant(self);
        }
    }

    /// A pallet with empty storage under the given bounds.
    pub fn new(config: Config) -> (r: Pallet)
        ensures
            r@ == initial_state(config),
            well_formed(r@),
    {
        proof {
            lemma_initial_state(config);
        }
        let r = Pallet {
            config,
            election: None,
            candidates: Vec::new(),
            has_voted: HashMap::new(),
            vote_count: HashMap::new(),
            total_votes: 0,
            encrypted_votes: HashMap::new(),
            vote_counter: 0,
            pending_vote_counter: 0,
            pending_votes: HashMap::new(),
        };
        assert(r@.candidates =~= Seq::empty());
        assert(r@.encrypted_votes =~= Map::empty());
        assert(r@.pending_votes =~= Map::empty());
        r
    }

    /// Creates the election, inactive and not finalized (administrator only).
    pub fn create_election(
        &mut self,
        origin: Origin,
        title: Vec<u8>,
        start_block: BlockNumber,
        end_block: BlockNumber,
    ) -> (r: Result<Event, Error>)
        ensures
            realizes(
                spec_create_election(old(self)@, origin, title@, start_block, end_block),
                old(self)@,
                final(self)@,
                r,
            ),
            well_formed(final(self)@),
    {
        proof {
            use_type_invariant(&*self);
            let req = Request {
                origin,
                now: 0,
                call: Call::CreateElection {
                    title: title@,
                    start_block,
                    end_block,
                },
            };
            lemma_dispatch_keeps_well_formed(self@, req);
        }
        ensure_root(origin)?;
        if self.election.is_some() {
            return Err(Error::ElectionAlreadyExists);
        }
        if end_block <= start_block {
            return Err(Error::InvalidTimeRange);
        }
        if title.len() > self.config.max_name_length as usize {
            return Err(Error::NameTooLong);
        }
        let event_title = copy_bytes(&title);
        self.election = Some(
            ElectionInfo { title, start_block, end_block, is_active: false, is_finalized: false },
        );
        Ok(Event::ElectionCreated { title: event_title, start_block, end_block })
    }

    /// Appends a candidate (administrator only, while an election exists and
    /// is inactive). Ids need not be unique: an id already in use keeps its
    /// vote count, a new one starts at zero.
    pub fn add_candidate(
        &mut self,
        origin: Origin,
        candidate_id: u32,
        name: Vec<u8>,
        description: Vec<u8>,
    ) -> (r: Result<Event, Error>)
        ensures
            realizes(
                spec_add_candidate(old(self)@, origin, candidate_id, name@, description@),
                old(self)@,
                final(self)@,
                r,
            ),
            well_formed(final(self)@),
            tally_consistent(old(self)@) ==> tally_consistent(
                final(self)@,
            ),
    {
        proof {
            use_type_invariant(&*self);
            let req = Request {
                origin,
                now: 0,
                call: Call::AddCandidate {
                    candidate_id,
                    name: name@,
                    description: description@,
                },
            };
            lemma_dispatch_keeps_well_formed(self@, req);
            if tally_consistent(self@) {
                lemma_total_votes_is_sum(self@, req);
            }
        }
        ensure_root(origin)?;
        match &self.election {
            None => {
                return Err(Error::NoElectionExists);
            },
            Some(e) => {
                if e.is_active {
                    return Err(Error::ElectionIsActive);
                }
            },
        }
        if name.len() > self.config.max_name_length as usize {
            return Err(Error::NameTooLong);
        }
        if description.len() > self.config.max_name_length as usize {
            return Err(Error::NameTooLong);
        }
        if self.candidates.len() >= self.config.max_candidates as usize {
            return Err(Error::TooManyCandidates);
        }
        let event_name = copy_bytes(&name);
        let ghost added = CandidateRecord { id: candidate_id, name: name@, description: description@ };
        let mut candidates: Vec<Candidate> = Vec::new();
        std::mem::swap(&mut candidates, &mut self.candidates);
        candidates.push(Candidate { id: candidate_id, name, description });
        assert(candidates@.map_values(|c: Candidate| record_of(c)) =~= old(self)@.candidates.push(
            added,
        ));
        self.candidates = candidates;
        if !self.vote_count.contains_key(&candidate_id) {
            let mut vote_count: HashMap<u32, u32> = HashMap::new();
            std::mem::swap(&mut vote_count, &mut self.vote_count);
            vote_count.insert(candidate_id, 0);
            self.vote_count = vote_count;
        }
        Ok(Event::CandidateAdded { candidate_id, name: event_name })
    }

    /// Opens voting on an election not yet finalized, while `now` lies in its
    /// window (administrator only).
    pub fn start_election(&mut self, origin: Origin, now: BlockNumber) -> (r: Result<Event, Error>)
        ensures
            realizes(spec_start_election(old(self)@, origin, now), old(self)@, final(self)@, r),
            well_formed(final(self)@),
    {
        proof {
            use_type_invariant(&*self);
            let req = Request { origin, now, call: Call::StartElection };
            lemma_dispatch_keeps_well_formed(self@, req);
        }
        ensure_root(origin)?;
        match &self.election {
            None => {
                return Err(Error::NoElectionExists);
            },
            Some(e) => {
                if e.is_finalized {
                    return Err(Error::AlreadyFinalized);
                }
                check_window(e, now)?;
            },
        }
        let mut slot: Option<ElectionInfo> = None;
        std::mem::swap(&mut slot, &mut self.election);
        if let Some(mut e) = slot {
            e.is_active = true;
            self.election = Some(e);
        }
        Ok(Event::ElectionStarted)
    }

    /// Closes voting, whatever the block or the state (administrator only).
    pub fn end_election(&mut self, origin: Origin) -> (r: Result<Event, Error>)
        ensures
            realizes(spec_end_election(old(self)@, origin), old(self)@, final(self)@, r),
            well_formed(final(self)@),
    {
        proof {
            use_type_invariant(&*self);
            let req = Request { origin, now: 0, call: Call::EndElection };
            lemma_dispatch_keeps_well_formed(self@, req);
        }
        ensure_root(origin)?;
        if self.election.is_none() {
            return Err(Error::NoElectionExists);
        }
        let mut slot: Option<ElectionInfo> = None;
        std::mem::swap(&mut slot, &mut self.election);
        if let Some(mut e) = slot {
            e.is_active = false;
            self.election = Some(e);
        }
        Ok(Event::ElectionEnded)
    }

    /// Marks an inactive election as final (administrator only).
    pub fn finalize_election(&mut self, origin: Origin) -> (r: Result<Event, Error>)
        ensures
            realizes(spec_finalize_election(old(self)@, origin), old(self)@, final(self)@, r),
            well_formed(final(self)@),
    {
        proof {
            use_type_invariant(&*self);
            let req = Request { origin, now: 0, call: Call::FinalizeElection };
            lemma_dispatch_keeps_well_formed(self@, req);
        }
        ensure_root(origin)?;
        match &self.election {
            None => {
                return Err(Error::NoElectionExists);
            },
            Some(e) => {
                if e.is_active {
                    return Err(Error::ElectionIsActive);
                }
                if e.is_finalized {
                    return Err(Error::AlreadyFinalized);
                }
            },
        }
        let mut slot: Option<ElectionInfo> = None;
        std::mem::swap(&mut slot, &mut self.election);
        if let Some(mut e) = slot {
            e.is_finalized = true;
            self.election = Some(e);
        }
        Ok(Event::ElectionFinalized)
    }

    /// Clears the election, its candidates and its whole tally (administrator only).
    pub fn reset_election(&mut self, origin: Origin) -> (r: Result<Event, Error>)
        ensures
            realizes(spec_reset_election(old(self)@, origin), old(self)@, final(self)@, r),
            well_formed(final(self)@),
    {
        proof {
            use_type_invariant(&*self);
            let req = Request { origin, now: 0, call: Call::ResetElection };
            lemma_dispatch_keeps_well_formed(self@, req);
        }
        ensure_root(origin)?;
        self.election = None;
        self.candidates = Vec::new();
        self.has_voted = HashMap::new();
        self.vote_count = HashMap::new();
        self.total_votes = 0;
        assert(self@.candidates =~= Seq::empty());
        Ok(Event::ElectionReset)
    }

    /// Whether some registered candidate has the id `candidate_id`.
    fn candidate_exists(&self, candidate_id: u32) -> (r: bool)
        ensures
            r == has_candidate(self@.candidates, candidate_id),
    {
        let mut i: usize = 0;
        while i < self.candidates.len()
            invariant
                i <= self.candidates.len(),
                forall|j: int| 0 <= j < i ==> self.candidates@[j].id != candidate_id,
            decreases self.candidates.len() - i,
        {
            if self.candidates[i].id == candidate_id {
                assert(self@.candidates[i as int].id == candidate_id);
                return true;
            }
            i = i + 1;
        }
        assert forall|j: int| 0 <= j < self@.candidates.len() implies #[trigger] self@.candidates[j].id
            != candidate_id by {
            assert(self@.candidates[j] == record_of(self.candidates@[j]));
        }
        false
    }

    /// Records a signed voter's single vote for an existing candidate while the
    /// election is active and `now` lies in its window.
    pub fn cast_vote(&mut self, origin: Origin, now: BlockNumber, candidate_id: u32) -> (r: Result<
        Event,
        Error,
    >)
        ensures
            realizes(
                spec_cast_vote(old(self)@, origin, now, candidate_id),
                old(self)@,
                final(self)@,
                r,
            ),
            well_formed(final(self)@),
            tally_consistent(old(self)@) && old(self)@.total_votes < u32::MAX ==> tally_consistent(
                final(self)@,
            ),
    {
        proof {
            use_type_invariant(&*self);
            let req = Request { origin, now, call: Call::CastVote { candidate_id } };
            lemma_dispatch_keeps_well_formed(self@, req);
            if tally_consistent(self@) && self@.total_votes < u32::MAX {
                lemma_total_votes_is_sum(self@, req);
            }
        }
        let voter = ensure_signed(origin)?;
        match &self.election {
            None => {
                return Err(Error::NoElectionExists);
            },
            Some(e) => {
                if !e.is_active {
                    return Err(Error::ElectionNotActive);
                }
                check_window(e, now)?;
            },
        }
        if self.has_voted.contains_key(&voter) {
            return Err(Error::AlreadyVoted);
        }
        if !self.candidate_exists(candidate_id) {
            return Err(Error::InvalidCandidate);
        }
        let mut has_voted: HashMap<AccountId, u32> = HashMap::new();
        std::mem::swap(&mut has_voted, &mut self.has_voted);
        has_voted.insert(voter, candidate_id);
        self.has_voted = has_voted;
        let count: u32 = match self.vote_count.get(&candidate_id) {
            Some(c) => *c,
            None => 0,
        };
        let mut vote_count: HashMap<u32, u32> = HashMap::new();
        std::mem::swap(&mut vote_count, &mut self.vote_count);
        vote_count.insert(candidate_id, count.saturating_add(1));
        self.vote_count = vote_count;
        self.total_votes = self.total_votes.saturating_add(1);
        Ok(Event::VoteCast { voter, candidate_id })
    }

    /// Queues a blinded vote under the next pending id (any signed account).
    pub fn submit_vote(
        &mut self,
        origin: Origin,
        encrypted_vote: Vec<u8>,
        blind_signature: Vec<u8>,
    ) -> (r: Result<Event, Error>)
        ensures
            realizes(
                spec_submit_vote(old(self)@, origin, encrypted_vote@, blind_signature@),
                old(self)@,
                final(self)@,
                r,
            ),
            well_formed(final(self)@),
    {
        proof {
            use_type_invariant(&*self);
            let req = Request {
                origin,
                now: 0,
                call: Call::SubmitVote {
                    encrypted_vote: encrypted_vote@,
                    blind_signature: blind_signature@,
                },
            };
            lemma_dispatch_keeps_well_formed(self@, req);
        }
        ensure_signed(origin)?;
        if encrypted_vote.len() > self.config.max_encrypted_vote_length as usize {
            return Err(Error::EncryptedVoteTooLarge);
        }
        if blind_signature.len() > self.config.max_blind_signature_length as usize {
            return Err(Error::BlindSignatureTooLarge);
        }
        let pending_id = self.pending_vote_counter;
        let vote = PendingVote { encrypted_vote, blind_signature };
        let ghost payload = vote@;
        let mut pending_votes: HashMap<u64, PendingVote> = HashMap::new();
        std::mem::swap(&mut pending_votes, &mut self.pending_votes);
        pending_votes.insert(pending_id, vote);
        assert(pending_votes@.map_values(|p: PendingVote| payload_of(p)) =~= old(
            self,
        )@.pending_votes.insert(pending_id, payload));
        self.pending_votes = pending_votes;
        self.pending_vote_counter = pending_id.saturating_add(1);
        Ok(Event::VoteSubmittedForApproval { pending_id })
    }

    /// Moves a queued vote verbatim into the ledger under the next vote id
    /// (any signed account).
    pub fn approve_vote(&mut self, origin: Origin, pending_id: u64) -> (r: Result<Event, Error>)
        ensures
            realizes(spec_approve_vote(old(self)@, origin, pending_id), old(self)@, final(self)@, r),
            well_formed(final(self)@),
    {
        proof {
            use_type_invariant(&*self);
            let req = Request { origin, now: 0, call: Call::ApproveVote { pending_id } };
            lemma_dispatch_keeps_well_formed(self@, req);
        }
        ensure_signed(origin)?;
        let mut pending_votes: HashMap<u64, PendingVote> = HashMap::new();
        std::mem::swap(&mut pending_votes, &mut self.pending_votes);
        let removed = pending_votes.remove(&pending_id);
        assert(pending_votes@.map_values(|p: PendingVote| payload_of(p)) =~= old(
            self,
        )@.pending_votes.remove(pending_id));
        self.pending_votes = pending_votes;
        match removed {
            None => {
                assert(self.pending_votes@ =~= old(self).pending_votes@);
                Err(Error::VoteNotFound)
            },
            Some(vote) => {
                let vote_id = self.vote_counter;
                let ghost payload = vote@;
                let mut encrypted_votes: HashMap<u64, PendingVote> = HashMap::new();
                std::mem::swap(&mut encrypted_votes, &mut self.encrypted_votes);
                encrypted_votes.insert(vote_id, vote);
                assert(encrypted_votes@.map_values(|p: PendingVote| payload_of(p)) =~= old(
                    self,
                )@.encrypted_votes.insert(vote_id, payload));
                self.encrypted_votes = encrypted_votes;
                self.vote_counter = vote_id.saturating_add(1);
                Ok(Event::VoteApproved { pending_id, vote_id })
            },
        }
    }

    /// Drops a queued vote; an id that is not queued is accepted as well
    /// (any signed account).
    pub fn reject_vote(&mut self, origin: Origin, pending_id: u64) -> (r: Result<Event, Error>)
        ensures
            realizes(spec_reject_vote(old(self)@, origin, pending_id), old(self)@, final(self)@, r),
            well_formed(final(self)@),
    {
        proof {
            use_type_invariant(&*self);
            let req = Request { origin, now: 0, call: Call::RejectVote { pending_id } };
            lemma_dispatch_keeps_well_formed(self@, req);
        }
        ensure_signed(origin)?;
        let mut pending_votes: HashMap<u64, PendingVote> = HashMap::new();
        std::mem::swap(&mut pending_votes, &mut self.pending_votes);
        pending_votes.remove(&pending_id);
        assert(pending_votes@.map_values(|p: PendingVote| payload_of(p)) =~= old(
            self,
        )@.pending_votes.remove(pending_id));
        self.pending_votes = pending_votes;
        Ok(Event::VoteRejected { pending_id })
    }

    /// One row per candidate, in registration order: its id, its name and its
    /// vote count.
    pub fn get_results(&self) -> (r: Vec<(u32, Vec<u8>, u32)>)
        ensures
            r@.len() == spec_results(self@).len(),
            forall|i: int|
                0 <= i < r@.len() ==> {
                    let (id, name, votes) = #[trigger] r@[i];
                    spec_results(self@)[i] == (id, name@, votes)
                },
    {
        let mut out: Vec<(u32, Vec<u8>, u32)> = Vec::new();
        let mut i: usize = 0;
        while i < self.candidates.len()
            invariant
                i <= self.candidates.len(),
                out@.len() == i,
                forall|j: int|
                    0 <= j < i ==> {
                        let (id, name, votes) = #[trigger] out@[j];
                        spec_results(self@)[j] == (id, name@, votes)
                    },
            decreases self.candidates.len() - i,
        {
            let c = &self.candidates[i];
            let votes: u32 = match self.vote_count.get(&c.id) {
                Some(v) => *v,
                None => 0,
            };
            let name = copy_bytes(&c.name);
            assert(spec_results(self@)[i as int] == result_row(self@, self@.candidates[i as int]));
            out.push((c.id, name, votes));
            i = i + 1;
        }
        out
    }

    /// Whether `account` has voted.
    pub fn has_account_voted(&self, account: &AccountId) -> (r: bool)
        ensures
            r == self@.has_voted.contains_key(*account),
    {
        self.has_voted.contains_key(account)
    }

    /// The candidate id that `account` voted for, if it voted.
    pub fn get_vote_for_account(&self, account: &AccountId) -> (r: Option<u32>)
        ensures
            r == (if self@.has_voted.contains_key(*account) {
                Some(self@.has_voted[*account])
            } else {
                None::<u32>
            }),
    {
        match self.has_voted.get(account) {
            Some(c) => Some(*c),
            None => None,
        }
    }

    /// The bounds the pallet was configured with.
    pub fn config(&self) -> (r: Config)
        ensures
            r == self@.config,
    {
        self.config
    }

    /// The election record, if an election exists.
    pub fn election(&self) -> (r: Option<&ElectionInfo>)
        ensures
            match r {
                Some(e) => self@.election == Some(e@),
                None => self@.election is None,
            },
    {
        match &self.election {
            Some(e) => Some(e),
            None => None,
        }
    }

    /// The registered candidates, in registration order.
    pub fn candidates(&self) -> (r: &Vec<Candidate>)
        ensures
            r@.map_values(|c: Candidate| record_of(c)) == self@.candidates,
    {
        &self.candidates
    }

    /// The candidate id that `account` voted for, if it voted.
    pub fn has_voted(&self, account: &AccountId) -> (r: Option<u32>)
        ensures
            r == (if self@.has_voted.contains_key(*account) {
                Some(self@.has_voted[*account])
            } else {
                None::<u32>
            }),
    {
        self.get_vote_for_account(account)
    }

    /// The vote count of `candidate_id`, zero where none is stored.
    pub fn vote_count(&self, candidate_id: u32) -> (r: u32)
        ensures
            r == count_of(self@.vote_count, candidate_id),
    {
        match self.vote_count.get(&candidate_id) {
            Some(v) => *v,
            None => 0,
        }
    }

    /// The number of votes cast in the current election.
    pub fn total_votes(&self) -> (r: u32)
        ensures
            r == self@.total_votes,
    {
        self.total_votes
    }

    /// The queued vote under `pending_id`, if any.
    pub fn pending_vote(&self, pending_id: u64) -> (r: Option<&PendingVote>)
        ensures
            match r {
                Some(p) => self@.pending_votes.contains_key(pending_id)
                    && self@.pending_votes[pending_id] == p@,
                None => !self@.pending_votes.contains_key(pending_id),
            },
    {
        self.pending_votes.get(&pending_id)
    }

    /// The approved vote under `vote_id`, if any.
    pub fn encrypted_vote(&self, vote_id: u64) -> (r: Option<&PendingVote>)
        ensures
            match r {
                Some(p) => self@.encrypted_votes.contains_key(vote_id)
                    && self@.encrypted_votes[vote_id] == p@,
                None => !self@.encrypted_votes.contains_key(vote_id),
            },
    {
        self.encrypted_votes.get(&vote_id)
    }

    /// The pending id that the next submission will receive.
    pub fn pending_vote_counter(&self) -> (r: u64)
        ensures
            r == self@.pending_vote_counter,
    {
        self.pending_vote_counter
    }

    /// The vote id that the next approval will issue.
    pub fn vote_counter(&self) -> (r: u64)
        ensures
            r == self@.vote_counter,
    {
        self.vote_counter
    }
}

} // verus!
