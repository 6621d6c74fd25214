use vstd::prelude::*;

verus! {

/// Identity of a signed account.
pub type AccountId = u64;

/// Height of a block: the clock against which election windows are checked.
pub type BlockNumber = u64;

/// Bounds that the runtime configures once for the whole pallet.
#[derive(Clone, Copy, Debug, PartialEq, Eq, Structural)]
pub struct Config {
    /// Most candidates an election may hold.
    pub max_candidates: u32,
    /// Longest title, candidate name or description, in bytes.
    pub max_name_length: u32,
    /// Longest encrypted vote accepted by the submission queue, in bytes.
    pub max_encrypted_vote_length: u32,
    /// Longest blind signature accepted by the submission queue, in bytes.
    pub max_blind_signature_length: u32,
}

/// Who is calling, as the runtime resolved it.
#[derive(Clone, Copy, Debug, PartialEq, Eq, Structural)]
pub enum Origin {
    /// The administrator.
    Root,
    /// An ordinary signed account.
    Signed(AccountId),
    /// No identity at all.
    Unsigned,
}

/// Why a call was refused. A refused call changes nothing.
#[derive(Clone, Copy, Debug, PartialEq, Eq, Structural)]
pub enum Error {
    /// The caller is not of the class that the call demands.
    BadOrigin,
    /// An election already exists.
    ElectionAlreadyExists,
    /// No election exists.
    NoElectionExists,
    /// The election window has not opened yet.
    ElectionNotStarted,
    /// The election window has closed.
    ElectionEnded,
    /// The election is not active.
    ElectionNotActive,
    /// The voter has already voted.
    AlreadyVoted,
    /// No candidate has this id.
    InvalidCandidate,
    /// The candidate list is full.
    TooManyCandidates,
    /// A title, name or description is too long.
    NameTooLong,
    /// The end block does not come after the start block.
    InvalidTimeRange,
    /// The election is already finalized.
    AlreadyFinalized,
    /// The election is active and cannot be modified.
    ElectionIsActive,
    /// The encrypted vote is too large.
    EncryptedVoteTooLarge,
    /// The blind signature is too large.
    BlindSignatureTooLarge,
    /// No pending vote has this id.
    VoteNotFound,
    /// The caller is not an approval authority. No call raises it at present.
    NotAnAuthority,
}

/// The single election's metadata.
#[derive(Clone, Debug, PartialEq, Eq)]
pub struct ElectionInfo {
    pub title: Vec<u8>,
    pub start_block: BlockNumber,
    pub end_block: BlockNumber,
    pub is_active: bool,
    pub is_finalized: bool,
}

/// A registered candidate.
#[derive(Clone, Debug, PartialEq, Eq)]
pub struct Candidate {
    pub id: u32,
    pub name: Vec<u8>,
    pub description: Vec<u8>,
}

/// An opaque blinded vote: queued while pending, kept verbatim once approved.
#[derive(Clone, Debug, PartialEq, Eq)]
pub struct PendingVote {
    pub encrypted_vote: Vec<u8>,
    pub blind_signature: Vec<u8>,
}

/// An approved vote in the permanent ledger; it has the shape of a pending one.
pub type EncryptedVote = PendingVote;

/// A fact about a completed call, for the runtime to deposit.
#[derive(Clone, Debug, PartialEq, Eq)]
pub enum Event {
    ElectionCreated { title: Vec<u8>, start_block: BlockNumber, end_block: BlockNumber },
    CandidateAdded { candidate_id: u32, name: Vec<u8> },
    VoteCast { voter: AccountId, candidate_id: u32 },
    ElectionStarted,
    ElectionEnded,
    ElectionFinalized,
    ElectionReset,
    VoteSubmittedForApproval { pending_id: u64 },
    VoteApproved { pending_id: u64, vote_id: u64 },
    VoteRejected { pending_id: u64 },
}

/// Mathematical form of an [`ElectionInfo`].
pub struct ElectionRecord {
    pub title: Seq<u8>,
    pub start_block: BlockNumber,
    pub end_block: BlockNumber,
    pub is_active: bool,
    pub is_finalized: bool,
}

/// Mathematical form of a [`Candidate`].
pub struct CandidateRecord {
    pub id: u32,
    pub name: Seq<u8>,
    pub description: Seq<u8>,
}

/// Mathematical form of a [`PendingVote`].
pub struct VotePayload {
    pub encrypted_vote: Seq<u8>,
    pub blind_signature: Seq<u8>,
}

/// Mathematical form of an [`Event`].
pub enum EventRecord {
    ElectionCreated { title: Seq<u8>, start_block: BlockNumber, end_block: BlockNumber },
    CandidateAdded { candidate_id: u32, name: Seq<u8> },
    VoteCast { voter: AccountId, candidate_id: u32 },
    ElectionStarted,
    ElectionEnded,
    ElectionFinalized,
    ElectionReset,
    VoteSubmittedForApproval { pending_id: u64 },
    VoteApproved { pending_id: u64, vote_id: u64 },
    VoteRejected { pending_id: u64 },
}

impl View for ElectionInfo {
    type V = ElectionRecord;

    open spec fn view(&self) -> ElectionRecord {
        ElectionRecord {
            title: self.title@,
            start_block: self.start_block,
            end_block: self.end_block,
            is_active: self.is_active,
            is_finalized: self.is_finalized,
        }
    }
}

impl View for Candidate {
    type V = CandidateRecord;

    open spec fn view(&self) -> CandidateRecord {
        CandidateRecord { id: self.id, name: self.name@, description: self.description@ }
    }
}

impl View for PendingVote {
    type V = VotePayload;

    open spec fn view(&self) -> VotePayload {
        VotePayload { encrypted_vote: self.encrypted_vote@, blind_signature: self.blind_signature@ }
    }
}

impl View for Event {
    type V = EventRecord;

    open spec fn view(&self) -> EventRecord {
        match self {
            Event::ElectionCreated { title, start_block, end_block } => EventRecord::ElectionCreated {
                title: title@,
                start_block: *start_block,
                end_block: *end_block,
            },
            Event::CandidateAdded { candidate_id, name } => EventRecord::CandidateAdded {
                candidate_id: *candidate_id,
                name: name@,
            },
            Event::VoteCast { voter, candidate_id } => EventRecord::VoteCast {
                voter: *voter,
                candidate_id: *candidate_id,
            },
            Event::ElectionStarted => EventRecord::ElectionStarted,
            Event::ElectionEnded => EventRecord::ElectionEnded,
            Event::ElectionFinalized => EventRecord::ElectionFinalized,
            Event::ElectionReset => EventRecord::ElectionReset,
            Event::VoteSubmittedForApproval { pending_id } => EventRecord::VoteSubmittedForApproval {
                pending_id: *pending_id,
            },
            Event::VoteApproved { pending_id, vote_id } => EventRecord::VoteApproved {
                pending_id: *pending_id,
                vote_id: *vote_id,
            },
            Event::VoteRejected { pending_id } => EventRecord::VoteRejected {
                pending_id: *pending_id,
            },
        }
    }
}

/// Copies a byte string.
pub fn copy_bytes(v: &Vec<u8>) -> (r: Vec<u8>)
    ensures
        r@ == v@,
{
    let mut r: Vec<u8> = Vec::with_capacity(v.len());
    let mut i: usize = 0;
    while i < v.len()
        invariant
            i <= v.len(),
            r@ == v@.subrange(0, i as int),
        decreases v.len() - i,
    {
        r.push(v[i]);
        i = i + 1;
    }
    assert(r@ =~= v@);
    r
}

} // verus!
