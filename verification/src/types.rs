//! The records the contract stores and returns, each with a view made of
//! plain mathematical values.
use vstd::prelude::*;
use crate::table::TableKey;

verus! {

/// Byte-wise equality of two byte strings.
pub fn same_bytes(a: &Vec<u8>, b: &Vec<u8>) -> (r: bool)
    ensures
        r == (a@ == b@),
{
    if a.len() != b.len() {
        return false;
    }
    let mut i: usize = 0;
    while i < a.len()
        invariant
            a.len() == b.len(),
            i <= a.len(),
            forall|j: int| 0 <= j < i ==> a@[j] == b@[j],
        decreases a.len() - i,
    {
        if a[i] != b[i] {
            return false;
        }
        i += 1;
    }
    assert(a@ =~= b@);
    true
}

/// A copy of a byte string.
pub fn copy_bytes(b: &Vec<u8>) -> (r: Vec<u8>)
    ensures
        r@ == b@,
{
    let r = b.clone();
    assert(r@ =~= b@);
    r
}

/// The views of a sequence of byte strings.
pub open spec fn texts_view(v: Seq<Vec<u8>>) -> Seq<Seq<u8>> {
    v.map_values(|t: Vec<u8>| t@)
}

/// A copy of a list of byte strings.
pub fn copy_texts(v: &Vec<Vec<u8>>) -> (r: Vec<Vec<u8>>)
    ensures
        texts_view(r@) == texts_view(v@),
{
    let mut r: Vec<Vec<u8>> = Vec::new();
    let mut i: usize = 0;
    while i < v.len()
        invariant
            i <= v.len(),
            r@.len() == i,
            forall|j: int| 0 <= j < i ==> #[trigger] r@[j]@ == v@[j]@,
        decreases v.len() - i,
    {
        r.push(copy_bytes(&v[i]));
        i += 1;
    }
    assert(texts_view(r@) =~= texts_view(v@));
    r
}

/// An account on the ledger, held as the bytes of its textual form.
#[derive(Debug, PartialEq, Eq)]
pub struct Address {
    pub bytes: Vec<u8>,
}

impl View for Address {
    type V = Seq<u8>;

    open spec fn view(&self) -> Seq<u8> {
        self.bytes@
    }
}

impl Address {
    pub fn new(bytes: Vec<u8>) -> (a: Address)
        ensures
            a@ == bytes@,
    {
        Address { bytes }
    }

    pub fn same_as(&self, other: &Address) -> (r: bool)
        ensures
            r == (self@ == other@),
    {
        same_bytes(&self.bytes, &other.bytes)
    }
}

impl Clone for Address {
    fn clone(&self) -> (r: Self)
        ensures
            r@ == self@,
    {
        Address { bytes: copy_bytes(&self.bytes) }
    }
}

impl TableKey for Address {
    fn same_key(&self, other: &Self) -> (r: bool) {
        self.same_as(other)
    }
}

/// The views of a sequence of addresses.
pub open spec fn addresses_view(v: Seq<Address>) -> Seq<Seq<u8>> {
    v.map_values(|a: Address| a@)
}

/// A copy of a list of addresses.
pub fn copy_addresses(v: &Vec<Address>) -> (r: Vec<Address>)
    ensures
        addresses_view(r@) == addresses_view(v@),
{
    let mut r: Vec<Address> = Vec::new();
    let mut i: usize = 0;
    while i < v.len()
        invariant
            i <= v.len(),
            r@.len() == i,
            forall|j: int| 0 <= j < i ==> #[trigger] r@[j]@ == v@[j]@,
        decreases v.len() - i,
    {
        r.push(v[i].clone());
        i += 1;
    }
    assert(addresses_view(r@) =~= addresses_view(v@));
    r
}

/// A copy of a list of proposal ids.
pub fn copy_ids(v: &Vec<u64>) -> (r: Vec<u64>)
    ensures
        r@ == v@,
{
    let r = v.clone();
    assert(r@ =~= v@);
    r
}

/// A proposal as it is stored.
#[derive(Debug, PartialEq, Eq)]
pub struct Proposal {
    pub id: u64,
    pub creator: Address,
    pub title: Vec<u8>,
    pub description: Vec<u8>,
    pub voting_start: u64,
    pub voting_end: u64,
    pub created_at: u64,
    pub options: Vec<Vec<u8>>,
}

pub struct ProposalView {
    pub id: u64,
    pub creator: Seq<u8>,
    pub title: Seq<u8>,
    pub description: Seq<u8>,
    pub voting_start: u64,
    pub voting_end: u64,
    pub created_at: u64,
    pub options: Seq<Seq<u8>>,
}

impl View for Proposal {
    type V = ProposalView;

    open spec fn view(&self) -> ProposalView {
        ProposalView {
            id: self.id,
            creator: self.creator@,
            title: self.title@,
            description: self.description@,
            voting_start: self.voting_start,
            voting_end: self.voting_end,
            created_at: self.created_at,
            options: texts_view(self.options@),
        }
    }
}

impl Clone for Proposal {
    fn clone(&self) -> (r: Self)
        ensures
            r@ == self@,
    {
        Proposal {
            id: self.id,
            creator: self.creator.clone(),
            title: copy_bytes(&self.title),
            description: copy_bytes(&self.description),
            voting_start: self.voting_start,
            voting_end: self.voting_end,
            created_at: self.created_at,
            options: copy_texts(&self.options),
        }
    }
}

/// A vote as it is stored.
#[derive(Debug, PartialEq, Eq)]
pub struct Vote {
    pub proposal_id: u64,
    pub voter: Address,
    pub choice: u32,
    pub timestamp: u64,
}

pub struct VoteView {
    pub proposal_id: u64,
    pub voter: Seq<u8>,
    pub choice: u32,
    pub timestamp: u64,
}

impl View for Vote {
    type V = VoteView;

    open spec fn view(&self) -> VoteView {
        VoteView {
            proposal_id: self.proposal_id,
            voter: self.voter@,
            choice: self.choice,
            timestamp: self.timestamp,
        }
    }
}

impl Clone for Vote {
    fn clone(&self) -> (r: Self)
        ensures
            r@ == self@,
    {
        Vote {
            proposal_id: self.proposal_id,
            voter: self.voter.clone(),
            choice: self.choice,
            timestamp: self.timestamp,
        }
    }
}

/// The views of a sequence of votes.
pub open spec fn votes_view(v: Seq<Vote>) -> Seq<VoteView> {
    v.map_values(|x: Vote| x@)
}

/// The views of a sequence of proposals.
pub open spec fn proposals_view(v: Seq<Proposal>) -> Seq<ProposalView> {
    v.map_values(|x: Proposal| x@)
}

/// The tally of a proposal.
#[derive(Debug, PartialEq, Eq)]
pub struct VoteResult {
    pub proposal_id: u64,
    pub option_counts: Vec<u64>,
    pub total_votes: u64,
    pub unique_voters: u64,
}

pub struct VoteResultView {
    pub proposal_id: u64,
    pub option_counts: Seq<u64>,
    pub total_votes: u64,
    pub unique_voters: u64,
}

impl View for VoteResult {
    type V = VoteResultView;

    open spec fn view(&self) -> VoteResultView {
        VoteResultView {
            proposal_id: self.proposal_id,
            option_counts: self.option_counts@,
            total_votes: self.total_votes,
            unique_voters: self.unique_voters,
        }
    }
}

impl Clone for VoteResult {
    fn clone(&self) -> (r: Self)
        ensures
            r@ == self@,
    {
        VoteResult {
            proposal_id: self.proposal_id,
            option_counts: copy_ids(&self.option_counts),
            total_votes: self.total_votes,
            unique_voters: self.unique_voters,
        }
    }
}

/// Why a request was refused.
#[derive(Clone, Copy, Debug, PartialEq, Eq, Structural, PartialOrd, Ord)]
pub enum ContractError {
    ProposalNotFound,
    ProposalNotActive,
    VotingPeriodEnded,
    AlreadyVoted,
    InvalidChoice,
    InvalidVotingPeriod,
    InvalidTitle,
    InvalidDescription,
    Unauthorized,
    InvalidInput,
}

/// What the contract announces when it changes state.
#[derive(Debug, PartialEq, Eq)]
pub enum Event {
    ProposalCreated { proposal_id: u64, creator: Address, title: Vec<u8>, voting_end: u64 },
    VoteCast { proposal_id: u64, voter: Address, choice: u32, timestamp: u64 },
}

pub enum EventView {
    ProposalCreated { proposal_id: u64, creator: Seq<u8>, title: Seq<u8>, voting_end: u64 },
    VoteCast { proposal_id: u64, voter: Seq<u8>, choice: u32, timestamp: u64 },
}

impl View for Event {
    type V = EventView;

    open spec fn view(&self) -> EventView {
        match self {
            Event::ProposalCreated { proposal_id, creator, title, voting_end } =>
                EventView::ProposalCreated {
                    proposal_id: *proposal_id,
                    creator: creator@,
                    title: title@,
                    voting_end: *voting_end,
                },
            Event::VoteCast { proposal_id, voter, choice, timestamp } => EventView::VoteCast {
                proposal_id: *proposal_id,
                voter: voter@,
                choice: *choice,
                timestamp: *timestamp,
            },
        }
    }
}

/// The views of a sequence of events.
pub open spec fn events_view(v: Seq<Event>) -> Seq<EventView> {
    v.map_values(|e: Event| e@)
}

/// The key of a vote: the proposal and the voter.
pub struct VoteKey {
    pub proposal_id: u64,
    pub voter: Address,
}

impl View for VoteKey {
    type V = (u64, Seq<u8>);

    open spec fn view(&self) -> (u64, Seq<u8>) {
        (self.proposal_id, self.voter@)
    }
}

impl TableKey for VoteKey {
    fn same_key(&self, other: &Self) -> (r: bool) {
        self.proposal_id == other.proposal_id && self.voter.same_as(&other.voter)
    }
}

/// The key of a tally: the proposal and the option's index.
pub struct TallyKey {
    pub proposal_id: u64,
    pub option: u32,
}

impl View for TallyKey {
    type V = (u64, u32);

    open spec fn view(&self) -> (u64, u32) {
        (self.proposal_id, self.option)
    }
}

impl TableKey for TallyKey {
    fn same_key(&self, other: &Self) -> (r: bool) {
        self.proposal_id == other.proposal_id && self.option == other.option
    }
}

} // verus!
