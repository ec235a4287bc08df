//! The voting contract over its storage.
use vstd::prelude::*;
use crate::model::{seq_sum, ContractState};
use crate::rules::{check_proposal_input, creation_error, window_fits};
use crate::table::Table;
use crate::types::{
    addresses_view, copy_addresses, copy_bytes, copy_ids, events_view, texts_view, Address,
    ContractError, Event, Proposal, ProposalView, TallyKey, Vote, VoteKey, VoteResult,
    proposals_view, votes_view,
};

verus! {

/// The contract and the storage it owns: the proposal counter, one keyed
/// table per kind of record, and the events announced so far. The ledger
/// time and the caller's authorization come from the host, which also
/// persists these tables between invocations.
pub struct VotingContract {
    pub proposal_count: u64,
    pub proposals: Table<u64, Proposal>,
    pub votes: Table<VoteKey, Vote>,
    pub proposal_voters: Table<u64, Vec<Address>>,
    pub voter_proposals: Table<Address, Vec<u64>>,
    pub vote_counts: Table<TallyKey, u64>,
    pub events: Vec<Event>,
}

impl View for VotingContract {
    type V = ContractState;

    closed spec fn view(&self) -> ContractState {
        ContractState {
            proposal_count: self.proposal_count,
            proposals: self.proposals.contents().map_values(|p: Proposal| p@),
            votes: self.votes.contents().map_values(|v: Vote| v@),
            proposal_voters: self.proposal_voters.contents().map_values(
                |l: Vec<Address>| addresses_view(l@),
            ),
            voter_proposals: self.voter_proposals.contents().map_values(|l: Vec<u64>| l@),
            vote_counts: self.vote_counts.contents(),
            events: events_view(self.events@),
        }
    }
}

impl VotingContract {
    /// A contract whose storage holds nothing yet.
    pub fn new() -> (c: VotingContract)
        ensures
            c@ == ContractState::empty(),
    {
        let c = VotingContract {
            proposal_count: 0,
            proposals: Table::new(),
            votes: Table::new(),
            proposal_voters: Table::new(),
            voter_proposals: Table::new(),
            vote_counts: Table::new(),
            events: Vec::new(),
        };
        assert(c@ =~= ContractState::empty());
        c
    }

    /// Sets the proposal counter to zero.
    pub fn initialize(&mut self)
        ensures
            final(self)@ == (ContractState { proposal_count: 0, ..old(self)@ }),
    {
        self.proposal_count = 0;
    }

    /// The events announced so far, oldest first.
    pub fn events(&self) -> (r: &Vec<Event>)
        ensures
            events_view(r@) == self@.events,
    {
        &self.events
    }

    // ---------- proposals ----------

    /// Stores a copy of a proposal under its id.
    pub fn store_proposal(&mut self, proposal: &Proposal)
        ensures
            final(self)@ == (ContractState {
                proposals: old(self)@.proposals.insert(proposal.id, proposal@),
                ..old(self)@
            }),
    {
        let copy = proposal.clone();
        self.proposals.insert(proposal.id, copy);
        assert(self@.proposals =~= old(self)@.proposals.insert(proposal.id, proposal@));
    }

    /// A copy of the proposal stored under an id, if any.
    pub fn get_proposal_internal(&self, proposal_id: u64) -> (r: Option<Proposal>)
        ensures
            match r {
                Some(p) => self@.proposals.contains_key(proposal_id) && p@
                    == self@.proposals[proposal_id],
                None => !self@.proposals.contains_key(proposal_id),
            },
    {
        match self.proposals.get(&proposal_id) {
            Some(p) => Some(p.clone()),
            None => None,
        }
    }

    /// The number of proposals created so far; the last id given out.
    pub fn get_proposal_count(&self) -> (r: u64)
        ensures
            r == self@.proposal_count,
    {
        self.proposal_count
    }

    /// Advances the proposal counter and returns its new value, the next id.
    pub fn increment_proposal_count(&mut self) -> (r: u64)
        requires
            old(self)@.proposal_count < u64::MAX,
        ensures
            r == old(self)@.proposal_count + 1,
            final(self)@ == (ContractState { proposal_count: r, ..old(self)@ }),
    {
        let next = self.proposal_count + 1;
        self.proposal_count = next;
        next
    }

    // ---------- votes ----------

    /// The key a vote is stored under.
    pub fn vote_key(proposal_id: u64, voter: &Address) -> (k: VoteKey)
        ensures
            k@ == (proposal_id, voter@),
    {
        VoteKey { proposal_id, voter: voter.clone() }
    }

    /// Stores a copy of a vote under its key and appends it to both indexes.
    pub fn store_vote(&mut self, vote: &Vote)
        ensures
            final(self)@ == old(self)@.vote_stored(vote@),
    {
        let key = Self::vote_key(vote.proposal_id, &vote.voter);
        self.votes.insert(key, vote.clone());
        assert(self@.votes =~= old(self)@.votes.insert((vote.proposal_id, vote.voter@), vote@));
        self.add_vote_to_proposal_index(vote.proposal_id, &vote.voter);
        self.add_vote_to_voter_index(&vote.voter, vote.proposal_id);
    }

    /// A copy of the vote of a voter on a proposal, if any.
    pub fn get_vote_internal(&self, proposal_id: u64, voter: &Address) -> (r: Option<Vote>)
        ensures
            match r {
                Some(v) => self@.has_vote(proposal_id, voter@) && v@ == self@.votes[(
                    proposal_id,
                    voter@,
                )],
                None => !self@.has_vote(proposal_id, voter@),
            },
    {
        let key = Self::vote_key(proposal_id, voter);
        match self.votes.get(&key) {
            Some(v) => Some(v.clone()),
            None => None,
        }
    }

    /// Whether a vote of the voter on the proposal is stored.
    pub fn has_voted_internal(&self, proposal_id: u64, voter: &Address) -> (r: bool)
        ensures
            r == self@.has_vote(proposal_id, voter@),
    {
        let key = Self::vote_key(proposal_id, voter);
        self.votes.contains(&key)
    }

    /// Appends a voter to the voters of a proposal.
    pub fn add_vote_to_proposal_index(&mut self, proposal_id: u64, voter: &Address)
        ensures
            final(self)@ == (ContractState {
                proposal_voters: old(self)@.proposal_voters.insert(
                    proposal_id,
                    old(self)@.voters_of(proposal_id).push(voter@),
                ),
                ..old(self)@
            }),
    {
        let mut voters = match self.proposal_voters.get(&proposal_id) {
            Some(l) => copy_addresses(l),
            None => Vec::new(),
        };
        assert(addresses_view(voters@) == old(self)@.voters_of(proposal_id));
        voters.push(voter.clone());
        let ghost pushed = addresses_view(voters@);
        assert(pushed =~= old(self)@.voters_of(proposal_id).push(voter@));
        self.proposal_voters.insert(proposal_id, voters);
        assert(self@.proposal_voters =~= old(self)@.proposal_voters.insert(proposal_id, pushed));
    }

    /// The voters of a proposal, in voting order.
    pub fn get_proposal_voters(&self, proposal_id: u64) -> (r: Vec<Address>)
        ensures
            addresses_view(r@) == self@.voters_of(proposal_id),
    {
        match self.proposal_voters.get(&proposal_id) {
            Some(l) => copy_addresses(l),
            None => {
                let r = Vec::new();
                assert(addresses_view(r@) =~= Seq::<Seq<u8>>::empty());
                r
            },
        }
    }

    /// Appends a proposal to the proposals a voter voted on.
    pub fn add_vote_to_voter_index(&mut self, voter: &Address, proposal_id: u64)
        ensures
            final(self)@ == (ContractState {
                voter_proposals: old(self)@.voter_proposals.insert(
                    voter@,
                    old(self)@.history_of(voter@).push(proposal_id),
                ),
                ..old(self)@
            }),
    {
        let mut ids = match self.voter_proposals.get(voter) {
            Some(l) => copy_ids(l),
            None => Vec::new(),
        };
        assert(ids@ == old(self)@.history_of(voter@));
        ids.push(proposal_id);
        let ghost pushed = ids@;
        self.voter_proposals.insert(voter.clone(), ids);
        assert(self@.voter_proposals =~= old(self)@.voter_proposals.insert(voter@, pushed));
    }

    /// The proposals a voter voted on, in voting order.
    pub fn get_voter_proposal_ids(&self, voter: &Address) -> (r: Vec<u64>)
        ensures
            r@ == self@.history_of(voter@),
    {
        match self.voter_proposals.get(voter) {
            Some(l) => copy_ids(l),
            None => Vec::new(),
        }
    }

    // ---------- tallies ----------

    /// The key a tally is stored under.
    pub fn vote_count_key(proposal_id: u64, option_index: u32) -> (k: TallyKey)
        ensures
            k@ == (proposal_id, option_index),
    {
        TallyKey { proposal_id, option: option_index }
    }

    /// Sets the tallies of options `0 .. num_options` of a proposal to zero.
    pub fn initialize_vote_counts(&mut self, proposal_id: u64, num_options: u32)
        ensures
            final(self)@ == old(self)@.tallies_zeroed(proposal_id, num_options as nat),
    {
        let mut option_index: u32 = 0;
        while option_index < num_options
            invariant
                option_index <= num_options,
                self@ == old(self)@.tallies_zeroed(proposal_id, option_index as nat),
            decreases num_options - option_index,
        {
            let key = Self::vote_count_key(proposal_id, option_index);
            self.vote_counts.insert(key, 0);
            assert(self@.vote_counts =~= old(self)@.tallies_zeroed(
                proposal_id,
                (option_index + 1) as nat,
            ).vote_counts);
            option_index += 1;
        }
    }

    /// Adds one to the tally of an option.
    pub fn increment_vote_count(&mut self, proposal_id: u64, option_index: u32)
        requires
            old(self)@.tally(proposal_id, option_index) < u64::MAX,
        ensures
            final(self)@ == old(self)@.tally_incremented(proposal_id, option_index),
    {
        let current = self.get_vote_count(proposal_id, option_index);
        let key = Self::vote_count_key(proposal_id, option_index);
        self.vote_counts.insert(key, current + 1);
    }

    /// The tally of an option; zero where none is stored.
    pub fn get_vote_count(&self, proposal_id: u64, option_index: u32) -> (r: u64)
        ensures
            r == self@.tally(proposal_id, option_index),
    {
        let key = Self::vote_count_key(proposal_id, option_index);
        match self.vote_counts.get(&key) {
            Some(c) => *c,
            None => 0,
        }
    }

    /// The tallies of options `0 .. num_options` of a proposal.
    pub fn get_all_vote_counts(&self, proposal_id: u64, num_options: u32) -> (r: Vec<u64>)
        ensures
            r@ == self@.tallies(proposal_id, num_options as nat),
    {
        let mut counts: Vec<u64> = Vec::new();
        let mut option_index: u32 = 0;
        while option_index < num_options
            invariant
                option_index <= num_options,
                counts@ == self@.tallies(proposal_id, option_index as nat),
            decreases num_options - option_index,
        {
            let count = self.get_vote_count(proposal_id, option_index);
            counts.push(count);
            assert(counts@ =~= self@.tallies(proposal_id, (option_index + 1) as nat));
            option_index += 1;
        }
        counts
    }

    // ---------- entry points ----------

    /// Creates a proposal under the next id, with the voting window opening
    /// `now`, and returns the id; refuses one that breaks the rules.
    pub fn create_proposal(
        &mut self,
        now: u64,
        creator: Address,
        title: Vec<u8>,
        description: Vec<u8>,
        voting_end: u64,
        options: Vec<Vec<u8>>,
    ) -> (r: Result<u64, ContractError>)
        requires
            window_fits(now, title@, description@),
            creation_error(now, title@, description@, voting_end, texts_view(options@)) is None
                ==> old(self)@.proposal_count < u64::MAX,
        ensures
            match creation_error(now, title@, description@, voting_end, texts_view(options@)) {
                Some(e) => r == Err::<u64, ContractError>(e) && final(self)@ == old(self)@,
                None => {
                    &&& r == Ok::<u64, ContractError>((old(self)@.proposal_count + 1) as u64)
                    &&& final(self)@ == old(self)@.proposal_created(
                        ContractState::new_proposal(
                            (old(self)@.proposal_count + 1) as u64,
                            now,
                            creator@,
                            title@,
                            description@,
                            voting_end,
                            texts_view(options@),
                        ),
                    )
                },
            },
    {
        if let Err(e) = check_proposal_input(now, &title, &description, voting_end, &options) {
            return Err(e);
        }
        let num_options = options.len() as u32;
        let proposal_id = self.increment_proposal_count();
        let event = Event::ProposalCreated {
            proposal_id,
            creator: creator.clone(),
            title: copy_bytes(&title),
            voting_end,
        };
        let proposal = Proposal {
            id: proposal_id,
            creator,
            title,
            description,
            voting_start: now,
            voting_end,
            created_at: now,
            options,
        };
        self.store_proposal(&proposal);
        self.initialize_vote_counts(proposal_id, num_options);
        let ghost before = self@;
        self.events.push(event);
        assert(self@.events =~= before.events.push(event@));
        Ok(proposal_id)
    }

    /// Whether the voting window of a proposal is still open at `now`.
    pub fn is_proposal_active(&self, now: u64, proposal_id: u64) -> (r: Result<bool, ContractError>)
        ensures
            if self@.proposals.contains_key(proposal_id) {
                r == Ok::<bool, ContractError>(now < self@.proposals[proposal_id].voting_end)
            } else {
                r == Err::<bool, ContractError>(ContractError::ProposalNotFound)
            },
    {
        match self.get_proposal_internal(proposal_id) {
            Some(p) => Ok(now < p.voting_end),
            None => Err(ContractError::ProposalNotFound),
        }
    }

    /// Whether a voter has voted on an existing proposal.
    pub fn has_voted(&self, voter: &Address, proposal_id: u64) -> (r: Result<bool, ContractError>)
        ensures
            if self@.proposals.contains_key(proposal_id) {
                r == Ok::<bool, ContractError>(self@.has_vote(proposal_id, voter@))
            } else {
                r == Err::<bool, ContractError>(ContractError::ProposalNotFound)
            },
    {
        if self.get_proposal_internal(proposal_id).is_none() {
            return Err(ContractError::ProposalNotFound);
        }
        Ok(self.has_voted_internal(proposal_id, voter))
    }

    /// Records a voter's choice on a proposal at `now`; refuses a vote on a
    /// missing or closed proposal, a second vote, and a choice out of range.
    pub fn cast_vote(&mut self, now: u64, voter: Address, proposal_id: u64, choice: u32) -> (r:
        Result<(), ContractError>)
        requires
            old(self)@.cast_error(now, voter@, proposal_id, choice) is None ==> old(self)@.tally(
                proposal_id,
                choice,
            ) < u64::MAX,
        ensures
            match old(self)@.cast_error(now, voter@, proposal_id, choice) {
                Some(e) => r == Err::<(), ContractError>(e) && final(self)@ == old(self)@,
                None => r == Ok::<(), ContractError>(()) && final(self)@ == old(self)@.vote_cast(
                    now,
                    voter@,
                    proposal_id,
                    choice,
                ),
            },
    {
        let proposal = match self.get_proposal_internal(proposal_id) {
            Some(p) => p,
            None => return Err(ContractError::ProposalNotFound),
        };
        if now >= proposal.voting_end {
            return Err(ContractError::VotingPeriodEnded);
        }
        if self.has_voted_internal(proposal_id, &voter) {
            return Err(ContractError::AlreadyVoted);
        }
        assert(proposal@.options.len() == proposal.options@.len());
        if choice as usize >= proposal.options.len() {
            return Err(ContractError::InvalidChoice);
        }
        let event = Event::VoteCast {
            proposal_id,
            voter: voter.clone(),
            choice,
            timestamp: now,
        };
        let vote = Vote { proposal_id, voter, choice, timestamp: now };
        self.store_vote(&vote);
        self.increment_vote_count(proposal_id, choice);
        let ghost before = self@;
        self.events.push(event);
        assert(self@.events =~= before.events.push(event@));
        Ok(())
    }

    /// The proposal stored under an id.
    pub fn get_proposal(&self, proposal_id: u64) -> (r: Result<Proposal, ContractError>)
        ensures
            match r {
                Ok(p) => self@.proposals.contains_key(proposal_id) && p@
                    == self@.proposals[proposal_id],
                Err(e) => !self@.proposals.contains_key(proposal_id) && e
                    == ContractError::ProposalNotFound,
            },
    {
        match self.get_proposal_internal(proposal_id) {
            Some(p) => Ok(p),
            None => Err(ContractError::ProposalNotFound),
        }
    }

    /// The stored proposals with ids `start + 1 ..= start + limit`, in order
    /// of id, stopping at the last id given out.
    pub fn get_proposals(&self, start: u64, limit: u64) -> (r: Vec<Proposal>)
        requires
            start + limit <= u64::MAX,
        ensures
            proposals_view(r@) == self@.proposal_page(start as int, self@.page_end(start, limit)),
    {
        let mut proposals: Vec<Proposal> = Vec::new();
        let proposal_count = self.get_proposal_count();
        let end = if start + limit > proposal_count {
            proposal_count
        } else {
            start + limit
        };
        assert(proposals_view(proposals@) =~= self@.proposal_page(start as int, start as int));
        let mut id = start;
        while id < end
            invariant
                start <= id,
                id == start || id <= end,
                proposals_view(proposals@) == self@.proposal_page(start as int, id as int),
            decreases end - id,
        {
            let proposal_id = id + 1;
            let ghost prev = proposals@;
            if let Some(proposal) = self.get_proposal_internal(proposal_id) {
                proposals.push(proposal);
                assert(proposals_view(proposals@) =~= proposals_view(prev).push(proposal@));
            }
            id += 1;
        }
        assert(end as int == self@.page_end(start, limit));
        if end <= start {
            assert(self@.proposal_page(start as int, end as int) == Seq::<ProposalView>::empty());
            assert(self@.proposal_page(start as int, id as int) == Seq::<ProposalView>::empty());
        } else {
            assert(id == end);
        }
        proposals
    }

    /// The votes on a proposal, in the order its voters voted.
    pub fn get_proposal_votes(&self, proposal_id: u64) -> (r: Vec<Vote>)
        ensures
            votes_view(r@) == self@.votes_of_voters(proposal_id, self@.voters_of(proposal_id)),
    {
        let mut votes: Vec<Vote> = Vec::new();
        let voters = self.get_proposal_voters(proposal_id);
        let ghost all = addresses_view(voters@);
        let mut i: usize = 0;
        assert(all.take(0) =~= Seq::<Seq<u8>>::empty());
        while i < voters.len()
            invariant
                i <= voters.len(),
                all == addresses_view(voters@),
                votes_view(votes@) == self@.votes_of_voters(proposal_id, all.take(i as int)),
            decreases voters.len() - i,
        {
            let ghost prev = votes@;
            assert(all.take(i + 1).drop_last() =~= all.take(i as int));
            assert(all.take(i + 1).last() == voters@[i as int]@);
            if let Some(vote) = self.get_vote_internal(proposal_id, &voters[i]) {
                votes.push(vote);
                assert(votes_view(votes@) =~= votes_view(prev).push(vote@));
            }
            i += 1;
        }
        assert(all.take(voters.len() as int) =~= all);
        votes
    }

    /// The votes of a voter, in the order the voter cast them.
    pub fn get_voter_history(&self, voter: &Address) -> (r: Vec<Vote>)
        ensures
            votes_view(r@) == self@.votes_on_proposals(voter@, self@.history_of(voter@)),
    {
        let mut votes: Vec<Vote> = Vec::new();
        let proposal_ids = self.get_voter_proposal_ids(voter);
        let mut i: usize = 0;
        assert(proposal_ids@.take(0) =~= Seq::<u64>::empty());
        while i < proposal_ids.len()
            invariant
                i <= proposal_ids.len(),
                votes_view(votes@) == self@.votes_on_proposals(voter@, proposal_ids@.take(i as int)),
            decreases proposal_ids.len() - i,
        {
            let ghost prev = votes@;
            assert(proposal_ids@.take(i + 1).drop_last() =~= proposal_ids@.take(i as int));
            let proposal_id = proposal_ids[i];
            if let Some(vote) = self.get_vote_internal(proposal_id, voter) {
                votes.push(vote);
                assert(votes_view(votes@) =~= votes_view(prev).push(vote@));
            }
            i += 1;
        }
        assert(proposal_ids@.take(proposal_ids.len() as int) =~= proposal_ids@);
        votes
    }

    /// The tallies of a proposal's options, their sum, and the number of
    /// recorded voters.
    pub fn get_vote_results(&self, proposal_id: u64) -> (r: Result<VoteResult, ContractError>)
        requires
            self@.proposals.contains_key(proposal_id) ==> {
                &&& self@.proposals[proposal_id].options.len() <= u32::MAX
                &&& seq_sum(
                    self@.tallies(proposal_id, self@.proposals[proposal_id].options.len()),
                ) <= u64::MAX
            },
        ensures
            match r {
                Ok(res) => self@.proposals.contains_key(proposal_id) && res@ == self@.result_of(
                    proposal_id,
                ),
                Err(e) => !self@.proposals.contains_key(proposal_id) && e
                    == ContractError::ProposalNotFound,
            },
    {
        let proposal = match self.get_proposal_internal(proposal_id) {
            Some(p) => p,
            None => return Err(ContractError::ProposalNotFound),
        };
        assert(proposal@.options.len() == proposal.options@.len());
        let num_options = proposal.options.len() as u32;
        let option_counts = self.get_all_vote_counts(proposal_id, num_options);
        let ghost counts = option_counts@;
        let mut total_votes: u64 = 0;
        let mut i: usize = 0;
        assert(counts.take(0) =~= Seq::<u64>::empty());
        while i < option_counts.len()
            invariant
                i <= option_counts.len(),
                counts == option_counts@,
                seq_sum(counts) <= u64::MAX,
                total_votes == seq_sum(counts.take(i as int)),
            decreases option_counts.len() - i,
        {
            assert(counts.take(i + 1).drop_last() =~= counts.take(i as int));
            proof {
                lemma_prefix_sum_bounded(counts, i + 1);
            }
            total_votes = total_votes + option_counts[i];
            i += 1;
        }
        assert(counts.take(option_counts.len() as int) =~= counts);
        let voters = self.get_proposal_voters(proposal_id);
        let unique_voters = voters.len() as u64;
        Ok(VoteResult { proposal_id, option_counts, total_votes, unique_voters })
    }
}

} // verus!

verus! {

/// A prefix of a sequence of counts sums to no more than the whole.
pub proof fn lemma_prefix_sum_bounded(s: Seq<u64>, n: int)
    requires
        0 <= n <= s.len(),
    ensures
        seq_sum(s.take(n)) <= seq_sum(s),
    decreases s.len() - n,
{
    if n < s.len() {
        lemma_prefix_sum_bounded(s, n + 1);
        assert(s.take(n + 1).drop_last() =~= s.take(n));
    } else {
        assert(s.take(n) =~= s);
    }
}

} // verus!
