//! The contract's storage as mathematical maps, and what each operation does
//! to it.
use vstd::prelude::*;
use crate::types::{ContractError, EventView, ProposalView, VoteResultView, VoteView};

verus! {

/// Everything the contract keeps: the proposal counter, proposals by id,
/// votes by (proposal, voter), the voters of each proposal in voting order,
/// the proposals each voter voted on in voting order, the tally of each
/// (proposal, option), and the events announced so far.
#[verifier::ext_equal]
pub struct ContractState {
    pub proposal_count: u64,
    pub proposals: Map<u64, ProposalView>,
    pub votes: Map<(u64, Seq<u8>), VoteView>,
    pub proposal_voters: Map<u64, Seq<Seq<u8>>>,
    pub voter_proposals: Map<Seq<u8>, Seq<u64>>,
    pub vote_counts: Map<(u64, u32), u64>,
    pub events: Seq<EventView>,
}

/// The sum of a sequence of counts.
pub open spec fn seq_sum(s: Seq<u64>) -> int
    decreases s.len(),
{
    if s.len() == 0 {
        0
    } else {
        seq_sum(s.drop_last()) + s.last()
    }
}

impl ContractState {
    /// Storage as it is before anything was written.
    pub open spec fn empty() -> ContractState {
        ContractState {
            proposal_count: 0,
            proposals: Map::empty(),
            votes: Map::empty(),
            proposal_voters: Map::empty(),
            voter_proposals: Map::empty(),
            vote_counts: Map::empty(),
            events: Seq::empty(),
        }
    }

    /// The voters recorded for a proposal; none where nothing was recorded.
    pub open spec fn voters_of(self, proposal_id: u64) -> Seq<Seq<u8>> {
        if self.proposal_voters.contains_key(proposal_id) {
            self.proposal_voters[proposal_id]
        } else {
            Seq::empty()
        }
    }

    /// The proposals recorded for a voter; none where nothing was recorded.
    pub open spec fn history_of(self, voter: Seq<u8>) -> Seq<u64> {
        if self.voter_proposals.contains_key(voter) {
            self.voter_proposals[voter]
        } else {
            Seq::empty()
        }
    }

    /// The tally of an option; zero where nothing was recorded.
    pub open spec fn tally(self, proposal_id: u64, option: u32) -> u64 {
        if self.vote_counts.contains_key((proposal_id, option)) {
            self.vote_counts[(proposal_id, option)]
        } else {
            0
        }
    }

    /// The tallies of options `0 .. n` of a proposal.
    pub open spec fn tallies(self, proposal_id: u64, n: nat) -> Seq<u64> {
        Seq::new(n, |o: int| self.tally(proposal_id, o as u32))
    }

    pub open spec fn has_vote(self, proposal_id: u64, voter: Seq<u8>) -> bool {
        self.votes.contains_key((proposal_id, voter))
    }

    /// Records a vote under its key and appends it to both indexes.
    pub open spec fn vote_stored(self, vote: VoteView) -> ContractState {
        ContractState {
            votes: self.votes.insert((vote.proposal_id, vote.voter), vote),
            proposal_voters: self.proposal_voters.insert(
                vote.proposal_id,
                self.voters_of(vote.proposal_id).push(vote.voter),
            ),
            voter_proposals: self.voter_proposals.insert(
                vote.voter,
                self.history_of(vote.voter).push(vote.proposal_id),
            ),
            ..self
        }
    }

    /// Adds one to the tally of an option.
    pub open spec fn tally_incremented(self, proposal_id: u64, option: u32) -> ContractState {
        ContractState {
            vote_counts: self.vote_counts.insert(
                (proposal_id, option),
                (self.tally(proposal_id, option) + 1) as u64,
            ),
            ..self
        }
    }

    /// Sets the tallies of options `0 .. n` of a proposal to zero.
    pub open spec fn tallies_zeroed(self, proposal_id: u64, n: nat) -> ContractState {
        ContractState {
            vote_counts: Map::new(
                |k: (u64, u32)|
                    self.vote_counts.contains_key(k) || (k.0 == proposal_id && k.1 < n),
                |k: (u64, u32)|
                    if k.0 == proposal_id && k.1 < n {
                        0u64
                    } else {
                        self.vote_counts[k]
                    },
            ),
            ..self
        }
    }

    /// The proposal that a successful creation stores.
    pub open spec fn new_proposal(
        id: u64,
        now: u64,
        creator: Seq<u8>,
        title: Seq<u8>,
        description: Seq<u8>,
        voting_end: u64,
        options: Seq<Seq<u8>>,
    ) -> ProposalView {
        ProposalView {
            id,
            creator,
            title,
            description,
            voting_start: now,
            voting_end,
            created_at: now,
            options,
        }
    }

    /// The state after proposal `p` was created under the next id.
    pub open spec fn proposal_created(self, p: ProposalView) -> ContractState {
        let s = ContractState {
            proposal_count: p.id,
            proposals: self.proposals.insert(p.id, p),
            ..self
        }.tallies_zeroed(p.id, p.options.len());
        ContractState {
            events: s.events.push(
                EventView::ProposalCreated {
                    proposal_id: p.id,
                    creator: p.creator,
                    title: p.title,
                    voting_end: p.voting_end,
                },
            ),
            ..s
        }
    }

    /// The error a vote is refused with, checked in this order: the proposal
    /// exists, its window is open, the voter has not voted on it, the choice
    /// names one of its options; `None` if the vote is accepted.
    pub open spec fn cast_error(self, now: u64, voter: Seq<u8>, proposal_id: u64, choice: u32) -> Option<
        ContractError,
    > {
        if !self.proposals.contains_key(proposal_id) {
            Some(ContractError::ProposalNotFound)
        } else if now >= self.proposals[proposal_id].voting_end {
            Some(ContractError::VotingPeriodEnded)
        } else if self.has_vote(proposal_id, voter) {
            Some(ContractError::AlreadyVoted)
        } else if choice >= self.proposals[proposal_id].options.len() {
            Some(ContractError::InvalidChoice)
        } else {
            None
        }
    }

    /// The state after an accepted vote.
    pub open spec fn vote_cast(self, now: u64, voter: Seq<u8>, proposal_id: u64, choice: u32) -> ContractState {
        let s = self.vote_stored(
            VoteView { proposal_id, voter, choice, timestamp: now },
        ).tally_incremented(proposal_id, choice);
        ContractState {
            events: s.events.push(
                EventView::VoteCast { proposal_id, voter, choice, timestamp: now },
            ),
            ..s
        }
    }

    /// The stored proposals with ids `lo + 1 ..= hi`, in order of id.
    pub open spec fn proposal_page(self, lo: int, hi: int) -> Seq<ProposalView>
        decreases hi - lo,
    {
        if hi <= lo {
            Seq::empty()
        } else {
            let rest = self.proposal_page(lo, hi - 1);
            if self.proposals.contains_key(hi as u64) {
                rest.push(self.proposals[hi as u64])
            } else {
                rest
            }
        }
    }

    /// The last id a page starting after `start` and holding at most `limit`
    /// proposals reaches: it stops at the proposal counter.
    pub open spec fn page_end(self, start: u64, limit: u64) -> int {
        if start + limit > self.proposal_count {
            self.proposal_count as int
        } else {
            start + limit
        }
    }

    /// The stored votes on a proposal of the listed voters, in list order.
    pub open spec fn votes_of_voters(self, proposal_id: u64, voters: Seq<Seq<u8>>) -> Seq<VoteView>
        decreases voters.len(),
    {
        if voters.len() == 0 {
            Seq::empty()
        } else {
            let rest = self.votes_of_voters(proposal_id, voters.drop_last());
            if self.has_vote(proposal_id, voters.last()) {
                rest.push(self.votes[(proposal_id, voters.last())])
            } else {
                rest
            }
        }
    }

    /// The stored votes of a voter on the listed proposals, in list order.
    pub open spec fn votes_on_proposals(self, voter: Seq<u8>, ids: Seq<u64>) -> Seq<VoteView>
        decreases ids.len(),
    {
        if ids.len() == 0 {
            Seq::empty()
        } else {
            let rest = self.votes_on_proposals(voter, ids.drop_last());
            if self.has_vote(ids.last(), voter) {
                rest.push(self.votes[(ids.last(), voter)])
            } else {
                rest
            }
        }
    }

    /// The result reported for a stored proposal.
    pub open spec fn result_of(self, proposal_id: u64) -> VoteResultView {
        let counts = self.tallies(proposal_id, self.proposals[proposal_id].options.len());
        VoteResultView {
            proposal_id,
            option_counts: counts,
            total_votes: seq_sum(counts) as u64,
            unique_voters: self.voters_of(proposal_id).len() as u64,
        }
    }
}

} // verus!
