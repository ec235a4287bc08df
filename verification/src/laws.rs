//! What holds of the contract across operations: the relations every state
//! reached through the entry points keeps, and what a read gives back after
//! a write.
use vstd::prelude::*;
use crate::model::{seq_sum, ContractState};
use crate::rules::{creation_error, MAX_OPTIONS};
use crate::types::{ContractError, EventView, ProposalView, VoteView};

verus! {

/// How many of the listed voters chose option `o` on a proposal.
pub open spec fn choice_count(s: ContractState, proposal_id: u64, voters: Seq<Seq<u8>>, o: u32) -> nat
    decreases voters.len(),
{
    if voters.len() == 0 {
        0
    } else {
        choice_count(s, proposal_id, voters.drop_last(), o) + if s.votes[(
            proposal_id,
            voters.last(),
        )].choice == o {
            1nat
        } else {
            0nat
        }
    }
}

/// The options of a stored proposal.
pub open spec fn num_options(s: ContractState, proposal_id: u64) -> nat {
    s.proposals[proposal_id].options.len()
}

/// Ids `1 ..= proposal_count` are exactly the stored proposals.
pub open spec fn ids_dense(s: ContractState) -> bool {
    forall|id: u64| #[trigger] s.proposals.contains_key(id) <==> 1 <= id <= s.proposal_count
}

/// Each proposal is stored under its own id and has at most ten options.
pub open spec fn proposals_well_formed(s: ContractState) -> bool {
    forall|id: u64| #[trigger]
        s.proposals.contains_key(id) ==> s.proposals[id].id == id && s.proposals[id].options.len()
            <= MAX_OPTIONS
}

/// Tallies exist only for options of stored proposals.
pub open spec fn tallies_in_range(s: ContractState) -> bool {
    forall|k: (u64, u32)| #[trigger]
        s.vote_counts.contains_key(k) ==> s.proposals.contains_key(k.0) && (k.1 as int)
            < num_options(s, k.0)
}

/// Each stored vote is on a stored proposal, by a recorded voter, for one of
/// its options, and is stored under its own key.
pub open spec fn votes_indexed(s: ContractState) -> bool {
    forall|k: (u64, Seq<u8>)| #[trigger]
        s.votes.contains_key(k) ==> {
            &&& s.proposals.contains_key(k.0)
            &&& s.voters_of(k.0).contains(k.1)
            &&& s.votes[k].proposal_id == k.0
            &&& s.votes[k].voter == k.1
            &&& (s.votes[k].choice as int) < num_options(s, k.0)
        }
}

/// The voters of a proposal are distinct, and each of them has a stored vote.
pub open spec fn voters_recorded(s: ContractState) -> bool {
    &&& forall|pid: u64| #[trigger]
        s.proposal_voters.contains_key(pid) ==> s.proposals.contains_key(pid)
    &&& forall|pid: u64| #[trigger] s.voters_of(pid).no_duplicates()
    &&& forall|pid: u64, i: int|
        0 <= i < s.voters_of(pid).len() ==> s.has_vote(pid, #[trigger] s.voters_of(pid)[i])
}

/// A voter's history lists, once each, exactly the proposals the voter voted on.
pub open spec fn histories_match(s: ContractState) -> bool {
    &&& forall|v: Seq<u8>| #[trigger] s.history_of(v).no_duplicates()
    &&& forall|v: Seq<u8>, pid: u64|
        #![trigger s.history_of(v).contains(pid)]
        #![trigger s.has_vote(pid, v)]
        s.history_of(v).contains(pid) <==> s.has_vote(pid, v)
}

/// Each tally counts the votes for its option, and the tallies of a proposal
/// add up to the number of its voters.
pub open spec fn tallies_match(s: ContractState) -> bool {
    &&& forall|pid: u64| #[trigger]
        s.proposals.contains_key(pid) ==> seq_sum(s.tallies(pid, num_options(s, pid)))
            == s.voters_of(pid).len()
    &&& forall|pid: u64, o: u32|
        s.proposals.contains_key(pid) && (o as int) < num_options(s, pid) ==> #[trigger] s.tally(
            pid,
            o,
        ) == choice_count(s, pid, s.voters_of(pid), o)
}

/// The relations that every state reached from empty storage through
/// `initialize`, `create_proposal` and `cast_vote` keeps.
pub open spec fn consistent(s: ContractState) -> bool {
    &&& ids_dense(s)
    &&& proposals_well_formed(s)
    &&& tallies_in_range(s)
    &&& votes_indexed(s)
    &&& voters_recorded(s)
    &&& histories_match(s)
    &&& tallies_match(s)
}

/// Empty storage, and empty storage after `initialize`, is consistent.
pub proof fn law_fresh_storage_is_consistent()
    ensures
        consistent(ContractState::empty()),
        consistent(ContractState { proposal_count: 0, ..ContractState::empty() }),
{
    let s = ContractState::empty();
    assert forall|pid: u64| #[trigger] s.voters_of(pid).no_duplicates() by {
        assert(s.voters_of(pid) =~= Seq::<Seq<u8>>::empty());
    }
    assert forall|v: Seq<u8>| #[trigger] s.history_of(v).no_duplicates() by {
        assert(s.history_of(v) =~= Seq::<u64>::empty());
    }
}


/// Changing one count changes the sum by the difference.
pub proof fn lemma_sum_update(s: Seq<u64>, i: int, x: u64)
    requires
        0 <= i < s.len(),
    ensures
        seq_sum(s.update(i, x)) == seq_sum(s) - s[i] + x,
    decreases s.len(),
{
    let u = s.update(i, x);
    if i == s.len() - 1 {
        assert(u.drop_last() =~= s.drop_last());
    } else {
        lemma_sum_update(s.drop_last(), i, x);
        assert(u.drop_last() =~= s.drop_last().update(i, x));
    }
}

/// Counts that are all zero sum to zero.
pub proof fn lemma_sum_zeros(s: Seq<u64>)
    requires
        forall|i: int| 0 <= i < s.len() ==> s[i] == 0,
    ensures
        seq_sum(s) == 0,
    decreases s.len(),
{
    if s.len() > 0 {
        lemma_sum_zeros(s.drop_last());
    }
}

/// The choice count of a list of voters reads only their votes.
pub proof fn lemma_choice_count_frame(
    s1: ContractState,
    s2: ContractState,
    proposal_id: u64,
    voters: Seq<Seq<u8>>,
    o: u32,
)
    requires
        forall|i: int|
            0 <= i < voters.len() ==> s1.votes[(proposal_id, #[trigger] voters[i])] == s2.votes[(
                proposal_id,
                voters[i],
            )],
    ensures
        choice_count(s1, proposal_id, voters, o) == choice_count(s2, proposal_id, voters, o),
    decreases voters.len(),
{
    if voters.len() > 0 {
        let d = voters.drop_last();
        assert forall|i: int| 0 <= i < d.len() implies s1.votes[(proposal_id, #[trigger] d[i])]
            == s2.votes[(proposal_id, d[i])] by {
            assert(d[i] == voters[i]);
        }
        lemma_choice_count_frame(s1, s2, proposal_id, d, o);
        assert(voters.last() == voters[voters.len() - 1]);
    }
}

/// Creating a proposal keeps a consistent state consistent.
pub proof fn law_create_keeps_consistent(
    s: ContractState,
    now: u64,
    creator: Seq<u8>,
    title: Seq<u8>,
    description: Seq<u8>,
    voting_end: u64,
    options: Seq<Seq<u8>>,
)
    requires
        consistent(s),
        creation_error(now, title, description, voting_end, options) is None,
        s.proposal_count < u64::MAX,
    ensures
        consistent(
            s.proposal_created(
                ContractState::new_proposal(
                    (s.proposal_count + 1) as u64,
                    now,
                    creator,
                    title,
                    description,
                    voting_end,
                    options,
                ),
            ),
        ),
{
    let id = (s.proposal_count + 1) as u64;
    let p = ContractState::new_proposal(id, now, creator, title, description, voting_end, options);
    let t = s.proposal_created(p);
    assert(!s.proposals.contains_key(id));
    assert(!s.proposal_voters.contains_key(id));
    assert(t.votes == s.votes);
    assert(t.proposal_voters == s.proposal_voters);
    assert(t.voter_proposals == s.voter_proposals);
    assert forall|pid: u64| #[trigger] t.voters_of(pid) == s.voters_of(pid) by {}
    assert forall|v: Seq<u8>| #[trigger] t.history_of(v) == s.history_of(v) by {}
    assert forall|pid: u64| s.proposals.contains_key(pid) implies #[trigger] t.proposals[pid]
        == s.proposals[pid] && pid != id by {}
    assert(ids_dense(t));
    assert(proposals_well_formed(t));
    assert(tallies_in_range(t));
    assert(votes_indexed(t)) by {
        assert forall|k: (u64, Seq<u8>)| #[trigger] t.votes.contains_key(k) implies {
            &&& t.proposals.contains_key(k.0)
            &&& t.voters_of(k.0).contains(k.1)
            &&& t.votes[k].proposal_id == k.0
            &&& t.votes[k].voter == k.1
            &&& (t.votes[k].choice as int) < num_options(t, k.0)
        } by {
            assert(s.votes.contains_key(k));
        }
    }
    assert(voters_recorded(t)) by {
        assert forall|pid: u64, i: int|
            0 <= i < t.voters_of(pid).len() implies t.has_vote(
            pid,
            #[trigger] t.voters_of(pid)[i],
        ) by {
            assert(s.has_vote(pid, s.voters_of(pid)[i]));
        }
    }
    assert(histories_match(t)) by {
        assert forall|v: Seq<u8>, pid: u64|
            #![trigger t.history_of(v).contains(pid)]
            #![trigger t.has_vote(pid, v)]
            t.history_of(v).contains(pid) <==> t.has_vote(pid, v) by {
            assert(s.history_of(v).contains(pid) <==> s.has_vote(pid, v));
        }
    }
    assert(tallies_match(t)) by {
        assert forall|pid: u64| #[trigger] t.proposals.contains_key(pid) implies seq_sum(
            t.tallies(pid, num_options(t, pid)),
        ) == t.voters_of(pid).len() by {
            if pid == id {
                lemma_sum_zeros(t.tallies(pid, num_options(t, pid)));
                assert(t.voters_of(pid) =~= Seq::<Seq<u8>>::empty());
            } else {
                assert(t.tallies(pid, num_options(t, pid)) =~= s.tallies(pid, num_options(s, pid)));
            }
        }
        assert forall|pid: u64, o: u32|
            t.proposals.contains_key(pid) && (o as int) < num_options(t, pid) implies #[trigger] t.tally(
            pid,
            o,
        ) == choice_count(t, pid, t.voters_of(pid), o) by {
            if pid == id {
                assert(t.voters_of(pid) =~= Seq::<Seq<u8>>::empty());
            } else {
                assert(t.tally(pid, o) == s.tally(pid, o));
                lemma_choice_count_frame(s, t, pid, s.voters_of(pid), o);
            }
        }
    }
}

/// An accepted vote keeps a consistent state consistent.
pub proof fn law_cast_keeps_consistent(
    s: ContractState,
    now: u64,
    voter: Seq<u8>,
    proposal_id: u64,
    choice: u32,
)
    requires
        consistent(s),
        s.cast_error(now, voter, proposal_id, choice) is None,
        s.tally(proposal_id, choice) < u64::MAX,
    ensures
        consistent(s.vote_cast(now, voter, proposal_id, choice)),
{
    let pid = proposal_id;
    let c = choice;
    let t = s.vote_cast(now, voter, pid, c);
    let voters = s.voters_of(pid);
    let vote = VoteView { proposal_id: pid, voter, choice: c, timestamp: now };
    assert(!voters.contains(voter)) by {
        if voters.contains(voter) {
            let i = choose|i: int| 0 <= i < voters.len() && voters[i] == voter;
            assert(s.has_vote(pid, s.voters_of(pid)[i]));
        }
    }
    assert(!s.history_of(voter).contains(pid));
    assert(t.proposals == s.proposals);
    assert(t.votes == s.votes.insert((pid, voter), vote));
    assert(t.voters_of(pid) == voters.push(voter));
    assert forall|q: u64| q != pid implies #[trigger] t.voters_of(q) == s.voters_of(q) by {}
    assert(t.history_of(voter) == s.history_of(voter).push(pid));
    assert forall|w: Seq<u8>| w != voter implies #[trigger] t.history_of(w) == s.history_of(w) by {}
    assert forall|q: u64, o: u32| (q, o) != (pid, c) implies #[trigger] t.tally(q, o) == s.tally(q, o) by {}
    assert(t.tally(pid, c) == s.tally(pid, c) + 1);
    assert forall|k: (u64, Seq<u8>)| s.votes.contains_key(k) implies #[trigger] t.votes[k]
        == s.votes[k] && k != (pid, voter) by {}

    assert(ids_dense(t));
    assert(proposals_well_formed(t));
    assert(tallies_in_range(t));
    assert(votes_indexed(t)) by {
        assert forall|k: (u64, Seq<u8>)| #[trigger] t.votes.contains_key(k) implies {
            &&& t.proposals.contains_key(k.0)
            &&& t.voters_of(k.0).contains(k.1)
            &&& t.votes[k].proposal_id == k.0
            &&& t.votes[k].voter == k.1
            &&& (t.votes[k].choice as int) < num_options(t, k.0)
        } by {
            if k == (pid, voter) {
                assert(t.voters_of(pid)[voters.len() as int] == voter);
            } else {
                assert(s.votes.contains_key(k));
                if k.0 == pid {
                    let i = choose|i: int| 0 <= i < voters.len() && voters[i] == k.1;
                    assert(t.voters_of(pid)[i] == k.1);
                }
            }
        }
    }
    assert(voters_recorded(t)) by {
        assert forall|q: u64| #[trigger] t.voters_of(q).no_duplicates() by {
            if q == pid {
                assert forall|i: int, j: int|
                    0 <= i < t.voters_of(q).len() && 0 <= j < t.voters_of(q).len() && i != j
                    implies t.voters_of(q)[i] != t.voters_of(q)[j] by {
                    if i < voters.len() && j < voters.len() {
                        assert(s.voters_of(q).no_duplicates());
                    } else if i < voters.len() {
                        assert(voters.contains(voters[i]));
                    } else {
                        assert(voters.contains(voters[j]));
                    }
                }
            } else {
                assert(s.voters_of(q).no_duplicates());
            }
        }
        assert forall|q: u64, i: int|
            0 <= i < t.voters_of(q).len() implies t.has_vote(q, #[trigger] t.voters_of(q)[i]) by {
            if q == pid && i == voters.len() {
            } else {
                assert(s.has_vote(q, s.voters_of(q)[i]));
            }
        }
    }
    assert(histories_match(t)) by {
        assert forall|w: Seq<u8>| #[trigger] t.history_of(w).no_duplicates() by {
            let h = s.history_of(w);
            assert(h.no_duplicates());
            if w == voter {
                assert forall|i: int, j: int|
                    0 <= i < t.history_of(w).len() && 0 <= j < t.history_of(w).len() && i != j
                    implies t.history_of(w)[i] != t.history_of(w)[j] by {
                    if i < h.len() && j < h.len() {
                    } else if i < h.len() {
                        assert(h.contains(h[i]));
                    } else {
                        assert(h.contains(h[j]));
                    }
                }
            }
        }
        assert forall|w: Seq<u8>, q: u64|
            #![trigger t.history_of(w).contains(q)]
            #![trigger t.has_vote(q, w)]
            t.history_of(w).contains(q) <==> t.has_vote(q, w) by {
            assert(s.history_of(w).contains(q) <==> s.has_vote(q, w));
            if w == voter {
                let h = s.history_of(w);
                if t.history_of(w).contains(q) && q != pid {
                    let i = choose|i: int| 0 <= i < h.len() + 1 && t.history_of(w)[i] == q;
                    assert(h[i] == q);
                }
                if h.contains(q) {
                    let i = choose|i: int| 0 <= i < h.len() && h[i] == q;
                    assert(t.history_of(w)[i] == q);
                }
                assert(t.history_of(w)[h.len() as int] == pid);
            }
        }
    }
    assert(tallies_match(t)) by {
        assert forall|q: u64| #[trigger] t.proposals.contains_key(q) implies seq_sum(
            t.tallies(q, num_options(t, q)),
        ) == t.voters_of(q).len() by {
            let n = num_options(s, q);
            if q == pid {
                lemma_sum_update(s.tallies(q, n), c as int, (s.tally(q, c) + 1) as u64);
                assert(t.tallies(q, n) =~= s.tallies(q, n).update(c as int, (s.tally(q, c) + 1) as u64));
            } else {
                assert(t.tallies(q, n) =~= s.tallies(q, n));
            }
        }
        assert forall|q: u64, o: u32|
            t.proposals.contains_key(q) && (o as int) < num_options(t, q) implies #[trigger] t.tally(
            q,
            o,
        ) == choice_count(t, q, t.voters_of(q), o) by {
            assert(s.tally(q, o) == choice_count(s, q, s.voters_of(q), o));
            let sv = s.voters_of(q);
            assert forall|i: int| 0 <= i < sv.len() implies s.votes[(q, #[trigger] sv[i])]
                == t.votes[(q, sv[i])] by {
                assert(s.has_vote(q, s.voters_of(q)[i]));
                if q == pid {
                    assert(voters.contains(sv[i]));
                }
            }
            lemma_choice_count_frame(s, t, q, sv, o);
            if q == pid {
                assert(t.voters_of(q).drop_last() =~= sv);
            }
        }
    }
}

/// No count exceeds the sum of the counts.
pub proof fn lemma_count_le_sum(s: Seq<u64>, i: int)
    requires
        0 <= i < s.len(),
    ensures
        s[i] <= seq_sum(s),
    decreases s.len(),
{
    lemma_sum_nonnegative(s.drop_last());
    if i < s.len() - 1 {
        lemma_count_le_sum(s.drop_last(), i);
    }
}

/// A sum of counts is never negative.
pub proof fn lemma_sum_nonnegative(s: Seq<u64>)
    ensures
        seq_sum(s) >= 0,
    decreases s.len(),
{
    if s.len() > 0 {
        lemma_sum_nonnegative(s.drop_last());
    }
}

/// A proposal just created is stored under the next id, which no proposal
/// held before, with its window opening at creation, no voters, and a zero
/// tally for each of its options.
pub proof fn law_created_proposal_is_readable(
    s: ContractState,
    now: u64,
    creator: Seq<u8>,
    title: Seq<u8>,
    description: Seq<u8>,
    voting_end: u64,
    options: Seq<Seq<u8>>,
)
    requires
        consistent(s),
        creation_error(now, title, description, voting_end, options) is None,
        s.proposal_count < u64::MAX,
    ensures
        ({
            let id = (s.proposal_count + 1) as u64;
            let p = ContractState::new_proposal(
                id,
                now,
                creator,
                title,
                description,
                voting_end,
                options,
            );
            let t = s.proposal_created(p);
            &&& !s.proposals.contains_key(id)
            &&& t.proposal_count == id
            &&& t.proposals.contains_key(id)
            &&& t.proposals[id] == p
            &&& t.proposals[id].voting_start == now && t.proposals[id].created_at == now
            &&& forall|q: u64| q != id ==> #[trigger] t.proposals.contains_key(q)
                == s.proposals.contains_key(q)
            &&& t.voters_of(id).len() == 0
            &&& t.result_of(id).option_counts == Seq::new(options.len(), |o: int| 0u64)
            &&& t.result_of(id).total_votes == 0
            &&& t.result_of(id).unique_voters == 0
        }),
{
    let id = (s.proposal_count + 1) as u64;
    let p = ContractState::new_proposal(id, now, creator, title, description, voting_end, options);
    let t = s.proposal_created(p);
    assert(!s.proposal_voters.contains_key(id));
    let counts = t.result_of(id).option_counts;
    assert(counts =~= Seq::new(options.len(), |o: int| 0u64));
    lemma_sum_zeros(counts);
}

/// An accepted vote is stored under (proposal, voter), appended to the
/// proposal's voters and the voter's history, and adds one to the chosen
/// tally and nothing to any other; it was cast while the window was open.
pub proof fn law_vote_is_recorded(
    s: ContractState,
    now: u64,
    voter: Seq<u8>,
    proposal_id: u64,
    choice: u32,
)
    requires
        s.cast_error(now, voter, proposal_id, choice) is None,
        s.tally(proposal_id, choice) < u64::MAX,
    ensures
        ({
            let t = s.vote_cast(now, voter, proposal_id, choice);
            &&& now < s.proposals[proposal_id].voting_end
            &&& !s.has_vote(proposal_id, voter)
            &&& t.has_vote(proposal_id, voter)
            &&& t.votes[(proposal_id, voter)] == VoteView {
                proposal_id,
                voter,
                choice,
                timestamp: now,
            }
            &&& t.voters_of(proposal_id) == s.voters_of(proposal_id).push(voter)
            &&& t.history_of(voter) == s.history_of(voter).push(proposal_id)
            &&& t.tally(proposal_id, choice) == s.tally(proposal_id, choice) + 1
            &&& forall|q: u64, o: u32|
                (q, o) != (proposal_id, choice) ==> #[trigger] t.tally(q, o) == s.tally(q, o)
            &&& t.proposals == s.proposals
            &&& t.proposal_count == s.proposal_count
        }),
{
    let t = s.vote_cast(now, voter, proposal_id, choice);
    assert(t.has_vote(proposal_id, voter));
    assert(t.voters_of(proposal_id) == s.voters_of(proposal_id).push(voter));
    assert(t.history_of(voter) == s.history_of(voter).push(proposal_id));
    assert(t.tally(proposal_id, choice) == s.tally(proposal_id, choice) + 1);
    assert forall|q: u64, o: u32| (q, o) != (proposal_id, choice) implies #[trigger] t.tally(q, o)
        == s.tally(q, o) by {}
}

/// A voter who voted on a proposal is refused a second vote on it: with
/// `AlreadyVoted` while the window is open, `VotingPeriodEnded` after.
pub proof fn law_one_vote_per_voter(
    s: ContractState,
    now: u64,
    voter: Seq<u8>,
    proposal_id: u64,
    choice: u32,
    later: u64,
    second_choice: u32,
)
    requires
        s.cast_error(now, voter, proposal_id, choice) is None,
    ensures
        ({
            let t = s.vote_cast(now, voter, proposal_id, choice);
            t.cast_error(later, voter, proposal_id, second_choice) == if later
                >= s.proposals[proposal_id].voting_end {
                Some(ContractError::VotingPeriodEnded)
            } else {
                Some(ContractError::AlreadyVoted)
            }
        }),
{
}

/// In a consistent state the reported total equals the number of distinct
/// voters, each option's count is the number of votes for it, and the
/// result can be computed without overflow.
pub proof fn law_results_add_up(s: ContractState, proposal_id: u64)
    requires
        consistent(s),
        s.proposals.contains_key(proposal_id),
        s.voters_of(proposal_id).len() <= u64::MAX,
    ensures
        ({
            let r = s.result_of(proposal_id);
            &&& r.total_votes == r.unique_voters
            &&& r.unique_voters == s.voters_of(proposal_id).len()
            &&& r.option_counts.len() == num_options(s, proposal_id)
            &&& forall|o: int|
                0 <= o < r.option_counts.len() ==> #[trigger] r.option_counts[o] == choice_count(
                    s,
                    proposal_id,
                    s.voters_of(proposal_id),
                    o as u32,
                )
            &&& num_options(s, proposal_id) <= u32::MAX
            &&& seq_sum(s.tallies(proposal_id, num_options(s, proposal_id))) <= u64::MAX
        }),
{
    let r = s.result_of(proposal_id);
    assert forall|o: int| 0 <= o < r.option_counts.len() implies #[trigger] r.option_counts[o]
        == choice_count(s, proposal_id, s.voters_of(proposal_id), o as u32) by {
        assert(s.tally(proposal_id, o as u32) == choice_count(
            s,
            proposal_id,
            s.voters_of(proposal_id),
            o as u32,
        ));
    }
}

/// In a consistent state a vote on an open proposal can always be counted:
/// its tally is below the counter's limit while the voters fit in one.
pub proof fn law_tally_has_room(s: ContractState, proposal_id: u64, choice: u32)
    requires
        consistent(s),
        s.proposals.contains_key(proposal_id),
        (choice as int) < num_options(s, proposal_id),
        s.voters_of(proposal_id).len() < u64::MAX,
    ensures
        s.tally(proposal_id, choice) < u64::MAX,
{
    let ts = s.tallies(proposal_id, num_options(s, proposal_id));
    lemma_count_le_sum(ts, choice as int);
}

/// In a consistent state a page holds every id from `lo + 1` to `hi`, in
/// order, and the page a query reaches never passes the last id.
pub proof fn law_page_is_id_range(s: ContractState, lo: int, hi: int)
    requires
        consistent(s),
        0 <= lo,
        hi <= s.proposal_count,
    ensures
        s.proposal_page(lo, hi).len() == if hi > lo {
            hi - lo
        } else {
            0
        },
        forall|i: int|
            0 <= i < s.proposal_page(lo, hi).len() ==> #[trigger] s.proposal_page(lo, hi)[i].id == lo
                + 1 + i,
    decreases hi - lo,
{
    if hi > lo {
        law_page_is_id_range(s, lo, hi - 1);
        assert(s.proposals.contains_key(hi as u64));
        let page = s.proposal_page(lo, hi);
        assert forall|i: int| 0 <= i < page.len() implies #[trigger] page[i].id == lo + 1 + i by {
            if i < hi - 1 - lo {
                assert(page[i] == s.proposal_page(lo, hi - 1)[i]);
            }
        }
    }
}

/// In a consistent state the votes listed for a proposal are exactly the
/// votes of its voters, one per voter, in voting order.
pub proof fn law_listed_votes_are_the_voters(s: ContractState, proposal_id: u64)
    requires
        consistent(s),
    ensures
        ({
            let voters = s.voters_of(proposal_id);
            let listed = s.votes_of_voters(proposal_id, voters);
            &&& listed.len() == voters.len()
            &&& forall|i: int|
                0 <= i < listed.len() ==> #[trigger] listed[i] == s.votes[(proposal_id, voters[i])]
                    && listed[i].voter == voters[i] && listed[i].proposal_id == proposal_id
        }),
{
    lemma_listed_votes_prefix(s, proposal_id, s.voters_of(proposal_id));
}

proof fn lemma_listed_votes_prefix(s: ContractState, proposal_id: u64, voters: Seq<Seq<u8>>)
    requires
        votes_indexed(s),
        forall|i: int| 0 <= i < voters.len() ==> s.has_vote(proposal_id, #[trigger] voters[i]),
    ensures
        ({
            let listed = s.votes_of_voters(proposal_id, voters);
            &&& listed.len() == voters.len()
            &&& forall|i: int|
                0 <= i < listed.len() ==> #[trigger] listed[i] == s.votes[(proposal_id, voters[i])]
                    && listed[i].voter == voters[i] && listed[i].proposal_id == proposal_id
        }),
    decreases voters.len(),
{
    if voters.len() > 0 {
        let d = voters.drop_last();
        assert forall|i: int| 0 <= i < d.len() implies s.has_vote(proposal_id, #[trigger] d[i]) by {
            assert(d[i] == voters[i]);
        }
        lemma_listed_votes_prefix(s, proposal_id, d);
        assert(s.has_vote(proposal_id, voters[voters.len() - 1]));
        assert(s.votes.contains_key((proposal_id, voters.last())));
    }
}

/// In a consistent state a voter's history lists exactly the voter's votes,
/// one per proposal, in the order they were cast.
pub proof fn law_history_is_the_voters_votes(s: ContractState, voter: Seq<u8>)
    requires
        consistent(s),
    ensures
        ({
            let ids = s.history_of(voter);
            let listed = s.votes_on_proposals(voter, ids);
            &&& listed.len() == ids.len()
            &&& forall|i: int|
                0 <= i < listed.len() ==> #[trigger] listed[i] == s.votes[(ids[i], voter)]
                    && listed[i].proposal_id == ids[i] && listed[i].voter == voter
        }),
{
    let ids = s.history_of(voter);
    assert forall|i: int| 0 <= i < ids.len() implies s.has_vote(#[trigger] ids[i], voter) by {
        assert(ids.contains(ids[i]));
    }
    lemma_history_prefix(s, voter, ids);
}

proof fn lemma_history_prefix(s: ContractState, voter: Seq<u8>, ids: Seq<u64>)
    requires
        votes_indexed(s),
        forall|i: int| 0 <= i < ids.len() ==> s.has_vote(#[trigger] ids[i], voter),
    ensures
        ({
            let listed = s.votes_on_proposals(voter, ids);
            &&& listed.len() == ids.len()
            &&& forall|i: int|
                0 <= i < listed.len() ==> #[trigger] listed[i] == s.votes[(ids[i], voter)]
                    && listed[i].proposal_id == ids[i] && listed[i].voter == voter
        }),
    decreases ids.len(),
{
    if ids.len() > 0 {
        let d = ids.drop_last();
        assert forall|i: int| 0 <= i < d.len() implies s.has_vote(#[trigger] d[i], voter) by {
            assert(d[i] == ids[i]);
        }
        lemma_history_prefix(s, voter, d);
        assert(s.has_vote(ids[ids.len() - 1], voter));
        assert(s.votes.contains_key((ids.last(), voter)));
    }
}

/// Reads after storage writes: a stored vote is found under its key and
/// appended to both indexes while votes on other proposals are untouched;
/// zeroed tallies read zero; an incremented tally reads one more.
pub proof fn law_storage_reads_back_writes(
    s: ContractState,
    vote: VoteView,
    other_proposal: u64,
    proposal_id: u64,
    n: nat,
    option: u32,
)
    requires
        other_proposal != vote.proposal_id,
        s.tally(proposal_id, option) < u64::MAX,
    ensures
        ({
            let t = s.vote_stored(vote);
            &&& t.has_vote(vote.proposal_id, vote.voter)
            &&& t.votes[(vote.proposal_id, vote.voter)] == vote
            &&& t.voters_of(vote.proposal_id) == s.voters_of(vote.proposal_id).push(vote.voter)
            &&& t.history_of(vote.voter) == s.history_of(vote.voter).push(vote.proposal_id)
            &&& t.has_vote(other_proposal, vote.voter) == s.has_vote(other_proposal, vote.voter)
        }),
        (option as int) < n ==> s.tallies_zeroed(proposal_id, n).tally(proposal_id, option) == 0,
        s.tally_incremented(proposal_id, option).tally(proposal_id, option) == s.tally(
            proposal_id,
            option,
        ) + 1,
{
    let t = s.vote_stored(vote);
    assert(t.voters_of(vote.proposal_id) == s.voters_of(vote.proposal_id).push(vote.voter));
    assert(t.history_of(vote.voter) == s.history_of(vote.voter).push(vote.proposal_id));
    assert(s.tallies_zeroed(proposal_id, n).vote_counts.contains_key((proposal_id, option))
        == (s.vote_counts.contains_key((proposal_id, option)) || (option as int) < n));
}

/// `initialize` keeps a consistent state consistent while no proposal has
/// been created; afterwards it rewinds the counter under stored proposals.
pub proof fn law_initialize_before_any_proposal(s: ContractState)
    requires
        consistent(s),
        s.proposal_count == 0,
    ensures
        consistent(ContractState { proposal_count: 0, ..s }),
{
    assert(ContractState { proposal_count: 0, ..s } == s);
}

/// In a consistent state the three records of a vote agree: the vote is
/// stored exactly when the voter is among the proposal's voters and the
/// proposal is in the voter's history.
pub proof fn law_vote_indexes_agree(s: ContractState, proposal_id: u64, voter: Seq<u8>)
    requires
        consistent(s),
    ensures
        s.has_vote(proposal_id, voter) == s.voters_of(proposal_id).contains(voter),
        s.has_vote(proposal_id, voter) == s.history_of(voter).contains(proposal_id),
{
    if s.voters_of(proposal_id).contains(voter) {
        let i = choose|i: int|
            0 <= i < s.voters_of(proposal_id).len() && s.voters_of(proposal_id)[i] == voter;
        assert(s.has_vote(proposal_id, s.voters_of(proposal_id)[i]));
    }
    if s.has_vote(proposal_id, voter) {
        assert(s.votes.contains_key((proposal_id, voter)));
    }
    assert(s.history_of(voter).contains(proposal_id) <==> s.has_vote(proposal_id, voter));
}

/// A page query starting after id `start` and asking for `limit` proposals
/// returns, in a consistent state, the proposals with ids `start + 1`,
/// `start + 2`, ... in order: `limit` of them when the counter reaches
/// `start + limit`, otherwise those up to the counter (none when the counter
/// is at most `start`).
pub proof fn law_page_holds_the_requested_ids(s: ContractState, start: u64, limit: u64)
    requires
        consistent(s),
        start + limit <= u64::MAX,
    ensures
        ({
            let page = s.proposal_page(start as int, s.page_end(start, limit));
            &&& start + limit <= s.proposal_count ==> page.len() == limit
            &&& start + limit > s.proposal_count && start <= s.proposal_count ==> page.len()
                == s.proposal_count - start
            &&& start >= s.proposal_count ==> page.len() == 0
            &&& forall|i: int| 0 <= i < page.len() ==> #[trigger] page[i].id == start + 1 + i
            &&& forall|i: int| 0 <= i < page.len() ==> page[i] == s.proposals[(start + 1 + i) as u64]
        }),
{
    let hi = s.page_end(start, limit);
    law_page_is_id_range(s, start as int, hi);
    let page = s.proposal_page(start as int, hi);
    assert forall|i: int| 0 <= i < page.len() implies page[i] == s.proposals[(start + 1
        + i) as u64] by {
        let id = (start + 1 + i) as u64;
        assert(s.proposals.contains_key(page[i].id)) by {
            lemma_page_entries_stored(s, start as int, hi, i);
        }
        assert(s.proposals[page[i].id].id == page[i].id);
        lemma_page_entries_stored(s, start as int, hi, i);
    }
}

proof fn lemma_page_entries_stored(s: ContractState, lo: int, hi: int, i: int)
    requires
        0 <= i < s.proposal_page(lo, hi).len(),
        proposals_well_formed(s),
    ensures
        s.proposals.contains_key(s.proposal_page(lo, hi)[i].id),
        s.proposals[s.proposal_page(lo, hi)[i].id] == s.proposal_page(lo, hi)[i],
    decreases hi - lo,
{
    if hi > lo {
        let rest = s.proposal_page(lo, hi - 1);
        if i < rest.len() {
            lemma_page_entries_stored(s, lo, hi - 1, i);
            assert(s.proposal_page(lo, hi)[i] == rest[i]);
        } else {
            assert(s.proposals.contains_key(hi as u64));
            assert(s.proposal_page(lo, hi)[i] == s.proposals[hi as u64]);
        }
    }
}

/// A vote is accepted exactly when the proposal exists, `now` is before its
/// voting end, the voter (whoever it is, its creator included) has no stored
/// vote on it, and the choice indexes one of its options; each refusal names
/// the first of these that fails.
pub proof fn law_vote_accepted_exactly_when(
    s: ContractState,
    now: u64,
    voter: Seq<u8>,
    proposal_id: u64,
    choice: u32,
)
    ensures
        s.cast_error(now, voter, proposal_id, choice) is None <==> {
            &&& s.proposals.contains_key(proposal_id)
            &&& now < s.proposals[proposal_id].voting_end
            &&& !s.votes.contains_key((proposal_id, voter))
            &&& (choice as int) < s.proposals[proposal_id].options.len()
        },
        !s.proposals.contains_key(proposal_id) ==> s.cast_error(now, voter, proposal_id, choice)
            == Some(ContractError::ProposalNotFound),
        s.proposals.contains_key(proposal_id) && now >= s.proposals[proposal_id].voting_end
            ==> s.cast_error(now, voter, proposal_id, choice) == Some(
            ContractError::VotingPeriodEnded,
        ),
        s.proposals.contains_key(proposal_id) && now < s.proposals[proposal_id].voting_end
            && s.votes.contains_key((proposal_id, voter)) ==> s.cast_error(
            now,
            voter,
            proposal_id,
            choice,
        ) == Some(ContractError::AlreadyVoted),
        s.proposals.contains_key(proposal_id) && now < s.proposals[proposal_id].voting_end
            && !s.votes.contains_key((proposal_id, voter)) && (choice as int)
            >= s.proposals[proposal_id].options.len() ==> s.cast_error(
            now,
            voter,
            proposal_id,
            choice,
        ) == Some(ContractError::InvalidChoice),
{
}

/// A proposal is accepted exactly when its title has 5 to 200 bytes, its
/// description 20 to 5000, its voting end lies one hour to ninety days after
/// `now`, and it has 2 to 10 options of 1 to 100 bytes each; each refusal
/// names the first of these that fails.
pub proof fn law_proposal_accepted_exactly_when(
    now: u64,
    title: Seq<u8>,
    description: Seq<u8>,
    voting_end: u64,
    options: Seq<Seq<u8>>,
)
    ensures
        creation_error(now, title, description, voting_end, options) is None <==> {
            &&& 5 <= title.len() <= 200
            &&& 20 <= description.len() <= 5000
            &&& now + 3600 <= voting_end <= now + 7776000
            &&& 2 <= options.len() <= 10
            &&& forall|i: int| 0 <= i < options.len() ==> 1 <= #[trigger] options[i].len() <= 100
        },
        !(5 <= title.len() <= 200) ==> creation_error(now, title, description, voting_end, options)
            == Some(ContractError::InvalidTitle),
        5 <= title.len() <= 200 && !(20 <= description.len() <= 5000) ==> creation_error(
            now,
            title,
            description,
            voting_end,
            options,
        ) == Some(ContractError::InvalidDescription),
        5 <= title.len() <= 200 && 20 <= description.len() <= 5000 && !(now + 3600 <= voting_end
            <= now + 7776000) ==> creation_error(now, title, description, voting_end, options)
            == Some(ContractError::InvalidVotingPeriod),
        5 <= title.len() <= 200 && 20 <= description.len() <= 5000 && now + 3600 <= voting_end
            <= now + 7776000 && (exists|i: int|
            0 <= i < options.len() && !(1 <= #[trigger] options[i].len() <= 100))
            ==> creation_error(now, title, description, voting_end, options) == Some(
            ContractError::InvalidInput,
        ),
{
}

/// The result of a stored proposal reports the id it was asked for, one count
/// per option (the tally of that option), their sum as the total, and the
/// number of its recorded voters.
pub proof fn law_result_describes_the_asked_proposal(s: ContractState, proposal_id: u64)
    requires
        s.proposals.contains_key(proposal_id),
    ensures
        ({
            let r = s.result_of(proposal_id);
            &&& r.proposal_id == proposal_id
            &&& r.option_counts.len() == s.proposals[proposal_id].options.len()
            &&& forall|o: int|
                0 <= o < r.option_counts.len() ==> #[trigger] r.option_counts[o] == (if s.vote_counts.contains_key(
                    (proposal_id, o as u32),
                ) {
                    s.vote_counts[(proposal_id, o as u32)]
                } else {
                    0
                })
            &&& seq_sum(r.option_counts) <= u64::MAX ==> r.total_votes == seq_sum(r.option_counts)
            &&& s.voters_of(proposal_id).len() <= u64::MAX ==> r.unique_voters == s.voters_of(
                proposal_id,
            ).len()
        }),
{
    let r = s.result_of(proposal_id);
    lemma_sum_nonnegative(r.option_counts);
    assert forall|o: int| 0 <= o < r.option_counts.len() implies #[trigger] r.option_counts[o] == (
    if s.vote_counts.contains_key((proposal_id, o as u32)) {
        s.vote_counts[(proposal_id, o as u32)]
    } else {
        0
    }) by {
        assert(r.option_counts[o] == s.tally(proposal_id, o as u32));
    }
}
} // verus!
