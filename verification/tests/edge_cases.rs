use voting_contract::contract::VotingContract;
use voting_contract::types::{Address, ContractError, Event, Proposal};

fn addr(name: &str) -> Address {
    Address::new(name.as_bytes().to_vec())
}

fn text(s: &str) -> Vec<u8> {
    s.as_bytes().to_vec()
}

fn two_options() -> Vec<Vec<u8>> {
    vec![text("Yes"), text("No")]
}

const DESCRIPTION: &str = "A description that is long enough";

fn create(
    contract: &mut VotingContract,
    now: u64,
    title: Vec<u8>,
    description: Vec<u8>,
    voting_end: u64,
    options: Vec<Vec<u8>>,
) -> Result<u64, ContractError> {
    contract.create_proposal(now, addr("creator"), title, description, voting_end, options)
}

#[test]
fn title_length_bounds_are_inclusive() {
    let mut c = VotingContract::new();
    assert_eq!(create(&mut c, 0, vec![b't'; 5], text(DESCRIPTION), 7200, two_options()), Ok(1));
    assert_eq!(create(&mut c, 0, vec![b't'; 200], text(DESCRIPTION), 7200, two_options()), Ok(2));
    assert_eq!(
        create(&mut c, 0, vec![b't'; 4], text(DESCRIPTION), 7200, two_options()),
        Err(ContractError::InvalidTitle)
    );
}

#[test]
fn description_length_bounds_are_inclusive() {
    let mut c = VotingContract::new();
    assert_eq!(create(&mut c, 0, text("Title"), vec![b'd'; 20], 7200, two_options()), Ok(1));
    assert_eq!(create(&mut c, 0, text("Title"), vec![b'd'; 5000], 7200, two_options()), Ok(2));
    assert_eq!(
        create(&mut c, 0, text("Title"), vec![b'd'; 5001], 7200, two_options()),
        Err(ContractError::InvalidDescription)
    );
    assert_eq!(
        create(&mut c, 0, text("Title"), vec![b'd'; 19], 7200, two_options()),
        Err(ContractError::InvalidDescription)
    );
}

#[test]
fn voting_window_bounds_are_inclusive() {
    let mut c = VotingContract::new();
    let now = 1_000_000;
    assert_eq!(create(&mut c, now, text("Title"), text(DESCRIPTION), now + 3600, two_options()), Ok(1));
    assert_eq!(
        create(&mut c, now, text("Title"), text(DESCRIPTION), now + 90 * 24 * 3600, two_options()),
        Ok(2)
    );
    assert_eq!(
        create(&mut c, now, text("Title"), text(DESCRIPTION), now + 3599, two_options()),
        Err(ContractError::InvalidVotingPeriod)
    );
    assert_eq!(
        create(&mut c, now, text("Title"), text(DESCRIPTION), now + 90 * 24 * 3600 + 1, two_options()),
        Err(ContractError::InvalidVotingPeriod)
    );
}

#[test]
fn option_rules() {
    let mut c = VotingContract::new();
    let ten: Vec<Vec<u8>> = (0..10).map(|i| text(&format!("Option {}", i))).collect();
    assert_eq!(create(&mut c, 0, text("Title"), text(DESCRIPTION), 7200, ten), Ok(1));
    assert_eq!(
        create(&mut c, 0, text("Title"), text(DESCRIPTION), 7200, vec![text("Yes"), vec![]]),
        Err(ContractError::InvalidInput)
    );
    assert_eq!(
        create(&mut c, 0, text("Title"), text(DESCRIPTION), 7200, vec![vec![b'o'; 100], text("No")]),
        Ok(2)
    );
}

#[test]
fn errors_are_checked_in_order() {
    let mut c = VotingContract::new();
    // Every field is wrong: the title is reported first.
    assert_eq!(
        create(&mut c, 0, text("Hi"), text("short"), 10, vec![]),
        Err(ContractError::InvalidTitle)
    );
    assert_eq!(
        create(&mut c, 0, text("Title"), text("short"), 10, vec![]),
        Err(ContractError::InvalidDescription)
    );
    assert_eq!(
        create(&mut c, 0, text("Title"), text(DESCRIPTION), 10, vec![]),
        Err(ContractError::InvalidVotingPeriod)
    );
}

#[test]
fn refused_creation_changes_nothing() {
    let mut c = VotingContract::new();
    assert_eq!(create(&mut c, 0, text("Hi"), text(DESCRIPTION), 7200, two_options()), Err(ContractError::InvalidTitle));
    assert_eq!(c.get_proposal_count(), 0);
    assert!(c.events().is_empty());
    assert_eq!(c.get_proposal(1), Err(ContractError::ProposalNotFound));
}

#[test]
fn created_proposal_is_stored_with_its_window() {
    let mut c = VotingContract::new();
    let now = 500;
    let id = c
        .create_proposal(now, addr("alice"), text("A title"), text(DESCRIPTION), now + 4000, two_options())
        .unwrap();
    let p = c.get_proposal(id).unwrap();
    let expected = Proposal {
        id: 1,
        creator: addr("alice"),
        title: text("A title"),
        description: text(DESCRIPTION),
        voting_start: now,
        voting_end: now + 4000,
        created_at: now,
        options: two_options(),
    };
    assert_eq!(p, expected);
    assert_eq!(c.get_all_vote_counts(id, 2), vec![0, 0]);
    assert_eq!(c.get_proposal_count(), 1);
}

#[test]
fn ids_are_sequential() {
    let mut c = VotingContract::new();
    for expected in 1..=4u64 {
        let id = create(&mut c, 0, text("Title"), text(DESCRIPTION), 7200, two_options()).unwrap();
        assert_eq!(id, expected);
    }
    assert_eq!(c.get_proposal_count(), 4);
}

#[test]
fn vote_at_the_end_of_the_window_is_refused() {
    let mut c = VotingContract::new();
    let id = create(&mut c, 0, text("Title"), text(DESCRIPTION), 3600, two_options()).unwrap();
    assert_eq!(c.cast_vote(3599, addr("v1"), id, 0), Ok(()));
    assert_eq!(c.cast_vote(3600, addr("v2"), id, 0), Err(ContractError::VotingPeriodEnded));
    assert_eq!(c.is_proposal_active(3599, id), Ok(true));
    assert_eq!(c.is_proposal_active(3600, id), Ok(false));
}

#[test]
fn vote_errors_are_checked_in_order() {
    let mut c = VotingContract::new();
    let id = create(&mut c, 0, text("Title"), text(DESCRIPTION), 3600, two_options()).unwrap();
    c.cast_vote(0, addr("v"), id, 0).unwrap();
    // Closed window wins over a repeated vote and a bad choice.
    assert_eq!(c.cast_vote(4000, addr("v"), id, 7), Err(ContractError::VotingPeriodEnded));
    // A repeated vote wins over a bad choice.
    assert_eq!(c.cast_vote(10, addr("v"), id, 7), Err(ContractError::AlreadyVoted));
    assert_eq!(c.cast_vote(10, addr("w"), id, 2), Err(ContractError::InvalidChoice));
}

#[test]
fn refused_vote_changes_nothing() {
    let mut c = VotingContract::new();
    let id = create(&mut c, 0, text("Title"), text(DESCRIPTION), 3600, two_options()).unwrap();
    let events_before = c.events().len();
    assert_eq!(c.cast_vote(10, addr("w"), id, 2), Err(ContractError::InvalidChoice));
    assert_eq!(c.events().len(), events_before);
    assert_eq!(c.has_voted(&addr("w"), id), Ok(false));
    assert_eq!(c.get_all_vote_counts(id, 2), vec![0, 0]);
    assert!(c.get_proposal_votes(id).is_empty());
}

#[test]
fn has_voted_on_missing_proposal_is_an_error() {
    let c = VotingContract::new();
    assert_eq!(c.has_voted(&addr("v"), 1), Err(ContractError::ProposalNotFound));
    assert_eq!(c.is_proposal_active(0, 1), Err(ContractError::ProposalNotFound));
}

#[test]
fn total_votes_equal_unique_voters() {
    let mut c = VotingContract::new();
    let id = create(&mut c, 0, text("Title"), text(DESCRIPTION), 7200, vec![text("a"), text("b"), text("c")]).unwrap();
    for (i, choice) in [2u32, 2, 0, 1, 2].iter().enumerate() {
        c.cast_vote(1, addr(&format!("voter{}", i)), id, *choice).unwrap();
    }
    let r = c.get_vote_results(id).unwrap();
    assert_eq!(r.option_counts, vec![1, 1, 3]);
    assert_eq!(r.total_votes, 5);
    assert_eq!(r.unique_voters, 5);
}

#[test]
fn votes_are_listed_in_voting_order() {
    let mut c = VotingContract::new();
    let id = create(&mut c, 0, text("Title"), text(DESCRIPTION), 7200, two_options()).unwrap();
    c.cast_vote(5, addr("b"), id, 1).unwrap();
    c.cast_vote(6, addr("a"), id, 0).unwrap();
    let votes = c.get_proposal_votes(id);
    assert_eq!(votes.len(), 2);
    assert_eq!(votes[0].voter, addr("b"));
    assert_eq!(votes[0].timestamp, 5);
    assert_eq!(votes[1].voter, addr("a"));
    assert_eq!(votes[1].choice, 0);
    assert_eq!(c.get_voter_history(&addr("a")).len(), 1);
    assert!(c.get_voter_history(&addr("nobody")).is_empty());
}

#[test]
fn vote_events_follow_creation_event() {
    let mut c = VotingContract::new();
    let id = create(&mut c, 0, text("Title"), text(DESCRIPTION), 7200, two_options()).unwrap();
    c.cast_vote(9, addr("v"), id, 1).unwrap();
    let events = c.events();
    assert_eq!(events.len(), 2);
    assert_eq!(
        events[0],
        Event::ProposalCreated { proposal_id: 1, creator: addr("creator"), title: text("Title"), voting_end: 7200 }
    );
    assert_eq!(events[1], Event::VoteCast { proposal_id: 1, voter: addr("v"), choice: 1, timestamp: 9 });
}

#[test]
fn pages_stop_at_the_last_id() {
    let mut c = VotingContract::new();
    for _ in 0..3 {
        create(&mut c, 0, text("Title"), text(DESCRIPTION), 7200, two_options()).unwrap();
    }
    assert_eq!(c.get_proposals(1, 10).iter().map(|p| p.id).collect::<Vec<_>>(), vec![2, 3]);
    assert!(c.get_proposals(0, 0).is_empty());
    assert!(c.get_proposals(3, 1).is_empty());
}

#[test]
fn initialize_resets_the_counter_only() {
    let mut c = VotingContract::new();
    create(&mut c, 0, text("Title"), text(DESCRIPTION), 7200, two_options()).unwrap();
    c.initialize();
    assert_eq!(c.get_proposal_count(), 0);
    assert!(c.get_proposal(1).is_ok());
}

#[test]
fn stored_vote_under_same_key_is_replaced_but_indexed_twice() {
    let mut c = VotingContract::new();
    let v = addr("v");
    c.store_vote(&voting_contract::types::Vote { proposal_id: 1, voter: v.clone(), choice: 0, timestamp: 1 });
    c.store_vote(&voting_contract::types::Vote { proposal_id: 1, voter: v.clone(), choice: 1, timestamp: 2 });
    assert_eq!(c.get_vote_internal(1, &v).unwrap().choice, 1);
    assert_eq!(c.get_proposal_voters(1).len(), 2);
    assert_eq!(c.get_voter_proposal_ids(&v), vec![1, 1]);
}

#[test]
fn vote_count_defaults_to_zero() {
    let mut c = VotingContract::new();
    assert_eq!(c.get_vote_count(7, 3), 0);
    c.increment_vote_count(7, 3);
    assert_eq!(c.get_vote_count(7, 3), 1);
    assert_eq!(c.get_all_vote_counts(7, 5), vec![0, 0, 0, 1, 0]);
}

#[test]
fn addresses_compare_by_bytes() {
    assert!(addr("abc").same_as(&addr("abc")));
    assert!(!addr("abc").same_as(&addr("abd")));
    assert!(!addr("abc").same_as(&addr("ab")));
}

#[test]
fn vote_records_agree() {
    let mut c = VotingContract::new();
    let p1 = create(&mut c, 0, text("Title"), text(DESCRIPTION), 7200, two_options()).unwrap();
    let p2 = create(&mut c, 0, text("Title"), text(DESCRIPTION), 7200, two_options()).unwrap();
    c.cast_vote(1, addr("v"), p2, 0).unwrap();
    for p in [p1, p2] {
        let voted = c.has_voted(&addr("v"), p).unwrap();
        assert_eq!(voted, c.get_proposal_voters(p).contains(&addr("v")));
        assert_eq!(voted, c.get_voter_proposal_ids(&addr("v")).contains(&p));
    }
    assert_eq!(c.get_voter_history(&addr("v")).len(), 1);
}
