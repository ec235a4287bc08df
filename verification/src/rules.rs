//! The rules a new proposal must meet.
use vstd::prelude::*;
use crate::types::ContractError;

verus! {

pub const MIN_TITLE_LEN: usize = 5;

pub const MAX_TITLE_LEN: usize = 200;

pub const MIN_DESCRIPTION_LEN: usize = 20;

pub const MAX_DESCRIPTION_LEN: usize = 5000;

/// The shortest voting window, in seconds.
pub const ONE_HOUR: u64 = 3600;

/// The longest voting window, in seconds.
pub const NINETY_DAYS: u64 = 7776000;

pub const MIN_OPTIONS: usize = 2;

pub const MAX_OPTIONS: usize = 10;

pub const MIN_OPTION_LEN: usize = 1;

pub const MAX_OPTION_LEN: usize = 100;

pub open spec fn title_ok(title: Seq<u8>) -> bool {
    MIN_TITLE_LEN <= title.len() <= MAX_TITLE_LEN
}

pub open spec fn description_ok(description: Seq<u8>) -> bool {
    MIN_DESCRIPTION_LEN <= description.len() <= MAX_DESCRIPTION_LEN
}

/// The voting window ends between one hour and ninety days after `now`.
pub open spec fn period_ok(now: u64, voting_end: u64) -> bool {
    now + ONE_HOUR <= voting_end <= now + NINETY_DAYS
}

pub open spec fn option_ok(option: Seq<u8>) -> bool {
    MIN_OPTION_LEN <= option.len() <= MAX_OPTION_LEN
}

pub open spec fn options_ok(options: Seq<Seq<u8>>) -> bool {
    &&& MIN_OPTIONS <= options.len() <= MAX_OPTIONS
    &&& forall|i: int| 0 <= i < options.len() ==> option_ok(#[trigger] options[i])
}

/// The error a proposal with these fields is refused with, checked in this
/// order: title, description, voting window, options; `None` if it is valid.
pub open spec fn creation_error(
    now: u64,
    title: Seq<u8>,
    description: Seq<u8>,
    voting_end: u64,
    options: Seq<Seq<u8>>,
) -> Option<ContractError> {
    if !title_ok(title) {
        Some(ContractError::InvalidTitle)
    } else if !description_ok(description) {
        Some(ContractError::InvalidDescription)
    } else if !period_ok(now, voting_end) {
        Some(ContractError::InvalidVotingPeriod)
    } else if !options_ok(options) {
        Some(ContractError::InvalidInput)
    } else {
        None
    }
}

/// The window's bounds are computed in `u64`, once title and description
/// have passed; they must not overflow there.
pub open spec fn window_fits(now: u64, title: Seq<u8>, description: Seq<u8>) -> bool {
    title_ok(title) && description_ok(description) ==> now + NINETY_DAYS <= u64::MAX
}

/// Checks a new proposal's fields against the rules.
pub fn check_proposal_input(
    now: u64,
    title: &Vec<u8>,
    description: &Vec<u8>,
    voting_end: u64,
    options: &Vec<Vec<u8>>,
) -> (r: Result<(), ContractError>)
    requires
        window_fits(now, title@, description@),
    ensures
        r == match creation_error(
            now,
            title@,
            description@,
            voting_end,
            crate::types::texts_view(options@),
        ) {
            Some(e) => Err(e),
            None => Ok(()),
        },
{
    let title_len = title.len();
    if title_len < MIN_TITLE_LEN || title_len > MAX_TITLE_LEN {
        return Err(ContractError::InvalidTitle);
    }
    let description_len = description.len();
    if description_len < MIN_DESCRIPTION_LEN || description_len > MAX_DESCRIPTION_LEN {
        return Err(ContractError::InvalidDescription);
    }
    let min_end = now + ONE_HOUR;
    let max_end = now + NINETY_DAYS;
    if voting_end < min_end || voting_end > max_end {
        return Err(ContractError::InvalidVotingPeriod);
    }
    let ghost texts = crate::types::texts_view(options@);
    let num_options = options.len();
    if num_options < MIN_OPTIONS || num_options > MAX_OPTIONS {
        return Err(ContractError::InvalidInput);
    }
    let mut i: usize = 0;
    while i < num_options
        invariant
            num_options == options.len(),
            title_ok(title@),
            description_ok(description@),
            period_ok(now, voting_end),
            MIN_OPTIONS <= num_options <= MAX_OPTIONS,
            texts == crate::types::texts_view(options@),
            i <= num_options,
            forall|j: int| 0 <= j < i ==> option_ok(#[trigger] texts[j]),
        decreases num_options - i,
    {
        let option_len = options[i].len();
        if option_len < MIN_OPTION_LEN || option_len > MAX_OPTION_LEN {
            assert(texts.len() == options@.len());
            assert(!option_ok(texts[i as int]));
            assert(!options_ok(texts));
            return Err(ContractError::InvalidInput);
        }
        i += 1;
    }
    Ok(())
}

} // verus!
