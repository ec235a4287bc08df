# voting_contract

A verified model of an on-chain voting contract. Proposals carry a title, a
description, two to ten options and a voting window that closes between one
hour and ninety days after creation; each voter may vote once per proposal
while the window is open; tallies are kept per option.

- `src/table.rs`: a keyed table (unique keys, read as a `Map`).
- `src/types.rs`: proposals, votes, results, events, errors and their views.
- `src/rules.rs`: the rules a new proposal must meet.
- `src/model.rs`: the contract's storage as maps, and each operation's effect.
- `src/contract.rs`: `VotingContract`, whose operations are proved against `model.rs`.
- `src/laws.rs`: the invariant every reachable state keeps, and the laws
  that follow (one vote per voter, totals equal voters, pages in id order, ...).
- `app/lib.rs`: the Soroban contract: authentication, ledger time, loading and
  saving the storage model on the ledger, and publishing events.
