//! A verified model of an on-chain voting contract: proposals with a bounded
//! voting window, one vote per voter and proposal, and tallies per option.
pub mod table;
pub mod types;
pub mod rules;
pub mod model;
pub mod contract;
pub mod laws;
