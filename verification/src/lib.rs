//! The core of a Byzantine fault tolerant consensus engine of the Tendermint
//! family, as a state machine: messages and timeouts go in, and proposals,
//! votes, commits and requests for timeouts come out. Every function is
//! verified against a mathematical model of the engine, and the rules that
//! keep replicas safe are proved of that model.

pub mod types;
pub mod params;
pub mod voteset;
pub mod timer;
pub mod algorithm;
pub mod safety;
