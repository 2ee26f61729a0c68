//! Off-chain construction and testing of smart-contract transactions for a
//! UTXO ledger with script-locked outputs.
//!
//! Contract logic maps an endpoint to a sequence of ledger actions; the actions
//! are partitioned into an unbuilt transaction, balanced against the signer's
//! wallet and committed by a ledger client. The in-memory client is itself a
//! small ledger: it holds the UTXO set, runs the scripts that guard the inputs
//! and commits a submission completely or not at all.
pub mod address;
pub mod backend;
pub mod bytes;
pub mod error;
pub mod hex;
pub mod ledger_client;
pub mod logic;
pub mod model;
pub mod output;
pub mod sample_dapps;
pub mod scripts;
pub mod smart_contract;
pub mod text;
pub mod transaction;
pub mod values;
