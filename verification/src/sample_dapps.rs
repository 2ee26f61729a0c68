//! Contracts that show how the library is used, each with scripts written in
//! this library.
pub mod always_succeeds_contract;
pub mod checking_account;
pub mod escrow;
pub mod game_contract;
