//! Data in the form that scripts read.
pub mod plutus_data;
