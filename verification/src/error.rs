//! The errors that the library reports.
use crate::ledger_client::LedgerClientError;
use crate::logic::SCLogicError;
use crate::scripts::ScriptError;
use vstd::prelude::*;
use vstd::string::*;

verus! {

/// What can go wrong between an endpoint and a committed transaction.
#[derive(Debug, Clone, PartialEq, Eq)]
pub enum Error {
    /// A quantity would have left the range of its type: a subtraction below
    /// zero, or a sum above the largest quantity.
    Arithmetic,
    /// The ledger client refused a query or a submission.
    LedgerClient(LedgerClientError),
    /// The contract logic could not answer.
    SCLogic(SCLogicError),
    /// A script could not be built or run.
    Script(ScriptError),
}

impl Error {
    /// The text of the arithmetic error.
    pub open spec fn arithmetic_text() -> Seq<char> {
        "A quantity would have left the range of its type"@
    }

    /// The text of the arithmetic error.
    pub fn arithmetic_message() -> (r: String)
        ensures
            r@ == Self::arithmetic_text(),
    {
        "A quantity would have left the range of its type".to_owned()
    }
}

/// What the library returns where it can fail.
pub type Result<T> = core::result::Result<T, Error>;

} // verus!
