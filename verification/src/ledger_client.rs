//! What a ledger offers to contract logic: the outputs at an address, the
//! signer's address, and the submission of a transaction.
pub mod test_ledger_client;
pub mod validation;

use crate::address::{Address, AddressView};
use crate::output::{Output, OutputId, OutputIdView};
use crate::scripts::{MintingPolicy, ScriptError, ScriptFault, ValidatorCode};
use crate::transaction::{Parts, TxId, UnbuiltTransaction};
use vstd::prelude::*;
use vstd::string::*;

verus! {

/// Why a ledger client refused a query or a submission.
#[derive(Debug, PartialEq, Eq)]
pub enum LedgerClientError {
    /// The outputs at the address could not be had; the text says why.
    FailedToRetrieveOutputsAt(Address, String),
    /// The transaction could not be submitted; the text says why.
    FailedToIssueTx(String),
    /// A validator or a policy did not permit the transaction.
    ScriptExecution(ScriptError),
    /// The inputs that can be had do not cover the outputs.
    Balancing,
    /// A sum of quantities is no quantity.
    Arithmetic,
    /// The ledger holds no output of that name that the transaction may
    /// spend: the name is stale, or the output was asked for twice.
    OutputNotFound(OutputId),
}

/// The mathematical value of a [`LedgerClientError`].
pub enum LedgerFault {
    FailedToRetrieveOutputsAt(AddressView, Seq<char>),
    FailedToIssueTx(Seq<char>),
    ScriptExecution(ScriptFault),
    Balancing,
    Arithmetic,
    OutputNotFound(OutputIdView),
}

impl View for LedgerClientError {
    type V = LedgerFault;

    open spec fn view(&self) -> LedgerFault {
        match self {
            LedgerClientError::FailedToRetrieveOutputsAt(address, text) => {
                LedgerFault::FailedToRetrieveOutputsAt(address@, text@)
            },
            LedgerClientError::FailedToIssueTx(text) => LedgerFault::FailedToIssueTx(text@),
            LedgerClientError::ScriptExecution(e) => LedgerFault::ScriptExecution(e@),
            LedgerClientError::Balancing => LedgerFault::Balancing,
            LedgerClientError::Arithmetic => LedgerFault::Arithmetic,
            LedgerClientError::OutputNotFound(id) => LedgerFault::OutputNotFound(id@),
        }
    }
}

impl Clone for LedgerClientError {
    fn clone(&self) -> (r: Self)
        ensures
            r@ == self@,
    {
        match self {
            LedgerClientError::FailedToRetrieveOutputsAt(address, text) => {
                LedgerClientError::FailedToRetrieveOutputsAt(address.clone(), text.clone())
            },
            LedgerClientError::FailedToIssueTx(text) => LedgerClientError::FailedToIssueTx(
                text.clone(),
            ),
            LedgerClientError::ScriptExecution(e) => LedgerClientError::ScriptExecution(e.clone()),
            LedgerClientError::Balancing => LedgerClientError::Balancing,
            LedgerClientError::Arithmetic => LedgerClientError::Arithmetic,
            LedgerClientError::OutputNotFound(id) => LedgerClientError::OutputNotFound(id.clone()),
        }
    }
}

impl LedgerClientError {
    /// The text of the error.
    pub fn message(&self) -> (r: String)
        ensures
            r@ == Self::text_of(self@),
    {
        match self {
            LedgerClientError::FailedToRetrieveOutputsAt(address, text) => {
                "Failed to retrieve outputs at ".to_owned().concat(address.text().as_str()).concat(
                    ": ",
                ).concat(text.as_str())
            },
            LedgerClientError::FailedToIssueTx(text) => "Failed to issue transaction: ".to_owned()
                .concat(text.as_str()),
            LedgerClientError::ScriptExecution(e) => "A script refused the transaction: ".to_owned()
                .concat(e.message().as_str()),
            LedgerClientError::Balancing => {
                "The inputs that can be had do not cover the outputs".to_owned()
            },
            LedgerClientError::Arithmetic => "A sum of quantities is no quantity".to_owned(),
            LedgerClientError::OutputNotFound(id) => {
                "The ledger holds no output to spend with id: ".to_owned().concat(
                    id.text().as_str(),
                )
            },
        }
    }

    /// The text of an error.
    pub open spec fn text_of(fault: LedgerFault) -> Seq<char> {
        match fault {
            LedgerFault::FailedToRetrieveOutputsAt(address, text) => {
                "Failed to retrieve outputs at "@ + Address::text_of(address) + ": "@ + text
            },
            LedgerFault::FailedToIssueTx(text) => "Failed to issue transaction: "@ + text,
            LedgerFault::ScriptExecution(e) => "A script refused the transaction: "@
                + ScriptError::text_of(e),
            LedgerFault::Balancing => "The inputs that can be had do not cover the outputs"@,
            LedgerFault::Arithmetic => "A sum of quantities is no quantity"@,
            LedgerFault::OutputNotFound(id) => "The ledger holds no output to spend with id: "@
                + OutputId::text_of(id),
        }
    }
}

/// What a ledger client returns.
pub type LedgerClientResult<T> = Result<T, LedgerClientError>;

/// The error of a submission that failed for the reason that `error` gives.
pub fn as_failed_to_issue_tx(error: String) -> (r: LedgerClientError)
    ensures
        r@ == LedgerFault::FailedToIssueTx(error@),
{
    LedgerClientError::FailedToIssueTx(error)
}

/// The error of a query for the outputs at `address` that failed for the
/// reason that `error` gives.
pub fn as_failed_to_retrieve_by_address(address: &Address, error: String) -> (r: LedgerClientError)
    ensures
        r@ == LedgerFault::FailedToRetrieveOutputsAt(address@, error@),
{
    LedgerClientError::FailedToRetrieveOutputsAt(address.clone(), error)
}

/// A ledger as the logic of a contract sees it, for the validators and
/// policies of that contract. What a client promises of its answers and of a
/// submission is for the client to say: a client may stand for a ledger that
/// others change, and then it promises little. A client that says nothing
/// promises nothing.
pub trait LedgerClient<Datum, Redeemer, Validator, Policy> {
    /// What the client promises of its answer to the question who signs.
    open spec fn tells_signer(&self, r: LedgerClientResult<Address>) -> bool {
        true
    }

    /// The address of the one who signs the transactions.
    fn signer_base_address(&self) -> (r: LedgerClientResult<Address>)
        ensures
            self.tells_signer(r),
    ;

    /// What the client promises of its answer to the question which outputs
    /// `address` holds, where at most `count` are asked for.
    open spec fn tells_outputs(
        &self,
        address: AddressView,
        count: usize,
        r: LedgerClientResult<Vec<Output<Datum>>>,
    ) -> bool {
        true
    }

    /// Outputs held at `address`, at most `count` of them.
    fn outputs_at_address(&self, address: &Address, count: usize) -> (r: LedgerClientResult<
        Vec<Output<Datum>>,
    >)
        ensures
            self.tells_outputs(address@, count, r),
    ;

    /// What the client promises of its answer to the question which outputs
    /// `address` holds.
    open spec fn tells_all_outputs(
        &self,
        address: AddressView,
        r: LedgerClientResult<Vec<Output<Datum>>>,
    ) -> bool {
        true
    }

    /// The outputs held at `address`.
    fn all_outputs_at_address(&self, address: &Address) -> (r: LedgerClientResult<
        Vec<Output<Datum>>,
    >)
        ensures
            self.tells_all_outputs(address@, r),
    ;

    /// What the client promises of a submission: how the client after it,
    /// `after`, and the result relate to the client before it and to the
    /// transaction.
    open spec fn issued(
        &self,
        tx: Parts<Datum, Redeemer, Validator, Policy>,
        after: &Self,
        r: LedgerClientResult<TxId>,
    ) -> bool {
        true
    }

    /// Submits a transaction, and returns its name once it is committed.
    fn issue(&mut self, tx: UnbuiltTransaction<Datum, Redeemer, Validator, Policy>) -> (r:
        LedgerClientResult<TxId>)
        ensures
            old(self).issued(tx@, final(self), r),
    ;
}

/// What a ledger client promises of its answers to questions: what the logic
/// of a contract, which only asks, can know of the client.
#[verifier::reject_recursive_types(Datum)]
pub struct Promises<Datum> {
    /// Of its answer to the question who signs.
    pub signer: spec_fn(LedgerClientResult<Address>) -> bool,
    /// Of its answer to the question which outputs an address holds, where at
    /// most so many are asked for.
    pub outputs: spec_fn(AddressView, usize, LedgerClientResult<Vec<Output<Datum>>>) -> bool,
    /// Of its answer to the question which outputs an address holds.
    pub all_outputs: spec_fn(AddressView, LedgerClientResult<Vec<Output<Datum>>>) -> bool,
}

/// What `client` promises of its answers to questions.
pub open spec fn promises_of<Datum, Redeemer, Validator, Policy, LC: LedgerClient<
    Datum,
    Redeemer,
    Validator,
    Policy,
>>(client: LC) -> Promises<Datum> {
    Promises {
        signer: |r: LedgerClientResult<Address>| client.tells_signer(r),
        outputs: |address: AddressView, count: usize, r: LedgerClientResult<Vec<Output<Datum>>>|
            client.tells_outputs(address, count, r),
        all_outputs: |address: AddressView, r: LedgerClientResult<Vec<Output<Datum>>>|
            client.tells_all_outputs(address, r),
    }
}

} // verus!
