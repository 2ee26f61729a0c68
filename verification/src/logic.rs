//! Contract logic: for each endpoint of a contract the actions that it asks
//! of a ledger, and for each lookup an answer.
use crate::backend::selection::{find_output, lemma_position_of, position_of};
use crate::ledger_client::{promises_of, LedgerClient, Promises};
use crate::output::{Output, OutputId};
use crate::scripts::{MintingPolicy, ScriptError, ValidatorCode};
use crate::transaction::TxActions;
use vstd::prelude::*;

verus! {

/// The first of `outputs` that is named `id`, if there is one.
pub fn take_output<Datum>(outputs: Vec<Output<Datum>>, id: &OutputId) -> (r: Option<Output<Datum>>)
    ensures
        match r {
            Some(output) => position_of(outputs@, id@) < outputs.len() && output
                == outputs[position_of(outputs@, id@)] && output@.id == id@,
            None => position_of(outputs@, id@) == outputs.len() && forall|i: int|
                0 <= i < outputs.len() ==> (#[trigger] outputs[i])@.id != id@,
        },
{
    let at = find_output(&outputs, id);
    proof {
        lemma_position_of(outputs@, id@);
    }
    if at < outputs.len() {
        let mut outputs = outputs;
        Some(outputs.remove(at))
    } else {
        None
    }
}

/// The logic of a contract. An endpoint is mapped to actions with no other
/// help than queries to the ledger; nothing is submitted here.
pub trait SCLogic {
    /// What users of the contract can ask it to do.
    type Endpoints;

    /// What users of the contract can ask it about.
    type Lookups;

    /// The answers to lookups.
    type LookupResponses;

    /// What the script outputs of the contract carry.
    type Datums;

    /// What redemptions and mintings of the contract are given.
    type Redeemers;

    /// The validators of the contract.
    type Validators: ValidatorCode<Self::Datums, Self::Redeemers>;

    /// The minting policies of the contract.
    type Policies: MintingPolicy<Self::Redeemers>;

    /// What the logic promises of the handling of an endpoint, given what the
    /// ledger client promises of its answers. A logic that says nothing
    /// promises nothing.
    open spec fn handled(
        endpoint: Self::Endpoints,
        promises: Promises<Self::Datums>,
        r: SCLogicResult<
            TxActions<Self::Datums, Self::Redeemers, Self::Validators, Self::Policies>,
        >,
    ) -> bool {
        true
    }

    /// The actions that an endpoint asks for.
    fn handle_endpoint<
        LC: LedgerClient<Self::Datums, Self::Redeemers, Self::Validators, Self::Policies>,
    >(
        endpoint: Self::Endpoints,
        ledger_client: &LC,
    ) -> (r: SCLogicResult<
        TxActions<Self::Datums, Self::Redeemers, Self::Validators, Self::Policies>,
    >)
        ensures
            Self::handled(
                endpoint,
                promises_of::<
                    Self::Datums,
                    Self::Redeemers,
                    Self::Validators,
                    Self::Policies,
                    LC,
                >(*ledger_client),
                r,
            ),
    ;

    /// What the logic promises of the answer to a lookup, given what the
    /// ledger client promises of its answers. A logic that says nothing
    /// promises nothing.
    open spec fn answered(
        query: Self::Lookups,
        promises: Promises<Self::Datums>,
        r: SCLogicResult<Self::LookupResponses>,
    ) -> bool {
        true
    }

    /// The answer to a lookup.
    fn lookup<
        LC: LedgerClient<Self::Datums, Self::Redeemers, Self::Validators, Self::Policies>,
    >(
        query: Self::Lookups,
        ledger_client: &LC,
    ) -> (r: SCLogicResult<Self::LookupResponses>)
        ensures
            Self::answered(
                query,
                promises_of::<
                    Self::Datums,
                    Self::Redeemers,
                    Self::Validators,
                    Self::Policies,
                    LC,
                >(*ledger_client),
                r,
            ),
    ;
}

/// Why contract logic could not answer.
#[derive(Debug, Clone, PartialEq, Eq)]
pub enum SCLogicError {
    /// An endpoint could not be handled; the text says why.
    Endpoint(String),
    /// A lookup could not be answered; the text says why.
    Lookup(String),
    /// A validator could not be built or asked.
    ValidatorScript(ScriptError),
    /// A policy could not be built or asked.
    PolicyScript(ScriptError),
}

/// What contract logic returns.
pub type SCLogicResult<T> = Result<T, SCLogicError>;

} // verus!
