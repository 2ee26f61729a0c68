//! The way to use a contract: its logic, bound to a ledger.
use crate::error::{Error, Result};
use crate::ledger_client::{promises_of, LedgerClient, Promises};
use crate::logic::SCLogic;
use crate::transaction::{Parts, TxActions, TxId};
use vstd::prelude::*;

verus! {

/// How a contract is used.
pub trait SmartContractTrait {
    /// What users of the contract can ask it to do.
    type Endpoint;

    /// What users of the contract can ask it about.
    type Lookup;

    /// The answers to lookups.
    type LookupResponse;

    /// Handles an endpoint: submits the transaction that it asks for.
    fn hit_endpoint(&mut self, endpoint: Self::Endpoint) -> Result<TxId>;

    /// Answers a lookup.
    fn lookup(&self, lookup: Self::Lookup) -> Result<Self::LookupResponse>;
}

/// A contract: its logic, and the ledger client through which it acts.
#[derive(Debug)]
pub struct SmartContract<Logic, LC> where
    Logic: SCLogic,
    LC: LedgerClient<Logic::Datums, Logic::Redeemers, Logic::Validators, Logic::Policies>,
 {
    offchain_logic: Logic,
    ledger_client: LC,
}

impl<Logic, LC> SmartContract<Logic, LC> where
    Logic: SCLogic,
    LC: LedgerClient<Logic::Datums, Logic::Redeemers, Logic::Validators, Logic::Policies>,
 {
    /// The logic of the contract, for contracts.
    pub closed spec fn spec_logic(self) -> Logic {
        self.offchain_logic
    }

    /// The ledger client of the contract, for contracts.
    pub closed spec fn spec_ledger_client(self) -> LC {
        self.ledger_client
    }

    /// The contract of `offchain_logic` on the ledger behind `backend`.
    pub fn new(offchain_logic: Logic, backend: LC) -> (r: Self)
        ensures
            r.spec_logic() == offchain_logic,
            r.spec_ledger_client() == backend,
    {
        SmartContract { offchain_logic, ledger_client: backend }
    }

    /// The ledger client through which the contract acts.
    pub fn ledger_client(&self) -> (r: &LC)
        ensures
            *r == self.spec_ledger_client(),
    {
        &self.ledger_client
    }

    /// The ledger client through which the contract acts, to change it.
    pub fn ledger_client_mut(&mut self) -> (r: &mut LC)
        ensures
            *r == old(self).spec_ledger_client(),
            final(self).spec_ledger_client() == *final(r),
            final(self).spec_logic() == old(self).spec_logic(),
    {
        &mut self.ledger_client
    }

    /// The logic of the contract.
    pub fn logic(&self) -> (r: &Logic)
        ensures
            *r == self.spec_logic(),
    {
        &self.offchain_logic
    }
}

/// What the ledger client `client` promises the logic of its answers.
pub open spec fn promised<
    Logic: SCLogic,
    LC: LedgerClient<Logic::Datums, Logic::Redeemers, Logic::Validators, Logic::Policies>,
>(client: LC) -> Promises<Logic::Datums> {
    promises_of::<Logic::Datums, Logic::Redeemers, Logic::Validators, Logic::Policies, LC>(client)
}

/// What hitting an endpoint gives. Where the logic fails, its error comes
/// back, and nothing was submitted: the ledger client is as it was. Else the
/// actions that the logic asked for were sorted into a transaction and
/// submitted, and what the ledger client answered comes back: the name of the
/// transaction, or its error.
pub open spec fn hit<
    Logic: SCLogic,
    LC: LedgerClient<Logic::Datums, Logic::Redeemers, Logic::Validators, Logic::Policies>,
>(
    endpoint: Logic::Endpoints,
    before: LC,
    after: LC,
    r: Result<TxId>,
) -> bool {
    match r {
        Ok(id) => exists|
            actions: TxActions<Logic::Datums, Logic::Redeemers, Logic::Validators, Logic::Policies>,
        |
            #[trigger] Logic::handled(endpoint, promised::<Logic, LC>(before), Ok(actions))
                && before.issued(Parts::none().with_all(actions.actions@), &after, Ok(id)),
        Err(Error::LedgerClient(e)) => exists|
            actions: TxActions<Logic::Datums, Logic::Redeemers, Logic::Validators, Logic::Policies>,
        |
            #[trigger] Logic::handled(endpoint, promised::<Logic, LC>(before), Ok(actions))
                && before.issued(Parts::none().with_all(actions.actions@), &after, Err(e)),
        Err(Error::SCLogic(e)) => Logic::handled(endpoint, promised::<Logic, LC>(before), Err(e))
            && after == before,
        Err(_) => false,
    }
}

impl<Logic, LC> SmartContractTrait for SmartContract<Logic, LC> where
    Logic: SCLogic,
    LC: LedgerClient<Logic::Datums, Logic::Redeemers, Logic::Validators, Logic::Policies>,
 {
    type Endpoint = Logic::Endpoints;

    type Lookup = Logic::Lookups;

    type LookupResponse = Logic::LookupResponses;

    fn hit_endpoint(&mut self, endpoint: Logic::Endpoints) -> (r: Result<TxId>)
        ensures
            final(self).spec_logic() == old(self).spec_logic(),
            hit::<Logic, LC>(
                endpoint,
                old(self).spec_ledger_client(),
                final(self).spec_ledger_client(),
                r,
            ),
    {
        let tx_actions = match Logic::handle_endpoint(endpoint, &self.ledger_client) {
            Ok(actions) => actions,
            Err(e) => {
                return Err(Error::SCLogic(e));
            },
        };
        let ghost asked = tx_actions;
        let tx = match tx_actions.to_unbuilt_tx() {
            Ok(tx) => tx,
            Err(e) => {
                return Err(e);
            },
        };
        let answer = self.ledger_client.issue(tx);
        match answer {
            Ok(tx_id) => {
                assert(Logic::handled(
                    endpoint,
                    promised::<Logic, LC>(old(self).spec_ledger_client()),
                    Ok(asked),
                ));
                Ok(tx_id)
            },
            Err(e) => {
                assert(Logic::handled(
                    endpoint,
                    promised::<Logic, LC>(old(self).spec_ledger_client()),
                    Ok(asked),
                ));
                Err(Error::LedgerClient(e))
            },
        }
    }

    fn lookup(&self, lookup: Self::Lookup) -> (r: Result<Self::LookupResponse>)
        ensures
            match r {
                Ok(response) => Logic::answered(
                    lookup,
                    promised::<Logic, LC>(self.spec_ledger_client()),
                    Ok(response),
                ),
                Err(Error::SCLogic(e)) => Logic::answered(
                    lookup,
                    promised::<Logic, LC>(self.spec_ledger_client()),
                    Err(e),
                ),
                Err(_) => false,
            },
    {
        match Logic::lookup(lookup, &self.ledger_client) {
            Ok(response) => Ok(response),
            Err(e) => Err(Error::SCLogic(e)),
        }
    }
}

} // verus!
