//! The way from actions to a committed transaction.
pub mod balance;
pub mod selection;

use crate::address::Address;
use crate::error::{Error, Result};
use crate::ledger_client::LedgerClient;
use crate::scripts::{MintingPolicy, ValidatorCode};
use crate::transaction::{Parts, TxActions, TxId};
use core::marker::PhantomData;
use vstd::prelude::*;

verus! {

/// Carries actions to a ledger.
#[derive(Debug)]
pub struct Backend<Datum, Redeemer, LC> {
    pub _datum: PhantomData<Datum>,
    pub _redeemer: PhantomData<Redeemer>,
    pub ledger_client: LC,
}

impl<Datum, Redeemer, LC> Backend<Datum, Redeemer, LC> {
    /// The backend of the ledger behind `txo_record`.
    pub fn new(txo_record: LC) -> (r: Self)
        ensures
            r.ledger_client == txo_record,
    {
        Backend { _datum: PhantomData, _redeemer: PhantomData, ledger_client: txo_record }
    }

    /// Sorts the actions into a transaction and submits it. An error of the
    /// ledger client comes back unchanged.
    pub fn process<Validator: ValidatorCode<Datum, Redeemer>, Policy: MintingPolicy<Redeemer>>(
        &mut self,
        actions: TxActions<Datum, Redeemer, Validator, Policy>,
    ) -> (r: Result<TxId>) where LC: LedgerClient<Datum, Redeemer, Validator, Policy>
        ensures
            match r {
                Ok(id) => old(self).ledger_client.issued(
                    Parts::none().with_all(actions.actions@),
                    &final(self).ledger_client,
                    Ok(id),
                ),
                Err(Error::LedgerClient(e)) => old(self).ledger_client.issued(
                    Parts::none().with_all(actions.actions@),
                    &final(self).ledger_client,
                    Err(e),
                ),
                Err(_) => false,
            },
    {
        let tx = match actions.to_unbuilt_tx() {
            Ok(tx) => tx,
            Err(e) => {
                return Err(e);
            },
        };
        match self.ledger_client.issue(tx) {
            Ok(tx_id) => Ok(tx_id),
            Err(e) => Err(Error::LedgerClient(e)),
        }
    }

    /// The ledger client.
    pub fn ledger_client(&self) -> (r: &LC)
        ensures
            *r == self.ledger_client,
    {
        &self.ledger_client
    }

    /// The address of the one who signs, as the ledger client tells it. An
    /// error of the ledger client comes back unchanged.
    pub fn signer<Validator: ValidatorCode<Datum, Redeemer>, Policy: MintingPolicy<Redeemer>>(
        &self,
    ) -> (r: Result<Address>) where LC: LedgerClient<Datum, Redeemer, Validator, Policy>
        ensures
            match r {
                Ok(address) => self.ledger_client.tells_signer(Ok(address)),
                Err(Error::LedgerClient(e)) => self.ledger_client.tells_signer(Err(e)),
                Err(_) => false,
            },
    {
        match LedgerClient::<Datum, Redeemer, Validator, Policy>::signer_base_address(
            &self.ledger_client,
        ) {
            Ok(address) => Ok(address),
            Err(e) => Err(Error::LedgerClient(e)),
        }
    }
}

} // verus!
