use naumachia::address::{Address, AddressView, PolicyId};
use naumachia::backend::Backend;
use naumachia::error::Error;
use naumachia::ledger_client::test_ledger_client::{TestBackendsBuilder, TestLedgerClient};
use naumachia::ledger_client::{
    as_failed_to_issue_tx, as_failed_to_retrieve_by_address, LedgerClient, LedgerClientError,
    LedgerClientResult,
};
use naumachia::logic::SCLogicError;
use naumachia::output::{Output, OutputId};
use naumachia::sample_dapps::always_succeeds_contract::{
    AlwaysSucceedsEndpoints, AlwaysSucceedsLogic, AlwaysSucceedsLookups, AlwaysSucceedsScript,
};
use naumachia::sample_dapps::escrow::{
    EscrowContract, EscrowDatum, EscrowEndpoint, EscrowValidatorScript,
};
use naumachia::scripts::context::{TxContext, TxContextView};
use naumachia::scripts::{NoPolicy, ScriptError, ScriptResult, ValidatorCode};
use naumachia::smart_contract::{SmartContract, SmartContractTrait};
use naumachia::transaction::{TxActions, TxId, UnbuiltTransaction};
use naumachia::values::Values;

/// A ledger client that reaches no ledger: every question fails.
struct Offline;

impl<Datum, Redeemer, Validator, Policy> LedgerClient<Datum, Redeemer, Validator, Policy>
    for Offline
{
    fn signer_base_address(&self) -> LedgerClientResult<Address> {
        Err(as_failed_to_issue_tx("no signer".to_string()))
    }

    fn outputs_at_address(
        &self,
        address: &Address,
        _count: usize,
    ) -> LedgerClientResult<Vec<Output<Datum>>> {
        Err(as_failed_to_retrieve_by_address(address, "offline".to_string()))
    }

    fn all_outputs_at_address(&self, address: &Address) -> LedgerClientResult<Vec<Output<Datum>>> {
        Err(as_failed_to_retrieve_by_address(address, "offline".to_string()))
    }

    fn issue(
        &mut self,
        _tx: UnbuiltTransaction<Datum, Redeemer, Validator, Policy>,
    ) -> LedgerClientResult<TxId> {
        Err(as_failed_to_issue_tx("offline".to_string()))
    }
}

fn key_holder(seed: u8) -> Address {
    Address::from_key_hash(0, vec![seed; 28])
}

fn some_name() -> OutputId {
    OutputId::new(vec![1, 2, 3], 0)
}

#[test]
fn a_query_that_fails_ends_the_endpoint_with_the_error_of_the_logic() {
    let mut contract = SmartContract::new(EscrowContract, Offline);
    let refused = contract.hit_endpoint(EscrowEndpoint::Claim {
        output_id: some_name(),
    });
    assert_eq!(
        refused,
        Err(Error::SCLogic(SCLogicError::Lookup(
            "Failed to retrieve outputs at network 0, \
             script 657363726f772076616c696461746f72, no stake: offline"
                .to_string()
        )))
    );
}

#[test]
fn a_submission_that_fails_ends_the_endpoint_with_the_error_of_the_client() {
    let mut contract = SmartContract::new(EscrowContract, Offline);
    let refused = contract.hit_endpoint(EscrowEndpoint::Escrow {
        amount: 25,
        receiver: key_holder(2),
    });
    assert_eq!(
        refused,
        Err(Error::LedgerClient(LedgerClientError::FailedToIssueTx(
            "offline".to_string()
        )))
    );
}

#[test]
fn a_lookup_that_fails_gives_the_error_of_the_logic() {
    let contract = SmartContract::new(EscrowContract, Offline);
    assert_eq!(
        contract.lookup(()),
        Err(Error::SCLogic(SCLogicError::Lookup(
            "Failed to retrieve outputs at network 0, \
             script 657363726f772076616c696461746f72, no stake: offline"
                .to_string()
        )))
    );
    let contract = SmartContract::new(AlwaysSucceedsLogic, Offline);
    let refused = contract.lookup(AlwaysSucceedsLookups::ListActiveContracts { count: 3 });
    assert!(matches!(
        refused,
        Err(Error::SCLogic(SCLogicError::Lookup(_)))
    ));
}

#[test]
fn a_backend_hands_on_the_errors_of_its_client() {
    let mut backend: Backend<EscrowDatum, (), Offline> = Backend::new(Offline);
    assert_eq!(
        backend.signer::<EscrowValidatorScript, NoPolicy>(),
        Err(Error::LedgerClient(LedgerClientError::FailedToIssueTx(
            "no signer".to_string()
        )))
    );
    let actions: TxActions<EscrowDatum, (), EscrowValidatorScript, NoPolicy> = TxActions::v2();
    assert_eq!(
        backend.process(actions),
        Err(Error::LedgerClient(LedgerClientError::FailedToIssueTx(
            "offline".to_string()
        )))
    );
}

#[test]
fn an_endpoint_that_the_ledger_refuses_leaves_the_ledger_as_it_was() {
    let me = key_holder(1);
    let backend = TestBackendsBuilder::<(), ()>::new(&me)
        .start_output(&me)
        .with_value(PolicyId::Lovelace, 10)
        .finish_output()
        .build_in_memory();
    let mut contract = SmartContract::new(AlwaysSucceedsLogic, backend.ledger_client);
    let before = TestLedgerClient::all_outputs_at_address(contract.ledger_client(), &me).unwrap();

    let refused = contract.hit_endpoint(AlwaysSucceedsEndpoints::Lock { amount: 11 });
    assert_eq!(refused, Err(Error::LedgerClient(LedgerClientError::Balancing)));
    let after = TestLedgerClient::all_outputs_at_address(contract.ledger_client(), &me).unwrap();
    assert_eq!(after, before);
    assert_eq!(contract.ledger_client().len(), 1);

    let accepted = contract.hit_endpoint(AlwaysSucceedsEndpoints::Lock { amount: 4 });
    assert_eq!(accepted, Ok(TxId::new("0100000000000000")));
    let mut left = Values::default();
    left.add_one_value(&PolicyId::Lovelace, 6);
    let mine = TestLedgerClient::all_outputs_at_address(contract.ledger_client(), &me).unwrap();
    assert_eq!(mine.len(), 1);
    assert_eq!(mine[0].values(), &left);
}

/// A validator that permits nothing.
struct AlwaysFails;

impl ValidatorCode<(), ()> for AlwaysFails {
    fn permits(&self, _datum: (), _redeemer: (), _ctx: TxContextView) -> bool {
        false
    }

    fn execute(&self, _datum: &(), _redeemer: &(), _ctx: &TxContext) -> ScriptResult<()> {
        Err(ScriptError::FailedToExecute("never".to_string()))
    }

    fn address_on(&self, _network: u8) -> Option<AddressView> {
        None
    }

    fn address(&self, network: u8) -> ScriptResult<Address> {
        Ok(Address::from_script_hash(network, b"never".to_vec()))
    }
}

fn lovelace(amount: u64) -> Values {
    let mut values = Values::default();
    values.add_one_value(&PolicyId::Lovelace, amount);
    values
}

#[test]
fn one_validator_stands_in_for_another() {
    let me = key_holder(1);
    let mut backend = TestBackendsBuilder::<(), ()>::new(&me)
        .start_output(&me)
        .with_value(PolicyId::Lovelace, 10)
        .finish_output()
        .build_in_memory();
    let guarded = AlwaysFails.address(0).unwrap();

    let lock: TxActions<(), (), AlwaysFails, NoPolicy> =
        TxActions::v2().with_script_init((), lovelace(4), guarded.clone());
    assert_eq!(backend.process(lock), Ok(TxId::new("0100000000000000")));
    let locked =
        TestLedgerClient::all_outputs_at_address(&backend.ledger_client, &guarded).unwrap();
    assert_eq!(locked.len(), 1);
    let mine = TestLedgerClient::all_outputs_at_address(&backend.ledger_client, &me).unwrap();

    // under the validator that permits nothing the output stays where it is
    let claim: TxActions<(), (), AlwaysFails, NoPolicy> =
        TxActions::v2().with_script_redeem(locked[0].clone(), (), AlwaysFails);
    assert_eq!(
        backend.process(claim),
        Err(Error::LedgerClient(LedgerClientError::ScriptExecution(
            ScriptError::FailedToExecute("never".to_string())
        )))
    );
    assert_eq!(
        TestLedgerClient::all_outputs_at_address(&backend.ledger_client, &guarded).unwrap(),
        locked
    );
    assert_eq!(
        TestLedgerClient::all_outputs_at_address(&backend.ledger_client, &me).unwrap(),
        mine
    );

    // under the validator that permits everything it is spent
    let claim: TxActions<(), (), AlwaysSucceedsScript, NoPolicy> =
        TxActions::v2().with_script_redeem(locked[0].clone(), (), AlwaysSucceedsScript);
    assert_eq!(backend.process(claim), Ok(TxId::new("0200000000000000")));
    assert_eq!(
        TestLedgerClient::all_outputs_at_address(&backend.ledger_client, &guarded).unwrap(),
        vec![]
    );
    assert_eq!(
        backend
            .ledger_client
            .balance_at_address(&me, &PolicyId::Lovelace)
            .unwrap(),
        10
    );
}
