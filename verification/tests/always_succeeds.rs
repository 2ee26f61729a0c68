use naumachia::address::{Address, PolicyId};
use naumachia::ledger_client::test_ledger_client::{TestBackendsBuilder, TestLedgerClient};
use naumachia::sample_dapps::always_succeeds_contract::{
    get_script, AlwaysSucceedsEndpoints, AlwaysSucceedsLogic, AlwaysSucceedsLookupResponses,
    AlwaysSucceedsLookups, AlwaysSucceedsScript,
};
use naumachia::scripts::context::{pub_key_hash_from_address_if_available, ContextBuilder};
use naumachia::scripts::ValidatorCode;
use naumachia::smart_contract::{SmartContract, SmartContractTrait};

fn wallet(seed: u8) -> Address {
    Address::from_key_hash(0, vec![seed; 28])
}

fn script_address(script: &AlwaysSucceedsScript) -> Address {
    ValidatorCode::<(), ()>::address(script, 0).unwrap()
}

#[test]
fn test() {
    let script = get_script().unwrap();

    let owner = wallet(3);

    let owner_pkh = pub_key_hash_from_address_if_available(&owner).unwrap();
    let ctx = ContextBuilder::new(owner_pkh).build_spend(&vec![], 0);
    script.execute(&(), &(), &ctx).unwrap();
}

#[test]
fn lock_and_claim() {
    let me = wallet(1);
    let start_amount = 100_000_000;
    let backend = TestBackendsBuilder::<(), ()>::new(&me)
        .start_output(&me)
        .with_value(PolicyId::Lovelace, start_amount)
        .finish_output()
        .build_in_memory();

    let amount = 10_000_000;
    let endpoint = AlwaysSucceedsEndpoints::Lock { amount };
    let script = get_script().unwrap();
    let mut contract = SmartContract::new(AlwaysSucceedsLogic, backend.ledger_client);
    contract.hit_endpoint(endpoint).unwrap();
    {
        let expected = amount;
        let actual = contract
            .ledger_client()
            .balance_at_address(&script_address(&script), &PolicyId::Lovelace)
            .unwrap();
        assert_eq!(expected, actual);
    }

    {
        let expected = start_amount - amount;
        let actual = contract
            .ledger_client()
            .balance_at_address(&me, &PolicyId::Lovelace)
            .unwrap();
        assert_eq!(expected, actual);
    }
    let instance =
        TestLedgerClient::all_outputs_at_address(contract.ledger_client(), &script_address(&script))
            .unwrap()
            .pop()
            .unwrap();
    let call = AlwaysSucceedsEndpoints::Claim {
        output_id: instance.id().clone(),
    };

    contract.hit_endpoint(call).unwrap();
    {
        let actual = contract
            .ledger_client()
            .balance_at_address(&me, &PolicyId::Lovelace)
            .unwrap();
        assert_eq!(actual, start_amount);
    }
    {
        let script_balance = contract
            .ledger_client()
            .balance_at_address(&script_address(&script), &PolicyId::Lovelace)
            .unwrap();
        assert_eq!(script_balance, 0);
    }
}

#[test]
fn list_active_contracts_returns_at_most_count() {
    let me = wallet(1);
    let backend = TestBackendsBuilder::<(), ()>::new(&me)
        .start_output(&me)
        .with_value(PolicyId::Lovelace, 100)
        .finish_output()
        .build_in_memory();
    let mut contract = SmartContract::new(AlwaysSucceedsLogic, backend.ledger_client);
    for amount in [10, 20, 30] {
        contract
            .hit_endpoint(AlwaysSucceedsEndpoints::Lock { amount })
            .unwrap();
    }
    let AlwaysSucceedsLookupResponses::ActiveContracts(two) = contract
        .lookup(AlwaysSucceedsLookups::ListActiveContracts { count: 2 })
        .unwrap();
    assert_eq!(two.len(), 2);
    assert_eq!(two[0].values().get(&PolicyId::Lovelace), Some(10));
    assert_eq!(two[1].values().get(&PolicyId::Lovelace), Some(20));
    let AlwaysSucceedsLookupResponses::ActiveContracts(all) = contract
        .lookup(AlwaysSucceedsLookups::ListActiveContracts { count: 9 })
        .unwrap();
    assert_eq!(all.len(), 3);
}

#[test]
fn claim_of_an_unknown_output_is_an_endpoint_error() {
    let me = wallet(1);
    let backend = TestBackendsBuilder::<(), ()>::new(&me).build_in_memory();
    let mut contract = SmartContract::new(AlwaysSucceedsLogic, backend.ledger_client);
    let attempt = contract.hit_endpoint(AlwaysSucceedsEndpoints::Claim {
        output_id: naumachia::output::OutputId::new(vec![1, 2, 3], 0),
    });
    assert!(matches!(
        attempt,
        Err(naumachia::error::Error::SCLogic(
            naumachia::logic::SCLogicError::Endpoint(_)
        ))
    ));
}
