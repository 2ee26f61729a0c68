use naumachia::address::{Address, PolicyId};
use naumachia::error::Error;
use naumachia::ledger_client::test_ledger_client::{TestBackendsBuilder, TestLedgerClient};
use naumachia::ledger_client::LedgerClientError;
use naumachia::sample_dapps::escrow::{
    EscrowContract, EscrowDatum, EscrowEndpoint, EscrowValidatorScript,
};
use naumachia::scripts::ValidatorCode;
use naumachia::smart_contract::{SmartContract, SmartContractTrait};

fn wallet(name: &str) -> Address {
    Address::from_key_hash(0, name.as_bytes().to_vec())
}

#[test]
#[allow(non_snake_case)]
fn escrow__can_create_instance() {
    let me = wallet("me");
    let alice = wallet("alice");
    let start_amount = 100;
    let backend = TestBackendsBuilder::<EscrowDatum, ()>::new(&me)
        .start_output(&me)
        .with_value(PolicyId::Lovelace, start_amount)
        .finish_output()
        .build_in_memory();

    let escrow_amount = 25;
    let call = EscrowEndpoint::Escrow {
        amount: escrow_amount,
        receiver: alice.clone(),
    };
    let script = EscrowValidatorScript;
    let mut contract = SmartContract::new(EscrowContract, backend.ledger_client);
    contract.hit_endpoint(call).unwrap();

    let escrow_address = script.address(0).unwrap();
    let expected = escrow_amount;
    let actual = contract
        .ledger_client()
        .balance_at_address(&escrow_address, &PolicyId::Lovelace)
        .unwrap();
    assert_eq!(expected, actual);

    let expected = start_amount - escrow_amount;
    let actual = contract
        .ledger_client()
        .balance_at_address(&me, &PolicyId::Lovelace)
        .unwrap();
    assert_eq!(expected, actual);

    let instance = TestLedgerClient::all_outputs_at_address(contract.ledger_client(), &escrow_address)
        .unwrap()
        .pop()
        .unwrap();
    // The creator tries to spend escrow but fails because not recipient
    let attempt = contract.hit_endpoint(EscrowEndpoint::Claim {
        output_id: instance.id().clone(),
    });
    assert!(matches!(
        attempt,
        Err(Error::LedgerClient(LedgerClientError::ScriptExecution(_)))
    ));
    let untouched = contract
        .ledger_client()
        .balance_at_address(&escrow_address, &PolicyId::Lovelace)
        .unwrap();
    assert_eq!(untouched, escrow_amount);

    // The recipient tries to spend and succeeds
    contract.ledger_client_mut().set_signer(alice.clone());
    contract
        .hit_endpoint(EscrowEndpoint::Claim {
            output_id: instance.id().clone(),
        })
        .unwrap();

    let alice_balance = contract
        .ledger_client()
        .balance_at_address(&alice, &PolicyId::Lovelace)
        .unwrap();
    assert_eq!(alice_balance, escrow_amount);

    let script_balance = contract
        .ledger_client()
        .balance_at_address(&escrow_address, &PolicyId::Lovelace)
        .unwrap();
    assert_eq!(script_balance, 0);
}
