use naumachia::address::{Address, PolicyId};
use naumachia::error::Error;
use naumachia::ledger_client::test_ledger_client::{TestBackendsBuilder, TestLedgerClient};
use naumachia::ledger_client::LedgerClientError;
use naumachia::sample_dapps::game_contract::{
    get_script, ClearString, GameEndpoints, GameLogic, HashedString,
};
use naumachia::scripts::ValidatorCode;
use naumachia::smart_contract::{SmartContract, SmartContractTrait};

fn wallet(seed: u8) -> Address {
    Address::from_key_hash(0, vec![seed; 28])
}

#[test]
fn tests_lock_and_claim() {
    let me = wallet(1);
    let start_amount = 100_000_000;
    let backend = TestBackendsBuilder::<HashedString, ClearString>::new(&me)
        .start_output(&me)
        .with_value(PolicyId::Lovelace, start_amount)
        .finish_output()
        .build_in_memory();

    let amount = 10_000_000;
    let secret = "my secret";
    let endpoint = GameEndpoints::Lock {
        amount,
        secret: secret.to_string(),
    };
    let script = get_script().unwrap();
    let mut contract = SmartContract::new(GameLogic, backend.ledger_client);
    contract.hit_endpoint(endpoint).unwrap();
    {
        let expected = amount;
        let actual = contract
            .ledger_client()
            .balance_at_address(&script.address(0).unwrap(), &PolicyId::Lovelace)
            .unwrap();
        assert_eq!(expected, actual);
    }

    {
        let expected = start_amount - amount;
        let actual = contract
            .ledger_client()
            .balance_at_address(&me, &PolicyId::Lovelace)
            .unwrap();
        assert_eq!(expected, actual);
    }
    let instance = TestLedgerClient::all_outputs_at_address(
        contract.ledger_client(),
        &script.address(0).unwrap(),
    )
    .unwrap()
    .pop()
    .unwrap();

    let wrong = contract.hit_endpoint(GameEndpoints::Guess {
        output_id: instance.id().clone(),
        guess: "not my secret".to_string(),
    });
    assert!(matches!(
        wrong,
        Err(Error::LedgerClient(LedgerClientError::ScriptExecution(_)))
    ));

    let call = GameEndpoints::Guess {
        output_id: instance.id().clone(),
        guess: secret.to_string(),
    };

    contract.hit_endpoint(call).unwrap();
    {
        let actual = contract
            .ledger_client()
            .balance_at_address(&me, &PolicyId::Lovelace)
            .unwrap();
        assert_eq!(actual, start_amount);
    }
    {
        let script_balance = contract
            .ledger_client()
            .balance_at_address(&script.address(0).unwrap(), &PolicyId::Lovelace)
            .unwrap();
        assert_eq!(script_balance, 0);
    }
}

#[test]
fn hashed_string_is_the_sha256_digest() {
    let hashed = HashedString::new("my secret");
    assert_eq!(
        hex::encode(&hashed.inner),
        "b9d1d013f600ec1bf16bae6a3634cad15dcc490c9f2835764201a41a1d70de44"
    );
}
