#![allow(non_snake_case)]
use naumachia::address::{Address, PolicyId};
use naumachia::backend::Backend;
use naumachia::error::Error;
use naumachia::ledger_client::test_ledger_client::{TestBackendsBuilder, TestLedgerClient};
use naumachia::ledger_client::{LedgerClient, LedgerClientError};
use naumachia::output::Output;
use naumachia::sample_dapps::checking_account::scripts::one_shot::{OneShotPolicy, OutputReference};
use naumachia::sample_dapps::checking_account::scripts::{
    CheckingAccountPolicies, CheckingAccountValidators,
};
use naumachia::scripts::MintingPolicy;
use naumachia::transaction::TxActions;
use naumachia::values::Values;
use naumachia::sample_dapps::checking_account::scripts::checking_account_validator::checking_account_validator;
use naumachia::sample_dapps::checking_account::scripts::pull_validator::spend_token_policy as pull_validator;
use naumachia::sample_dapps::checking_account::{
    AllowedPuller, CheckingAccount, CheckingAccountDatums, CheckingAccountEndpoints,
    CheckingAccountLogic, CHECKING_ACCOUNT_NFT_ASSET_NAME, SPEND_TOKEN_ASSET_NAME,
};
use naumachia::scripts::context::{pub_key_hash_from_address_if_available, PubKeyHash};
use naumachia::scripts::ValidatorCode;
use naumachia::smart_contract::{SmartContract, SmartContractTrait};

const NETWORK: u8 = 0;

type Ledger = TestLedgerClient<CheckingAccountDatums, ()>;

fn wallet(seed: u8) -> Address {
    Address::from_key_hash(NETWORK, vec![seed; 28])
}

fn funded(me: &Address, start_amount: u64) -> Backend<CheckingAccountDatums, (), Ledger> {
    TestBackendsBuilder::new(me)
        .start_output(me)
        .with_value(PolicyId::Lovelace, start_amount)
        .finish_output()
        .build_in_memory()
}

fn outputs_at(
    contract: &SmartContract<CheckingAccountLogic, Ledger>,
    address: &Address,
) -> Vec<Output<CheckingAccountDatums>> {
    TestLedgerClient::all_outputs_at_address(contract.ledger_client(), address).unwrap()
}

#[test]
fn init_creates_instance_with_correct_balance() {
    let me = wallet(1);
    let start_amount = 100_000_000;
    let backend = funded(&me, start_amount);

    let account_amount = 10_000_000;
    let endpoint = CheckingAccountEndpoints::InitAccount {
        starting_lovelace: account_amount,
    };
    let mut contract = SmartContract::new(CheckingAccountLogic, backend.ledger_client);
    contract.hit_endpoint(endpoint).unwrap();

    let script = checking_account_validator().unwrap();
    let address = script.address(NETWORK).unwrap();
    let mut outputs_at_address = outputs_at(&contract, &address);
    let script_output = outputs_at_address.pop().unwrap();
    let value = script_output.values().get(&PolicyId::Lovelace).unwrap();
    assert_eq!(value, account_amount);
}

#[test]
fn init_mints_exactly_one_token_into_the_account() {
    let me = wallet(1);
    let backend = funded(&me, 100_000_000);
    let mut contract = SmartContract::new(CheckingAccountLogic, backend.ledger_client);
    contract
        .hit_endpoint(CheckingAccountEndpoints::InitAccount {
            starting_lovelace: 10_000_000,
        })
        .unwrap();

    let address = checking_account_validator().unwrap().address(NETWORK).unwrap();
    let script_output = outputs_at(&contract, &address).pop().unwrap();
    assert_eq!(script_output.values().len(), 2);
    let (token, quantity) = script_output.values().entry(1);
    assert_eq!(quantity, 1);
    assert_eq!(
        token.asset_name(),
        Some(CHECKING_ACCOUNT_NFT_ASSET_NAME.to_string())
    );
    // what the wallet keeps: the change, without the token
    let at_wallet = outputs_at(&contract, &me);
    assert_eq!(at_wallet.len(), 1);
    assert_eq!(at_wallet[0].values().get(&PolicyId::Lovelace), Some(90_000_000));
    assert_eq!(at_wallet[0].values().get(token), None);
}

#[test]
fn minting_with_an_output_succeeds_only_where_the_policy_permits() {
    let me = wallet(1);
    let mut ledger = funded(&me, 100_000_000).ledger_client;
    let address = checking_account_validator().unwrap().address(NETWORK).unwrap();
    let datum = || {
        CheckingAccountDatums::CheckingAccount(CheckingAccount {
            owner: pub_key_hash_from_address_if_available(&me).unwrap(),
            spend_token_policy: vec![5, 5],
        })
    };
    let actions = |spent: &Output<CheckingAccountDatums>| {
        let policy = OneShotPolicy::new(OutputReference::from_output(spent));
        let mut values = Values::default();
        values.add_one_value(&PolicyId::Lovelace, 7);
        values.add_one_value(
            &PolicyId::NativeToken(policy.id(), Some("NFT".to_string())),
            1,
        );
        let actions: TxActions<
            CheckingAccountDatums,
            (),
            CheckingAccountValidators,
            CheckingAccountPolicies,
        > = TxActions::v2().with_script_init(datum(), values, address.clone()).with_mint(
            1,
            Some("NFT".to_string()),
            (),
            CheckingAccountPolicies::OneShot(policy),
        );
        actions
    };

    // the policy wants an output spent that the transaction does not spend
    let elsewhere = Output::new_wallet(vec![9, 9], 0, me.clone(), Values::default());
    let refused = ledger.issue(actions(&elsewhere).to_unbuilt_tx().unwrap());
    assert!(matches!(
        refused,
        Err(LedgerClientError::ScriptExecution(_))
    ));
    assert!(TestLedgerClient::all_outputs_at_address(&ledger, &address)
        .unwrap()
        .is_empty());
    assert_eq!(
        ledger.balance_at_address(&me, &PolicyId::Lovelace),
        Ok(100_000_000)
    );

    // the policy wants the wallet output spent, which pays for the account
    let mine = TestLedgerClient::all_outputs_at_address(&ledger, &me)
        .unwrap()
        .remove(0);
    ledger
        .issue(actions(&mine).to_unbuilt_tx().unwrap())
        .unwrap();
    let account = TestLedgerClient::all_outputs_at_address(&ledger, &address)
        .unwrap()
        .remove(0);
    assert_eq!(account.values().len(), 2);
    assert_eq!(account.values().get(&PolicyId::Lovelace), Some(7));
    let (token, quantity) = account.values().entry(1);
    assert_eq!(token.asset_name(), Some("NFT".to_string()));
    assert_eq!(quantity, 1);
    assert_eq!(
        ledger.balance_at_address(&me, &PolicyId::Lovelace),
        Ok(100_000_000 - 7)
    );
    assert_eq!(ledger.balance_at_address(&me, token), Ok(0));
}

fn add_puller_endpoint(puller: &Address) -> CheckingAccountEndpoints {
    CheckingAccountEndpoints::AddPuller {
        checking_account_nft: hex::encode([7u8, 7, 7]),
        checking_account_address: checking_account_validator()
            .unwrap()
            .address(NETWORK)
            .unwrap(),
        puller: pub_key_hash_from_address_if_available(puller).unwrap(),
        amount_lovelace: 15_000_000,
        period: 1000,
        next_pull: 0,
    }
}

#[test]
fn add_puller_creates_new_datum_for_puller() {
    let me = wallet(1);
    let start_amount = 100_000_000;
    let backend = funded(&me, start_amount);

    let puller = wallet(2);
    let endpoint = add_puller_endpoint(&puller);
    let mut contract = SmartContract::new(CheckingAccountLogic, backend.ledger_client);
    contract.hit_endpoint(endpoint).unwrap();
    let script = pull_validator().unwrap();
    let address = script.address(NETWORK).unwrap();
    let mut outputs_at_address = outputs_at(&contract, &address);
    let script_output = outputs_at_address.pop().unwrap();
    assert_eq!(script_output.values().get(&PolicyId::Lovelace), None);
    let (token, quantity) = script_output.values().entry(0);
    assert_eq!(quantity, 1);
    assert_eq!(token.asset_name(), Some(SPEND_TOKEN_ASSET_NAME.to_string()));
    match script_output.datum().unwrap() {
        CheckingAccountDatums::AllowedPuller(allowed) => {
            assert_eq!(allowed.puller, PubKeyHash::new(&[2; 28]));
            assert_eq!(allowed.owner, PubKeyHash::new(&[1; 28]));
            assert_eq!(allowed.amount_lovelace, 15_000_000);
            assert_eq!(allowed.period, 1000);
            assert_eq!(allowed.next_pull, 0);
            assert_eq!(allowed.checking_account_nft, vec![7, 7, 7]);
        }
        other => panic!("unexpected datum: {other:?}"),
    }
}

#[test]
fn remove_puller__removes_the_allowed_puller() {
    let me = wallet(1);
    let start_amount = 100_000_000;
    let backend = funded(&me, start_amount);

    let puller = wallet(2);
    let add_endpoint = add_puller_endpoint(&puller);

    let mut contract = SmartContract::new(CheckingAccountLogic, backend.ledger_client);
    contract.hit_endpoint(add_endpoint).unwrap();
    let script = pull_validator().unwrap();
    let address = script.address(NETWORK).unwrap();
    let mut outputs_at_address = outputs_at(&contract, &address);
    let script_output = outputs_at_address.pop().unwrap();
    let output_id = script_output.id().to_owned();

    let remove_endpoint = CheckingAccountEndpoints::RemovePuller { output_id };

    contract.hit_endpoint(remove_endpoint).unwrap();

    let mut outputs_at_address = outputs_at(&contract, &address);
    assert!(outputs_at_address.pop().is_none());
}

#[test]
fn remove_puller_is_refused_to_a_stranger() {
    let me = wallet(1);
    let backend = funded(&me, 100_000_000);
    let mut contract = SmartContract::new(CheckingAccountLogic, backend.ledger_client);
    contract.hit_endpoint(add_puller_endpoint(&wallet(2))).unwrap();
    let address = pull_validator().unwrap().address(NETWORK).unwrap();
    let output_id = outputs_at(&contract, &address).pop().unwrap().id().to_owned();

    contract.ledger_client_mut().set_signer(wallet(9));
    let attempt = contract.hit_endpoint(CheckingAccountEndpoints::RemovePuller { output_id });
    assert!(matches!(
        attempt,
        Err(Error::LedgerClient(LedgerClientError::ScriptExecution(_)))
    ));
    assert_eq!(outputs_at(&contract, &address).len(), 1);
}

#[test]
fn fund_account__replaces_existing_balance_with_updated_amount() {
    let me = wallet(1);
    let start_amount = 100_000_000;
    let backend = funded(&me, start_amount);

    let account_amount = 10_000_000;
    let fund_amount = 5_000_000;
    let init_endpoint = CheckingAccountEndpoints::InitAccount {
        starting_lovelace: account_amount,
    };

    let mut contract = SmartContract::new(CheckingAccountLogic, backend.ledger_client);
    contract.hit_endpoint(init_endpoint).unwrap();

    let script = checking_account_validator().unwrap();
    let address = script.address(NETWORK).unwrap();
    let mut outputs_at_address = outputs_at(&contract, &address);
    let script_output = outputs_at_address.pop().unwrap();
    let output_id = script_output.id().to_owned();

    let fund_endpoint = CheckingAccountEndpoints::FundAccount {
        output_id,
        fund_amount,
    };

    contract.hit_endpoint(fund_endpoint).unwrap();
    let mut outputs_at_address = outputs_at(&contract, &address);
    let script_output = outputs_at_address.pop().unwrap();
    let value = script_output.values().get(&PolicyId::Lovelace).unwrap();
    assert_eq!(value, account_amount + fund_amount);
}

#[test]
fn withdraw_from_account__replaces_existing_balance_with_updated_amount() {
    let me = wallet(1);
    let start_amount = 100_000_000;
    let backend = funded(&me, start_amount);

    let account_amount = 10_000_000;
    let withdraw_amount = 5_000_000;
    let init_endpoint = CheckingAccountEndpoints::InitAccount {
        starting_lovelace: account_amount,
    };
    let mut contract = SmartContract::new(CheckingAccountLogic, backend.ledger_client);
    contract.hit_endpoint(init_endpoint).unwrap();

    let script = checking_account_validator().unwrap();
    let address = script.address(NETWORK).unwrap();
    let mut outputs_at_address = outputs_at(&contract, &address);
    let script_output = outputs_at_address.pop().unwrap();
    let output_id = script_output.id().to_owned();

    let fund_endpoint = CheckingAccountEndpoints::WithdrawFromAccount {
        output_id,
        withdraw_amount,
    };

    contract.hit_endpoint(fund_endpoint).unwrap();
    let mut outputs_at_address = outputs_at(&contract, &address);
    let script_output = outputs_at_address.pop().unwrap();
    let value = script_output.values().get(&PolicyId::Lovelace).unwrap();
    assert_eq!(value, account_amount - withdraw_amount);
}

#[test]
fn withdraw_from_account_is_refused_to_a_stranger() {
    let me = wallet(1);
    let backend = funded(&me, 100_000_000);
    let mut contract = SmartContract::new(CheckingAccountLogic, backend.ledger_client);
    contract
        .hit_endpoint(CheckingAccountEndpoints::InitAccount {
            starting_lovelace: 10_000_000,
        })
        .unwrap();
    let address = checking_account_validator().unwrap().address(NETWORK).unwrap();
    let output_id = outputs_at(&contract, &address).pop().unwrap().id().to_owned();

    contract.ledger_client_mut().set_signer(wallet(9));
    let attempt = contract.hit_endpoint(CheckingAccountEndpoints::WithdrawFromAccount {
        output_id,
        withdraw_amount: 5_000_000,
    });
    assert!(matches!(
        attempt,
        Err(Error::LedgerClient(LedgerClientError::ScriptExecution(_)))
    ));
    let value = outputs_at(&contract, &address)
        .pop()
        .unwrap()
        .values()
        .get(&PolicyId::Lovelace);
    assert_eq!(value, Some(10_000_000));
}

fn pull_setup(
    next_pull: i64,
) -> (
    SmartContract<CheckingAccountLogic, Ledger>,
    Address,
    Address,
    Address,
) {
    let owner = wallet(1);
    let puller = wallet(2);

    let allow_puller_address = pull_validator().unwrap().address(NETWORK).unwrap();
    let account_address = checking_account_validator().unwrap().address(NETWORK).unwrap();
    let spending_token_policy = vec![5, 5, 5, 5, 5];

    let account_amount = 100_000_000;
    let pull_amount = 15_000_000;
    let account_datum = CheckingAccountDatums::CheckingAccount(CheckingAccount {
        owner: pub_key_hash_from_address_if_available(&owner).unwrap(),
        spend_token_policy: spending_token_policy.clone(),
    });
    let allow_puller_datum = CheckingAccountDatums::AllowedPuller(AllowedPuller {
        owner: pub_key_hash_from_address_if_available(&owner).unwrap(),
        puller: pub_key_hash_from_address_if_available(&puller).unwrap(),
        amount_lovelace: pull_amount,
        next_pull,
        period: 1000,
        spending_token: spending_token_policy.clone(),
        checking_account_address: account_address.clone(),
        checking_account_nft: vec![7, 7, 7],
    });
    let backend = TestBackendsBuilder::new(&puller)
        .start_output(&account_address)
        .with_datum(account_datum)
        .with_value(PolicyId::Lovelace, account_amount)
        .finish_output()
        .start_output(&allow_puller_address)
        .with_datum(allow_puller_datum)
        .with_value(
            PolicyId::NativeToken(
                hex::encode(spending_token_policy),
                Some(SPEND_TOKEN_ASSET_NAME.to_string()),
            ),
            1,
        )
        .finish_output()
        .build_in_memory();
    (
        SmartContract::new(CheckingAccountLogic, backend.ledger_client),
        account_address,
        allow_puller_address,
        puller,
    )
}

#[test]
fn pull_from_account__replaces_existing_balances_with_updated_amounts() {
    let account_amount = 100_000_000;
    let pull_amount = 15_000_000;
    let (mut contract, account_address, allow_puller_address, puller) = pull_setup(0);

    let mut outputs_at_address = outputs_at(&contract, &account_address);
    let script_output = outputs_at_address.pop().unwrap();
    let checking_account_output_id = script_output.id().to_owned();

    let mut outputs_at_address = outputs_at(&contract, &allow_puller_address);
    let script_output = outputs_at_address.pop().unwrap();
    let allow_pull_output_id = script_output.id().to_owned();

    // When
    let pull_endpoint = CheckingAccountEndpoints::PullFromCheckingAccount {
        allow_pull_output_id,
        checking_account_output_id,
        amount: pull_amount,
    };
    contract.hit_endpoint(pull_endpoint).unwrap();

    // Then
    let mut outputs_at_account_address = outputs_at(&contract, &account_address);
    let script_output = outputs_at_account_address.pop().unwrap();
    let value = script_output.values().get(&PolicyId::Lovelace).unwrap();
    assert_eq!(value, account_amount - pull_amount);

    let mut outputs_at_puller_address = outputs_at(&contract, &puller);
    let script_output = outputs_at_puller_address.pop().unwrap();
    let value = script_output.values().get(&PolicyId::Lovelace).unwrap();
    assert_eq!(value, pull_amount);

    // the allowance is renewed: the next pull is one period later
    let renewed = outputs_at(&contract, &allow_puller_address).pop().unwrap();
    match renewed.datum().unwrap() {
        CheckingAccountDatums::AllowedPuller(allowed) => {
            assert_eq!(allowed.next_pull, 1000);
            assert_eq!(allowed.period, 1000);
        }
        other => panic!("unexpected datum: {other:?}"),
    }
}

#[test]
fn pull_from_account_fails_where_the_time_would_overflow() {
    let (mut contract, account_address, allow_puller_address, _puller) = pull_setup(i64::MAX);
    let checking_account_output_id = outputs_at(&contract, &account_address)
        .pop()
        .unwrap()
        .id()
        .to_owned();
    let allow_pull_output_id = outputs_at(&contract, &allow_puller_address)
        .pop()
        .unwrap()
        .id()
        .to_owned();
    let attempt = contract.hit_endpoint(CheckingAccountEndpoints::PullFromCheckingAccount {
        allow_pull_output_id,
        checking_account_output_id,
        amount: 1,
    });
    assert!(matches!(attempt, Err(Error::SCLogic(_))));
}

#[test]
fn a_submission_conserves_value_but_for_what_it_mints() {
    let me = wallet(1);
    let backend = funded(&me, 100_000_000);
    let mut contract = SmartContract::new(CheckingAccountLogic, backend.ledger_client);
    contract
        .hit_endpoint(CheckingAccountEndpoints::InitAccount {
            starting_lovelace: 10_000_000,
        })
        .unwrap();
    contract.hit_endpoint(add_puller_endpoint(&wallet(2))).unwrap();

    let accounts = checking_account_validator().unwrap().address(NETWORK).unwrap();
    let allowances = pull_validator().unwrap().address(NETWORK).unwrap();
    let mut lovelace = 0;
    let mut tokens = 0;
    for address in [&me, &accounts, &allowances] {
        for output in outputs_at(&contract, address) {
            for i in 0..output.values().len() {
                let (asset, quantity) = output.values().entry(i);
                match asset {
                    PolicyId::Lovelace => lovelace += quantity,
                    PolicyId::NativeToken(_, _) => tokens += quantity,
                }
            }
        }
    }
    assert_eq!(lovelace, 100_000_000);
    // the token that names the account, and the spend token of the allowance
    assert_eq!(tokens, 2);
    assert_eq!(contract.ledger_client().len(), 3);
}
