use naumachia::address::{Address, PolicyId};
use naumachia::error::Error;
use naumachia::output::{Output, OutputId};
use naumachia::sample_dapps::checking_account::{
    add_puller_actions, fund_account_actions, init_account_actions, pick_any_above_min,
    pull_from_account_actions, remove_puller_actions, withdraw_from_account_actions,
    without_lovelace, AllowedPuller, CheckingAccount, CheckingAccountDatums,
    CheckingAccountError, MIN_LOVELACE,
};
use naumachia::ledger_client::{
    as_failed_to_issue_tx, as_failed_to_retrieve_by_address, LedgerClient, LedgerClientResult,
};
use naumachia::logic::SCLogicError;
use naumachia::sample_dapps::checking_account::pull_from_account;
use naumachia::sample_dapps::checking_account::scripts::{
    CheckingAccountPolicies, CheckingAccountValidators,
};
use naumachia::scripts::context::PubKeyHash;
use naumachia::scripts::native_script_address;
use naumachia::transaction::{TxId, UnbuiltTransaction};
use naumachia::values::Values;

fn key_wallet(seed: u8) -> Address {
    Address::from_key_hash(0, vec![seed; 28])
}

fn script_place(label: &[u8]) -> Address {
    Address::from_script_hash(0, label.to_vec())
}

fn base(amount: u64) -> Values {
    let mut values = Values::default();
    values.add_one_value(&PolicyId::Lovelace, amount);
    values
}

fn name(index: u64) -> OutputId {
    OutputId::new(vec![7; 8], index)
}

fn account_datum() -> CheckingAccountDatums {
    CheckingAccountDatums::CheckingAccount(CheckingAccount {
        owner: PubKeyHash::new(&[1; 28]),
        spend_token_policy: vec![5, 5],
    })
}

fn allowance_datum(next_pull: i64, period: i64) -> CheckingAccountDatums {
    CheckingAccountDatums::AllowedPuller(AllowedPuller {
        owner: PubKeyHash::new(&[1; 28]),
        puller: PubKeyHash::new(&[2; 28]),
        amount_lovelace: 15,
        next_pull,
        period,
        spending_token: vec![5, 5],
        checking_account_address: script_place(b"account"),
        checking_account_nft: vec![9],
    })
}

fn account(index: u64, amount: u64) -> Output<CheckingAccountDatums> {
    Output::new_validator(
        vec![7; 8],
        index,
        script_place(b"account"),
        base(amount),
        account_datum(),
    )
}

fn allowance(index: u64, next_pull: i64, period: i64) -> Output<CheckingAccountDatums> {
    Output::new_validator(
        vec![7; 8],
        index,
        script_place(b"pull"),
        Values::default(),
        allowance_datum(next_pull, period),
    )
}

fn bare(index: u64, amount: u64) -> Output<CheckingAccountDatums> {
    Output::new_wallet(vec![7; 8], index, script_place(b"account"), base(amount))
}

#[test]
fn no_wallet_output_above_the_minimum_is_input_not_found() {
    let outputs: Vec<Output<CheckingAccountDatums>> = vec![
        Output::new_wallet(vec![7; 8], 0, key_wallet(1), base(MIN_LOVELACE)),
        Output::new_wallet(vec![7; 8], 1, key_wallet(1), Values::default()),
    ];
    assert_eq!(
        pick_any_above_min(outputs),
        Err(CheckingAccountError::InputNotFound)
    );
    assert_eq!(
        pick_any_above_min(Vec::<Output<CheckingAccountDatums>>::new()),
        Err(CheckingAccountError::InputNotFound)
    );
}

#[test]
fn the_first_wallet_output_above_the_minimum_is_picked() {
    let outputs: Vec<Output<CheckingAccountDatums>> = vec![
        Output::new_wallet(vec![7; 8], 0, key_wallet(1), base(MIN_LOVELACE)),
        Output::new_wallet(vec![7; 8], 1, key_wallet(1), base(MIN_LOVELACE + 1)),
        Output::new_wallet(vec![7; 8], 2, key_wallet(1), base(MIN_LOVELACE + 2)),
        Output::new_wallet(vec![7; 8], 3, key_wallet(1), Values::default()),
    ];
    let picked = pick_any_above_min(outputs).unwrap();
    assert_eq!(picked.id(), &name(1));
    assert_eq!(picked.values().get(&PolicyId::Lovelace), Some(MIN_LOVELACE + 1));
}

#[test]
fn an_owner_without_a_key_is_an_invalid_address() {
    let owner = script_place(b"someone");
    let input = Output::new_wallet(vec![7; 8], 0, owner.clone(), base(10_000_000));
    match init_account_actions(&owner, input, 1_000_000) {
        Err(e) => assert_eq!(e, CheckingAccountError::InvalidAddress(owner)),
        Ok(_) => panic!("an account was opened for a script"),
    }
}

#[test]
fn an_allowance_of_a_signer_without_a_key_is_an_invalid_address() {
    let me = script_place(b"someone");
    let refused = add_puller_actions(
        &me,
        "09".to_string(),
        script_place(b"account"),
        PubKeyHash::new(&[2; 28]),
        15,
        1000,
        0,
    );
    match refused {
        Err(e) => assert_eq!(e, CheckingAccountError::InvalidAddress(me)),
        Ok(_) => panic!("an allowance was given by a script"),
    }
}

#[test]
fn a_token_id_that_is_no_hexadecimal_text_is_an_invalid_nft_id() {
    let refused = add_puller_actions(
        &key_wallet(1),
        "not hex".to_string(),
        script_place(b"account"),
        PubKeyHash::new(&[2; 28]),
        15,
        1000,
        0,
    );
    match refused {
        Err(e) => assert_eq!(e, CheckingAccountError::InvalidNftId("not hex".to_string())),
        Ok(_) => panic!("an allowance was given for no account"),
    }
    let accepted = add_puller_actions(
        &key_wallet(1),
        "09".to_string(),
        script_place(b"account"),
        PubKeyHash::new(&[2; 28]),
        15,
        1000,
        0,
    );
    assert!(accepted.is_ok());
}

#[test]
fn removing_an_allowance_that_is_not_there_is_output_not_found() {
    match remove_puller_actions(vec![allowance(0, 0, 1000)], name(3)) {
        Err(e) => assert_eq!(e, CheckingAccountError::OutputNotFound(name(3))),
        Ok(_) => panic!("an allowance that is not there was removed"),
    }
    assert!(remove_puller_actions(vec![allowance(0, 0, 1000)], name(0)).is_ok());
}

#[test]
fn funding_an_account_that_is_not_there_is_output_not_found() {
    match fund_account_actions(vec![account(0, 10)], name(1), 5) {
        Err(e) => assert_eq!(e, CheckingAccountError::OutputNotFound(name(1))),
        Ok(_) => panic!("an account that is not there was funded"),
    }
    match fund_account_actions(vec![bare(0, 10)], name(0), 5) {
        Err(e) => assert_eq!(e, CheckingAccountError::OutputNotFound(name(0))),
        Ok(_) => panic!("an output without a datum was funded"),
    }
    assert!(fund_account_actions(vec![account(0, 10)], name(0), 5).is_ok());
}

#[test]
fn funding_beyond_the_largest_quantity_is_the_arithmetic_error() {
    match fund_account_actions(vec![account(0, u64::MAX - 4)], name(0), 5) {
        Err(e) => assert_eq!(e, CheckingAccountError::Arithmetic),
        Ok(_) => panic!("a sum beyond the largest quantity was accepted"),
    }
    assert!(fund_account_actions(vec![account(0, u64::MAX - 5)], name(0), 5).is_ok());
}

#[test]
fn withdrawing_more_than_the_account_holds_is_the_arithmetic_error() {
    match withdraw_from_account_actions(vec![account(0, 10)], name(0), 11) {
        Err(e) => {
            assert_eq!(e, CheckingAccountError::Arithmetic);
            assert_eq!(e.message(), Error::arithmetic_message());
        }
        Ok(_) => panic!("more was withdrawn than the account holds"),
    }
    assert!(withdraw_from_account_actions(vec![account(0, 10)], name(0), 9).is_ok());
}

#[test]
fn withdrawing_all_that_the_account_holds_leaves_no_account() {
    match withdraw_from_account_actions(vec![account(0, 10)], name(0), 10) {
        Err(e) => assert_eq!(e, CheckingAccountError::OutputNotFound(name(0))),
        Ok(_) => panic!("an account was left with nothing"),
    }
    match withdraw_from_account_actions(vec![account(0, 10)], name(2), 1) {
        Err(e) => assert_eq!(e, CheckingAccountError::OutputNotFound(name(2))),
        Ok(_) => panic!("an account that is not there was drawn on"),
    }
}

#[test]
fn what_is_left_without_the_base_currency() {
    assert_eq!(without_lovelace(&base(10), 11), Err(Error::Arithmetic));
    assert_eq!(without_lovelace(&base(10), 10), Ok(None));
    assert_eq!(without_lovelace(&base(10), 4), Ok(Some(base(6))));
    let mut mixed = base(10);
    mixed.add_one_value(&PolicyId::NativeToken("aa".to_string(), None), 3);
    let mut left = Values::default();
    left.add_one_value(&PolicyId::NativeToken("aa".to_string(), None), 3);
    assert_eq!(without_lovelace(&mixed, 10), Ok(Some(left)));
}

#[test]
fn pulling_under_what_is_no_allowance_is_datum_not_found() {
    let refused = pull_from_account_actions(
        vec![account(0, 10)],
        vec![account(1, 100)],
        name(0),
        name(1),
        5,
    );
    match refused {
        Err(e) => assert_eq!(e, CheckingAccountError::DatumNotFoundForOutput(name(0))),
        Ok(_) => panic!("an account served as an allowance"),
    }
}

#[test]
fn pulling_names_the_output_that_is_not_there() {
    let no_allowance = pull_from_account_actions(
        vec![allowance(0, 0, 1000)],
        vec![account(1, 100)],
        name(4),
        name(1),
        5,
    );
    match no_allowance {
        Err(e) => assert_eq!(e, CheckingAccountError::OutputNotFound(name(4))),
        Ok(_) => panic!("an allowance that is not there was used"),
    }
    let no_account = pull_from_account_actions(
        vec![allowance(0, 0, 1000)],
        vec![account(1, 100)],
        name(0),
        name(5),
        5,
    );
    match no_account {
        Err(e) => assert_eq!(e, CheckingAccountError::OutputNotFound(name(5))),
        Ok(_) => panic!("an account that is not there was drawn on"),
    }
}

#[test]
fn pulling_past_the_last_time_is_amount_too_large() {
    let refused = pull_from_account_actions(
        vec![allowance(0, i64::MAX, 1)],
        vec![account(1, 100)],
        name(0),
        name(1),
        5,
    );
    match refused {
        Err(e) => assert_eq!(e, CheckingAccountError::AmountTooLarge),
        Ok(_) => panic!("a time beyond the last one was accepted"),
    }
}

#[test]
fn pulling_more_than_the_account_holds_is_the_arithmetic_error() {
    let refused = pull_from_account_actions(
        vec![allowance(0, 0, 1000)],
        vec![account(1, 100)],
        name(0),
        name(1),
        101,
    );
    match refused {
        Err(e) => assert_eq!(e, CheckingAccountError::Arithmetic),
        Ok(_) => panic!("more was pulled than the account holds"),
    }
    let accepted = pull_from_account_actions(
        vec![allowance(0, 0, 1000)],
        vec![account(1, 100)],
        name(0),
        name(1),
        99,
    );
    assert!(accepted.is_ok());
}

#[test]
fn the_texts_of_the_errors_of_the_checking_account() {
    assert_eq!(
        CheckingAccountError::InputNotFound.message(),
        "Could not find a valid input UTxO"
    );
    assert_eq!(
        CheckingAccountError::OutputNotFound(name(12)).message(),
        "Could not find an output with id: 0707070707070707#12"
    );
    assert_eq!(
        CheckingAccountError::DatumNotFoundForOutput(name(0)).message(),
        "Expected datum on output with id: 0707070707070707#0"
    );
    assert_eq!(
        CheckingAccountError::CannotWithdrawSpecifiedAmount.message(),
        "You are trying to withdraw more than is in account"
    );
    assert_eq!(
        CheckingAccountError::InvalidAddress(Address::from_key_hash(1, vec![0xab, 0x01])).message(),
        "Address isn't valid: network 1, key ab01, no stake"
    );
    assert_eq!(
        CheckingAccountError::InvalidAddress(script_place(b"a")).message(),
        "Address isn't valid: network 0, script 61, no stake"
    );
    assert_eq!(
        CheckingAccountError::InvalidNftId("zz".to_string()).message(),
        "Id of the account's token isn't valid: zz"
    );
    assert_eq!(CheckingAccountError::AmountTooLarge.message(), "Amount is too large");
    assert_eq!(
        CheckingAccountError::Arithmetic.message(),
        "A quantity would have left the range of its type"
    );
}

#[test]
fn the_text_of_a_missing_output_names_it() {
    let allowance_missing = CheckingAccountError::OutputNotFound(name(4)).message();
    let account_missing = CheckingAccountError::OutputNotFound(name(5)).message();
    assert_ne!(allowance_missing, account_missing);
    assert_eq!(name(18_446_744_073_709_551_615).text(), "0707070707070707#18446744073709551615");
    assert_eq!(OutputId::new(vec![], 100).text(), "#100");
}

/// A ledger client that knows the allowances and cannot reach the accounts.
struct OnlyAllowances(Vec<Output<CheckingAccountDatums>>);

impl LedgerClient<CheckingAccountDatums, (), CheckingAccountValidators, CheckingAccountPolicies>
    for OnlyAllowances
{
    fn signer_base_address(&self) -> LedgerClientResult<Address> {
        Ok(key_wallet(1))
    }

    fn outputs_at_address(
        &self,
        address: &Address,
        _count: usize,
    ) -> LedgerClientResult<Vec<Output<CheckingAccountDatums>>> {
        self.all_outputs_at_address(address)
    }

    fn all_outputs_at_address(
        &self,
        address: &Address,
    ) -> LedgerClientResult<Vec<Output<CheckingAccountDatums>>> {
        if address == &native_script_address(0, "pull_validator.spend") {
            Ok(self.0.clone())
        } else {
            Err(as_failed_to_retrieve_by_address(address, "offline".to_string()))
        }
    }

    fn issue(
        &mut self,
        _tx: UnbuiltTransaction<
            CheckingAccountDatums,
            (),
            CheckingAccountValidators,
            CheckingAccountPolicies,
        >,
    ) -> LedgerClientResult<TxId> {
        Err(as_failed_to_issue_tx("offline".to_string()))
    }
}

#[test]
fn a_missing_allowance_is_reported_before_the_accounts_are_asked_for() {
    let client = OnlyAllowances(vec![]);
    match pull_from_account(&client, name(4), name(5), 1) {
        Err(e) => assert_eq!(
            e,
            SCLogicError::Endpoint(
                "Could not find an output with id: 0707070707070707#4".to_string()
            )
        ),
        Ok(_) => panic!("an allowance that is not there was used"),
    }
    // where the allowance is there the accounts are asked for, and the failure shows
    let allowing = native_script_address(0, "pull_validator.spend");
    let client = OnlyAllowances(vec![Output::new_validator(
        vec![7; 8],
        4,
        allowing,
        Values::default(),
        allowance_datum(0, 1000),
    )]);
    match pull_from_account(&client, name(4), name(5), 1) {
        Err(e) => assert!(matches!(e, SCLogicError::Lookup(_))),
        Ok(_) => panic!("an account that cannot be reached was drawn on"),
    }
}
