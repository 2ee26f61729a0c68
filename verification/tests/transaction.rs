use naumachia::address::{Address, PolicyId};
use naumachia::output::{Output, UnbuiltOutput};
use naumachia::sample_dapps::always_succeeds_contract::AlwaysSucceedsScript;
use naumachia::scripts::NoPolicy;
use naumachia::transaction::{Action, TransactionVersion, TxActions};
use naumachia::values::Values;

fn lovelace(amount: u64) -> Values {
    let mut values = Values::default();
    values.add_one_value(&PolicyId::Lovelace, amount);
    values
}

fn wallet(seed: u8) -> Address {
    Address::from_key_hash(0, vec![seed; 28])
}

fn output(index: u64) -> Output<u8> {
    Output::new_validator(vec![1], index, wallet(9), lovelace(index), 7)
}

#[test]
fn actions_are_sorted_by_their_kind_and_keep_their_order() {
    let actions: TxActions<u8, u16, AlwaysSucceedsScript, NoPolicy> = TxActions::v1()
        .with_script_init(1, lovelace(1), wallet(1))
        .with_valid_range(Some(5), None)
        .with_script_redeem(output(0), 10, AlwaysSucceedsScript)
        .with_mint(3, Some("coin".to_string()), 11, NoPolicy)
        .with_specific_input(output(1))
        .with_script_init(2, lovelace(2), wallet(2))
        .with_script_redeem(output(2), 12, AlwaysSucceedsScript)
        .with_valid_range(None, Some(9))
        .with_specific_input(output(3));
    assert_eq!(actions.actions.len(), 9);
    assert!(matches!(actions.actions[1], Action::ValidRange { .. }));
    let tx = actions.to_unbuilt_tx().unwrap();
    assert_eq!(tx.script_version, TransactionVersion::V1);
    assert_eq!(
        tx.unbuilt_outputs,
        vec![
            UnbuiltOutput::new_validator(wallet(1), lovelace(1), 1),
            UnbuiltOutput::new_validator(wallet(2), lovelace(2), 2),
        ]
    );
    assert_eq!(
        tx.script_inputs,
        vec![
            (output(0), 10, AlwaysSucceedsScript),
            (output(2), 12, AlwaysSucceedsScript)
        ]
    );
    assert_eq!(tx.minting, vec![(3, Some("coin".to_string()), 11, NoPolicy)]);
    assert_eq!(tx.specific_wallet_inputs, vec![output(1), output(3)]);
    // of several ranges the last one counts
    assert_eq!(tx.valid_range, (None, Some(9)));
}

#[test]
fn no_actions_are_no_transaction_parts() {
    let actions: TxActions<u8, u16, AlwaysSucceedsScript, NoPolicy> = TxActions::v2();
    let tx = actions.to_unbuilt_tx().unwrap();
    assert_eq!(tx.script_version, TransactionVersion::V2);
    assert!(tx.unbuilt_outputs.is_empty());
    assert!(tx.script_inputs.is_empty());
    assert!(tx.minting.is_empty());
    assert!(tx.specific_wallet_inputs.is_empty());
    assert_eq!(tx.valid_range, (None, None));
}

#[test]
fn outputs_show_their_parts() {
    let wallet_output = UnbuiltOutput::<u8>::new_wallet(wallet(1), lovelace(3));
    assert_eq!(wallet_output.owner(), &wallet(1));
    assert_eq!(wallet_output.values(), &lovelace(3));
    assert_eq!(wallet_output.datum(), None);
    let script_output = UnbuiltOutput::new_validator(wallet(2), lovelace(4), 9u8);
    assert_eq!(script_output.owner(), &wallet(2));
    assert_eq!(script_output.values(), &lovelace(4));
    assert_eq!(script_output.datum(), Some(&9));

    let held = Output::<u8>::new_wallet(vec![1, 2], 3, wallet(1), lovelace(3));
    assert_eq!(held.id().tx_hash(), &[1, 2]);
    assert_eq!(held.id().index(), 3);
    assert_eq!(held.owner(), &wallet(1));
    assert_eq!(held.values(), &lovelace(3));
    assert_eq!(held.datum(), None);
    let locked = output(5);
    assert_eq!(locked.datum(), Some(&7));
    assert_eq!(locked.id().index(), 5);
    assert_eq!(locked.clone(), locked);
}
