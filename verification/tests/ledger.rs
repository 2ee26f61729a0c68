use naumachia::address::{Address, PolicyId};
use naumachia::backend::Backend;
use naumachia::ledger_client::test_ledger_client::{TestBackendsBuilder, TestLedgerClient};
use naumachia::ledger_client::{
    as_failed_to_issue_tx, as_failed_to_retrieve_by_address, LedgerClient, LedgerClientError,
};
use naumachia::output::{Output, OutputId};
use naumachia::sample_dapps::always_succeeds_contract::AlwaysSucceedsScript;
use naumachia::sample_dapps::escrow::{EscrowDatum, EscrowValidatorScript};
use naumachia::scripts::{NoPolicy, ScriptError};
use naumachia::transaction::{TxActions, TxId};
use naumachia::values::Values;

type Ledger<D> = TestLedgerClient<D, ()>;

fn wallet(seed: u8) -> Address {
    Address::from_key_hash(0, vec![seed; 28])
}

fn script() -> Address {
    Address::from_script_hash(0, b"always_true.spend".to_vec())
}

fn lovelace(amount: u64) -> Values {
    let mut values = Values::default();
    values.add_one_value(&PolicyId::Lovelace, amount);
    values
}

fn token(name: &str) -> PolicyId {
    PolicyId::NativeToken("0a0b".to_string(), Some(name.to_string()))
}

fn ledger(me: &Address, amounts: &[u64]) -> Ledger<()> {
    let mut builder = TestBackendsBuilder::<(), ()>::new(me);
    for amount in amounts {
        builder = builder
            .start_output(me)
            .with_value(PolicyId::Lovelace, *amount)
            .finish_output();
    }
    builder.build_in_memory().ledger_client
}

fn all<D: Clone>(ledger: &Ledger<D>, address: &Address) -> Vec<Output<D>> {
    TestLedgerClient::all_outputs_at_address(ledger, address).unwrap()
}

fn actions() -> TxActions<(), (), AlwaysSucceedsScript, NoPolicy> {
    TxActions::v2()
}

fn hash(number: u64) -> Vec<u8> {
    number.to_le_bytes().to_vec()
}

#[test]
fn the_outputs_at_the_start_belong_to_the_transaction_with_the_number_zero() {
    let me = wallet(1);
    let ledger = ledger(&me, &[10, 20, 30]);
    let outputs = all(&ledger, &me);
    assert_eq!(outputs.len(), 3);
    for (i, output) in outputs.iter().enumerate() {
        assert_eq!(output.id(), &OutputId::new(hash(0), i as u64));
        assert_eq!(output.owner(), &me);
        assert_eq!(output.datum(), None);
    }
    assert_eq!(outputs[2].values().get(&PolicyId::Lovelace), Some(30));
    assert_eq!(ledger.len(), 3);
    assert_eq!(ledger.signer(), &me);
    assert_eq!(ledger.position(&OutputId::new(hash(0), 1)), 1);
    assert_eq!(ledger.position(&OutputId::new(hash(0), 3)), 3);
    assert_eq!(ledger.output(1).id(), &OutputId::new(hash(0), 1));
    assert_eq!(
        LedgerClient::<(), (), AlwaysSucceedsScript, NoPolicy>::signer_base_address(&ledger),
        Ok(me.clone())
    );
}

#[test]
fn outputs_at_address_returns_the_first_ones() {
    let me = wallet(1);
    let ledger = ledger(&me, &[10, 20, 30]);
    let two = TestLedgerClient::outputs_at_address(&ledger, &me, 2).unwrap();
    assert_eq!(two.len(), 2);
    assert_eq!(two[0].values().get(&PolicyId::Lovelace), Some(10));
    assert_eq!(two[1].values().get(&PolicyId::Lovelace), Some(20));
    assert_eq!(
        TestLedgerClient::outputs_at_address(&ledger, &me, 7).unwrap().len(),
        3
    );
    assert!(all(&ledger, &wallet(2)).is_empty());
    assert_eq!(ledger.balance_at_address(&me, &PolicyId::Lovelace), Ok(60));
    assert_eq!(ledger.balance_at_address(&wallet(2), &PolicyId::Lovelace), Ok(0));
    assert_eq!(ledger.balance_at_address(&me, &token("x")), Ok(0));
}

#[test]
fn balance_beyond_the_largest_quantity_is_an_error() {
    let me = wallet(1);
    let ledger = ledger(&me, &[u64::MAX, 1]);
    assert_eq!(
        ledger.balance_at_address(&me, &PolicyId::Lovelace),
        Err(LedgerClientError::Arithmetic)
    );
}

#[test]
fn a_committed_transaction_names_its_outputs_by_its_number() {
    let me = wallet(1);
    let mut ledger = ledger(&me, &[100]);
    let tx = actions()
        .with_script_init((), lovelace(25), script())
        .with_script_init((), lovelace(5), script())
        .to_unbuilt_tx()
        .unwrap();
    let id = ledger.issue(tx).unwrap();
    assert_eq!(id, TxId::new("0100000000000000"));
    assert_eq!(id.as_str(), hex::encode(hash(1)));

    let locked = all(&ledger, &script());
    assert_eq!(locked.len(), 2);
    assert_eq!(locked[0].id(), &OutputId::new(hash(1), 0));
    assert_eq!(locked[0].values().get(&PolicyId::Lovelace), Some(25));
    assert_eq!(locked[0].datum(), Some(&()));
    assert_eq!(locked[1].id(), &OutputId::new(hash(1), 1));
    // the change comes last
    let mine = all(&ledger, &me);
    assert_eq!(mine.len(), 1);
    assert_eq!(mine[0].id(), &OutputId::new(hash(1), 2));
    assert_eq!(mine[0].values().get(&PolicyId::Lovelace), Some(70));
    assert_eq!(mine[0].datum(), None);

    let tx = actions()
        .with_script_init((), lovelace(1), script())
        .to_unbuilt_tx()
        .unwrap();
    assert_eq!(ledger.issue(tx).unwrap(), TxId::new("0200000000000000"));
}

#[test]
fn spent_names_are_never_given_again() {
    let me = wallet(1);
    let mut ledger = ledger(&me, &[100]);
    let mut seen: Vec<OutputId> = all(&ledger, &me).iter().map(|o| o.id().clone()).collect();
    for round in 0..5u64 {
        let tx = actions()
            .with_script_init((), lovelace(1 + round), script())
            .to_unbuilt_tx()
            .unwrap();
        ledger.issue(tx).unwrap();
        let mut now: Vec<OutputId> = all(&ledger, &me).iter().map(|o| o.id().clone()).collect();
        now.extend(all(&ledger, &script()).iter().map(|o| o.id().clone()));
        // no two outputs share a name
        for (i, a) in now.iter().enumerate() {
            for b in &now[i + 1..] {
                assert_ne!(a, b);
            }
        }
        // the wallet output of the round before is spent, and its name is gone for good
        let spent: Vec<&OutputId> = seen.iter().filter(|id| !now.contains(id)).collect();
        assert!(!spent.is_empty());
        for id in &now {
            if !seen.contains(id) {
                assert_eq!(id.tx_hash(), &hash(round + 1)[..]);
            }
        }
        for id in now {
            if !seen.contains(&id) {
                seen.push(id);
            }
        }
    }
    // redeem one script output: its name does not come back either
    let first = all(&ledger, &script()).remove(0);
    let gone = first.id().clone();
    let tx = actions()
        .with_script_redeem(first, (), AlwaysSucceedsScript)
        .to_unbuilt_tx()
        .unwrap();
    ledger.issue(tx).unwrap();
    assert_eq!(ledger.position(&gone), ledger.len());
    let tx = actions()
        .with_script_init((), lovelace(1), script())
        .to_unbuilt_tx()
        .unwrap();
    ledger.issue(tx).unwrap();
    assert_eq!(ledger.position(&gone), ledger.len());
}

fn escrow_ledger(me: &Address) -> Backend<EscrowDatum, (), Ledger<EscrowDatum>> {
    TestBackendsBuilder::<EscrowDatum, ()>::new(me)
        .start_output(me)
        .with_value(PolicyId::Lovelace, 100)
        .finish_output()
        .start_output(&Address::from_script_hash(0, b"escrow validator".to_vec()))
        .with_value(PolicyId::Lovelace, 25)
        .with_datum(EscrowDatum {
            receiver: wallet(2),
        })
        .finish_output()
        .build_in_memory()
}

#[test]
fn a_refused_submission_changes_nothing() {
    let me = wallet(1);
    let escrow = Address::from_script_hash(0, b"escrow validator".to_vec());
    let mut backend = escrow_ledger(&me);
    let before_mine = all(&backend.ledger_client, &me);
    let before_escrow = all(&backend.ledger_client, &escrow);
    let locked = before_escrow[0].clone();

    // the signer is not the receiver: the script refuses, though the
    // transaction also creates an output that the wallet could pay for
    let tx: TxActions<EscrowDatum, (), EscrowValidatorScript, NoPolicy> = TxActions::v2()
        .with_script_init(
            EscrowDatum {
                receiver: wallet(3),
            },
            lovelace(10),
            escrow.clone(),
        )
        .with_script_redeem(locked, (), EscrowValidatorScript);
    let refused = backend.process(tx);
    assert_eq!(
        refused,
        Err(naumachia::error::Error::LedgerClient(
            LedgerClientError::ScriptExecution(ScriptError::FailedToExecute(
                "Signer doesn't match receiver".to_string()
            ))
        ))
    );
    assert_eq!(all(&backend.ledger_client, &me), before_mine);
    assert_eq!(all(&backend.ledger_client, &escrow), before_escrow);
    assert_eq!(all(&backend.ledger_client, &wallet(2)), vec![]);
    assert_eq!(
        backend.signer::<EscrowValidatorScript, NoPolicy>(),
        Ok(me.clone())
    );
    assert_eq!(backend.ledger_client().len(), 2);

    // the next transaction still has the number 1
    let tx: TxActions<EscrowDatum, (), EscrowValidatorScript, NoPolicy> = TxActions::v2();
    assert_eq!(backend.process(tx), Ok(TxId::new("0100000000000000")));
}

#[test]
fn outputs_that_the_inputs_do_not_cover_fail_balancing() {
    let me = wallet(1);
    let mut ledger = ledger(&me, &[10, 20]);
    let before = all(&ledger, &me);
    let tx = actions()
        .with_script_init((), lovelace(31), script())
        .to_unbuilt_tx()
        .unwrap();
    assert_eq!(ledger.issue(tx), Err(LedgerClientError::Balancing));
    let mut wanted = lovelace(1);
    wanted.add_one_value(&token("x"), 1);
    let tx = actions()
        .with_script_init((), wanted, script())
        .to_unbuilt_tx()
        .unwrap();
    assert_eq!(ledger.issue(tx), Err(LedgerClientError::Balancing));
    assert_eq!(all(&ledger, &me), before);
}

#[test]
fn wallet_outputs_are_added_in_their_order_while_something_is_missing() {
    let me = wallet(1);
    let mut ledger = ledger(&me, &[10, 20, 30]);
    let tx = actions()
        .with_script_init((), lovelace(25), script())
        .to_unbuilt_tx()
        .unwrap();
    ledger.issue(tx).unwrap();
    let mine = all(&ledger, &me);
    // the first two outputs were spent; the third was not needed
    assert_eq!(mine.len(), 2);
    assert_eq!(mine[0].id(), &OutputId::new(hash(0), 2));
    assert_eq!(mine[0].values().get(&PolicyId::Lovelace), Some(30));
    assert_eq!(mine[1].id(), &OutputId::new(hash(1), 1));
    assert_eq!(mine[1].values().get(&PolicyId::Lovelace), Some(5));
}

#[test]
fn wallet_outputs_that_hold_nothing_that_is_missing_are_passed_over() {
    let me = wallet(1);
    let mut ledger = TestBackendsBuilder::<(), ()>::new(&me)
        .start_output(&me)
        .with_value(PolicyId::Lovelace, 10)
        .finish_output()
        .start_output(&me)
        .with_value(token("x"), 5)
        .with_value(PolicyId::Lovelace, 2)
        .finish_output()
        .start_output(&me)
        .with_value(PolicyId::Lovelace, 30)
        .finish_output()
        .build_in_memory()
        .ledger_client;
    let mut wanted = Values::default();
    wanted.add_one_value(&token("x"), 3);
    let tx = actions()
        .with_script_init((), wanted, script())
        .to_unbuilt_tx()
        .unwrap();
    ledger.issue(tx).unwrap();
    let mine = all(&ledger, &me);
    assert_eq!(mine.len(), 3);
    assert_eq!(mine[0].id(), &OutputId::new(hash(0), 0));
    assert_eq!(mine[1].id(), &OutputId::new(hash(0), 2));
    // the change: what the output with the token held beyond what was needed
    assert_eq!(mine[2].id(), &OutputId::new(hash(1), 1));
    assert_eq!(mine[2].values().get(&token("x")), Some(2));
    assert_eq!(mine[2].values().get(&PolicyId::Lovelace), Some(2));
    assert_eq!(ledger.balance_at_address(&script(), &token("x")), Ok(3));
}

#[test]
fn a_transaction_that_is_balanced_leaves_the_wallet_alone() {
    let me = wallet(1);
    let mut ledger = ledger(&me, &[10]);
    ledger.issue(actions().to_unbuilt_tx().unwrap()).unwrap();
    let mine = all(&ledger, &me);
    assert_eq!(mine.len(), 1);
    assert_eq!(mine[0].id(), &OutputId::new(hash(0), 0));
}

#[test]
fn a_pinned_input_is_spent_whole() {
    let me = wallet(1);
    let mut ledger = ledger(&me, &[10, 20, 30]);
    let pinned = all(&ledger, &me).remove(2);
    let tx = actions()
        .with_specific_input(pinned)
        .with_script_init((), lovelace(25), script())
        .to_unbuilt_tx()
        .unwrap();
    ledger.issue(tx).unwrap();
    let mine = all(&ledger, &me);
    assert_eq!(mine.len(), 3);
    assert_eq!(mine[0].id(), &OutputId::new(hash(0), 0));
    assert_eq!(mine[1].id(), &OutputId::new(hash(0), 1));
    assert_eq!(mine[2].values().get(&PolicyId::Lovelace), Some(5));
}

#[test]
fn an_input_that_is_not_there_is_not_found() {
    let me = wallet(1);
    let mut ledger = ledger(&me, &[10]);
    let stale = Output::<()>::new_wallet(vec![9, 9], 0, me.clone(), lovelace(10));
    let tx = actions().with_specific_input(stale).to_unbuilt_tx().unwrap();
    assert_eq!(
        ledger.issue(tx),
        Err(LedgerClientError::OutputNotFound(OutputId::new(vec![9, 9], 0)))
    );
}

#[test]
fn an_input_cannot_be_spent_twice() {
    let me = wallet(1);
    let mut ledger = ledger(&me, &[10]);
    let output = all(&ledger, &me).remove(0);
    let tx = actions()
        .with_specific_input(output.clone())
        .with_specific_input(output.clone())
        .to_unbuilt_tx()
        .unwrap();
    assert_eq!(
        ledger.issue(tx),
        Err(LedgerClientError::OutputNotFound(output.id().clone()))
    );
    // once it is spent it cannot be spent again
    let tx = actions()
        .with_specific_input(output.clone())
        .to_unbuilt_tx()
        .unwrap();
    ledger.issue(tx).unwrap();
    let tx = actions()
        .with_specific_input(output.clone())
        .to_unbuilt_tx()
        .unwrap();
    assert_eq!(
        ledger.issue(tx),
        Err(LedgerClientError::OutputNotFound(output.id().clone()))
    );
}

#[test]
fn the_output_of_another_wallet_cannot_be_pinned() {
    let me = wallet(1);
    let mut ledger = ledger(&me, &[10]);
    let output = all(&ledger, &me).remove(0);
    ledger.set_signer(wallet(2));
    let tx = actions()
        .with_specific_input(output.clone())
        .to_unbuilt_tx()
        .unwrap();
    assert_eq!(
        ledger.issue(tx),
        Err(LedgerClientError::OutputNotFound(output.id().clone()))
    );
    assert_eq!(all(&ledger, &me).len(), 1);
}

#[test]
fn a_signer_without_a_key_cannot_submit() {
    let me = wallet(1);
    let mut ledger = ledger(&me, &[10]);
    ledger.set_signer(script());
    assert_eq!(
        ledger.issue(actions().to_unbuilt_tx().unwrap()),
        Err(LedgerClientError::FailedToIssueTx(
            "the signer's address has no key".to_string()
        ))
    );
}

#[test]
fn a_policy_that_permits_nothing_stops_the_minting() {
    let me = wallet(1);
    let mut ledger = ledger(&me, &[10]);
    let tx = actions()
        .with_mint(1, Some("x".to_string()), (), NoPolicy)
        .to_unbuilt_tx()
        .unwrap();
    assert!(matches!(
        ledger.issue(tx),
        Err(LedgerClientError::ScriptExecution(_))
    ));
    assert_eq!(all(&ledger, &me).len(), 1);
    assert_eq!(ledger.balance_at_address(&me, &PolicyId::Lovelace), Ok(10));
}

#[test]
fn errors_have_texts() {
    assert_eq!(
        as_failed_to_issue_tx("no".to_string()),
        LedgerClientError::FailedToIssueTx("no".to_string())
    );
    assert_eq!(
        as_failed_to_retrieve_by_address(&wallet(1), "no".to_string()),
        LedgerClientError::FailedToRetrieveOutputsAt(wallet(1), "no".to_string())
    );
    assert_eq!(
        as_failed_to_issue_tx("no".to_string()).message(),
        "Failed to issue transaction: no"
    );
    assert_eq!(
        LedgerClientError::ScriptExecution(ScriptError::FailedToExecute("bad".to_string()))
            .message(),
        "A script refused the transaction: Failed to execute: bad"
    );
    assert_eq!(ScriptError::Unsupported.message(), "Not supported");
    assert_eq!(
        ScriptError::InvalidPolicyId("zz".to_string()).message(),
        "Invalid Policy Id: zz"
    );
}
