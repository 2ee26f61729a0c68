#![allow(non_snake_case)]
use naumachia::address::{Address, DelegationPart, PaymentPart};
use naumachia::sample_dapps::checking_account::scripts::pull_validator::{
    spend_token_policy, PullValidator,
};
use naumachia::sample_dapps::checking_account::{AllowedPuller, CheckingAccountDatums};
use naumachia::scripts::context::{
    pub_key_hash_from_address_if_available, ContextBuilder, PubKeyHash, TxContext,
};
use naumachia::scripts::{ScriptError, ToPlutusData, ValidatorCode};

const NETWORK: u8 = 0;

const SIGNER: &str = "addr_test1qrksjmprvgcedgdt6rhg40590vr6exdzdc2hm5wc6pyl9ymkyskmqs55usm57gflrumk9kd63f3ty6r0l2tdfwfm28qs0rurdr";

fn from_bech32(text: &str) -> Address {
    match pallas_addresses::Address::from_bech32(text).unwrap() {
        pallas_addresses::Address::Shelley(shelley) => Address {
            network: shelley.network().value(),
            payment: match shelley.payment() {
                pallas_addresses::ShelleyPaymentPart::Key(hash) => PaymentPart::Key(hash.to_vec()),
                pallas_addresses::ShelleyPaymentPart::Script(hash) => {
                    PaymentPart::Script(hash.to_vec())
                }
            },
            delegation: match shelley.delegation() {
                pallas_addresses::ShelleyDelegationPart::Key(hash) => {
                    DelegationPart::Key(hash.to_vec())
                }
                pallas_addresses::ShelleyDelegationPart::Script(hash) => {
                    DelegationPart::Script(hash.to_vec())
                }
                pallas_addresses::ShelleyDelegationPart::Pointer(pointer) => {
                    DelegationPart::Pointer {
                        slot: pointer.slot(),
                        tx_idx: pointer.tx_idx(),
                        cert_idx: pointer.cert_idx(),
                    }
                }
                pallas_addresses::ShelleyDelegationPart::Null => DelegationPart::Null,
            },
        },
        other => panic!("not a Shelley address: {other:?}"),
    }
}

fn allowance(next_pull: i64, period: i64, spending_token: Vec<u8>) -> CheckingAccountDatums {
    CheckingAccountDatums::AllowedPuller(AllowedPuller {
        owner: PubKeyHash::new(&[1, 1, 1, 1]),
        puller: PubKeyHash::new(&[2, 2, 2, 2]),
        amount_lovelace: 15_000_000,
        next_pull,
        period,
        spending_token,
        checking_account_address: Address::from_script_hash(NETWORK, vec![3, 3, 3, 3]),
        checking_account_nft: vec![4, 4, 4, 4],
    })
}

struct TestContext {
    pub signer_pkh: PubKeyHash,
    pub range_lower: Option<(i64, bool)>,
    pub range_upper: Option<(i64, bool)>,

    pub input_address: Address,

    pub input_tx_id: Vec<u8>,
    pub input_index: u64,
    pub input_token_policy_id: String,
    pub input_datum: Option<CheckingAccountDatums>,

    pub output_address: Address,
    pub output_token_policy_id: String,
    pub output_datum: Option<CheckingAccountDatums>,
}

impl TestContext {
    pub fn happy_path() -> Self {
        let signer = from_bech32(SIGNER);
        let signer_pkh = pub_key_hash_from_address_if_available(&signer).unwrap();
        let script = spend_token_policy().unwrap();
        let input_tx_id = [8, 8, 8, 8];
        let input_tx_index = 0;
        let script_address = script.address(NETWORK).unwrap();
        let spending_token = vec![5, 5, 5, 5];
        let input_datum = allowance(0, 10, spending_token.clone());
        let policy_id = hex::encode(&spending_token);
        let output_datum = allowance(10, 10, spending_token);
        TestContext {
            signer_pkh,
            range_lower: Some((11, true)),
            range_upper: None,
            input_address: script_address.clone(),
            input_tx_id: input_tx_id.to_vec(),
            input_index: input_tx_index,
            input_token_policy_id: policy_id.clone(),
            input_datum: Some(input_datum),
            output_address: script_address,
            output_token_policy_id: policy_id.clone(),
            output_datum: Some(output_datum),
        }
    }

    pub fn build(&self) -> TxContext {
        let mut input_builder = ContextBuilder::new(self.signer_pkh.clone())
            .with_range(self.range_lower.clone(), self.range_upper.clone())
            .with_input(&self.input_tx_id, self.input_index, &self.input_address)
            .with_value(&self.input_token_policy_id, "something", 1);
        if let Some(input_datum) = &self.input_datum {
            input_builder = input_builder.with_inline_datum(input_datum.to_plutus_data().unwrap())
        }
        let mut output_builder = input_builder
            .finish_input()
            .with_output(&self.output_address)
            .with_value(&self.output_token_policy_id, "something", 1);
        if let Some(output_datum) = &self.output_datum {
            output_builder = output_builder.with_inline_datum(output_datum.to_plutus_data().unwrap())
        }
        output_builder
            .finish_output()
            .build_spend(&self.input_tx_id, self.input_index)
    }
}

fn context(
    lower: (i64, bool),
    input_datum: &CheckingAccountDatums,
    output_datum: Option<&CheckingAccountDatums>,
    output_token: bool,
) -> (PullValidator, TxContext) {
    let signer = from_bech32(SIGNER);
    let signer_pkh = pub_key_hash_from_address_if_available(&signer).unwrap();
    let script = spend_token_policy().unwrap();
    let input_tx_id = [8, 8, 8, 8];
    let input_tx_index = 0;
    let script_address = script.address(NETWORK).unwrap();
    let policy_id = hex::encode(vec![5u8, 5, 5, 5]);
    let mut output_builder = ContextBuilder::new(signer_pkh)
        .with_range(Some(lower), None)
        .with_input(&input_tx_id, input_tx_index, &script_address)
        .with_value(&policy_id, "something", 1)
        .with_inline_datum(input_datum.to_plutus_data().unwrap())
        .finish_input()
        .with_output(&script_address);
    if output_token {
        output_builder = output_builder.with_value(&policy_id, "something", 1);
    }
    if let Some(output_datum) = output_datum {
        output_builder = output_builder.with_inline_datum(output_datum.to_plutus_data().unwrap());
    }
    let ctx = output_builder
        .finish_output()
        .build_spend(&input_tx_id, input_tx_index);
    (script, ctx)
}

#[test]
fn execute__after_next_pull_date_succeeds() {
    let spending_token = vec![5, 5, 5, 5];
    let input_datum = allowance(10, 0, spending_token.clone());
    let output_datum = allowance(10, 0, spending_token);
    let (script, ctx) = context((11, true), &input_datum, Some(&output_datum), true);

    let _eval = script.execute(&input_datum, &(), &ctx).unwrap();
}

#[test]
fn execute__before_next_pull_date_fails() {
    let spending_token = vec![5, 5, 5, 5];
    let input_datum = allowance(10, 0, spending_token.clone());
    let output_datum = allowance(10, 0, spending_token);
    let (script, ctx) = context((8, true), &input_datum, Some(&output_datum), true);

    let _eval = script.execute(&input_datum, &(), &ctx).unwrap_err();
}

#[test]
fn execute__same_date_not_inclusive_fails() {
    let spending_token = vec![5, 5, 5, 5];
    let input_datum = allowance(10, 0, spending_token.clone());
    let output_datum = allowance(10, 0, spending_token);
    let (script, ctx) = context((10, false), &input_datum, Some(&output_datum), true);

    let _eval = script.execute(&input_datum, &(), &ctx).unwrap_err();
}

#[test]
fn execute__same_date_inclusive_succeeds() {
    let spending_token = vec![5, 5, 5, 5];
    let input_datum = allowance(10, 0, spending_token.clone());
    let output_datum = allowance(10, 0, spending_token);
    let (script, ctx) = context((10, true), &input_datum, Some(&output_datum), true);

    let _eval = script.execute(&input_datum, &(), &ctx).unwrap();
}

#[test]
fn execute__happy_path() {
    let ctx_builder = TestContext::happy_path();
    let input_datum = ctx_builder.input_datum.clone().unwrap();
    let script = spend_token_policy().unwrap();
    let ctx = ctx_builder.build();
    let _eval = script.execute(&input_datum, &(), &ctx).unwrap();
}

#[test]
fn execute__no_new_pull_datum_fails() {
    let input_datum = allowance(0, 0, vec![5, 5, 5, 5]);
    let (script, ctx) = context((11, true), &input_datum, None, true);

    let _eval = script.execute(&input_datum, &(), &ctx).unwrap_err();
}

#[test]
fn execute__new_pull_datum_fails_if_next_pull_wrong() {
    let spending_token = vec![5, 5, 5, 5];
    let input_datum = allowance(0, 10, spending_token.clone());
    let output_datum = allowance(0, 10, spending_token);
    let (script, ctx) = context((11, true), &input_datum, Some(&output_datum), true);

    let _eval = script.execute(&input_datum, &(), &ctx).unwrap_err();
}

#[test]
fn execute__new_pull_datum_fails_if_period_changes() {
    let spending_token = vec![5, 5, 5, 5];
    let input_datum = allowance(0, 10, spending_token.clone());
    let output_datum = allowance(10, 0, spending_token);
    let (script, ctx) = context((11, true), &input_datum, Some(&output_datum), true);

    let _eval = script.execute(&input_datum, &(), &ctx).unwrap_err();
}

#[test]
fn execute__new_pull_datum_fails_if_spending_token_changes() {
    let spending_token = vec![5, 5, 5, 5];
    let bad_spending_token = vec![6, 6, 6, 6];
    let input_datum = allowance(0, 10, spending_token);
    let output_datum = allowance(10, 10, bad_spending_token);
    let (script, ctx) = context((11, true), &input_datum, Some(&output_datum), true);

    let _eval = script.execute(&input_datum, &(), &ctx).unwrap_err();
}

#[test]
fn execute__fails_if_output_does_not_include_spending_token() {
    let spending_token = vec![5, 5, 5, 5];
    let input_datum = allowance(0, 10, spending_token.clone());
    let output_datum = allowance(10, 10, spending_token);
    let (script, ctx) = context((11, true), &input_datum, Some(&output_datum), false);

    let _eval = script.execute(&input_datum, &(), &ctx).unwrap_err();
}

#[test]
fn execute_rejects_with_failed_to_execute() {
    let input_datum = allowance(10, 0, vec![5, 5, 5, 5]);
    let (script, ctx) = context((8, true), &input_datum, None, true);
    assert!(matches!(
        script.execute(&input_datum, &(), &ctx),
        Err(ScriptError::FailedToExecute(_))
    ));
}

#[test]
fn execute_lets_the_owner_take_the_allowance_back() {
    let input_datum = allowance(10, 0, vec![5, 5, 5, 5]);
    let script = spend_token_policy().unwrap();
    let script_address = script.address(NETWORK).unwrap();
    let ctx = ContextBuilder::new(PubKeyHash::new(&[1, 1, 1, 1]))
        .with_input(&[8, 8, 8, 8], 0, &script_address)
        .finish_input()
        .build_spend(&[8, 8, 8, 8], 0);
    script.execute(&input_datum, &(), &ctx).unwrap();
}
