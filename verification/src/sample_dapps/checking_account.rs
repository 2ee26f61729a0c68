//! A checking account: its owner funds it and withdraws from it, and allows
//! pullers to pull an amount from it once in every period.
pub mod scripts;

use crate::address::{Address, AddressView, AssetId, PaymentCredential, PolicyId};
use crate::backend::selection::{find_output, lemma_position_of, position_of};
use crate::bytes::{bytes_eq, clone_bytes, opt_text};
use crate::hex::{hex_decoding, hex_encoding};
use crate::ledger_client::{
    promises_of, LedgerClient, LedgerClientError, LedgerClientResult, Promises,
};
use crate::logic::{take_output, SCLogic, SCLogicError, SCLogicResult};
use crate::output::{Output, OutputId, OutputIdView};
use crate::sample_dapps::checking_account::scripts::checking_account_validator::account_label;
use crate::sample_dapps::checking_account::scripts::one_shot::{
    one_shot_code, OneShotPolicy, OutputReference,
};
use crate::sample_dapps::checking_account::scripts::pull_validator::{after_pull, pull_label};
use crate::sample_dapps::checking_account::scripts::spend_token_policy::{
    spend_token_code, SpendTokenPolicy,
};
use crate::sample_dapps::checking_account::scripts::{
    CheckingAccountPolicies, CheckingAccountValidators,
};
use crate::scripts::context::{pub_key_hash_from_address_if_available, OutputRef, PubKeyHash};
use crate::scripts::raw_validator_script::plutus_data::{
    number_of, push_field, term_of_address, term_of_u64, terms_of, wrap_multiple_with_constr,
    wrap_pair_with_constr, Outcome, PlutusData, Term,
};
use crate::scripts::{
    native_address, native_script_address, MintingPolicy, ScriptError, ScriptResult, ToPlutusData,
};
use crate::transaction::{Action, TransactionVersion, TxActions};
use crate::values::{amount, difference, entries_with, residue, Values};
use vstd::prelude::*;

verus! {

/// The network on which the contract lives.
pub const NETWORK: u8 = 0;

/// The least amount of the base currency that an output of the wallet must
/// exceed to pay for the opening of an account.
pub const MIN_LOVELACE: u64 = 5_000_000;

/// The logic of a contract that locks an amount until a time. It is named
/// here and has no endpoints.
#[derive(Debug, Clone, Copy, PartialEq, Eq, Structural)]
pub struct TimeLockedLogic;

/// What the contract can be asked to do.
#[derive(Debug)]
pub enum CheckingAccountEndpoints {
    /// Open a checking account with `starting_lovelace` of the base currency.
    InitAccount { starting_lovelace: u64 },
    /// Allow `puller` to pull `amount_lovelace` from the account in every
    /// `period`, from the time `next_pull` on. Times are in milliseconds.
    AddPuller {
        checking_account_nft: String,
        checking_account_address: Address,
        puller: PubKeyHash,
        amount_lovelace: u64,
        period: i64,
        next_pull: i64,
    },
    /// Take the allowance named `output_id` back.
    RemovePuller { output_id: OutputId },
    /// Add `fund_amount` to the account named `output_id`.
    FundAccount { output_id: OutputId, fund_amount: u64 },
    /// Take `withdraw_amount` out of the account named `output_id`.
    WithdrawFromAccount { output_id: OutputId, withdraw_amount: u64 },
    /// Pull `amount` from the account under the allowance.
    PullFromCheckingAccount {
        allow_pull_output_id: OutputId,
        checking_account_output_id: OutputId,
        amount: u64,
    },
}

/// The logic of the contract.
#[derive(Debug, Clone, Copy, PartialEq, Eq, Structural)]
pub struct CheckingAccountLogic;

/// What the outputs of the contract carry.
#[derive(Debug, PartialEq, Eq)]
pub enum CheckingAccountDatums {
    CheckingAccount(CheckingAccount),
    AllowedPuller(AllowedPuller),
}

/// What an account carries: its owner, and the policy of its spend tokens.
#[derive(Debug, PartialEq, Eq)]
pub struct CheckingAccount {
    pub owner: PubKeyHash,
    pub spend_token_policy: Vec<u8>,
}

/// What an allowance carries.
#[derive(Debug, PartialEq, Eq)]
pub struct AllowedPuller {
    pub owner: PubKeyHash,
    pub puller: PubKeyHash,
    pub amount_lovelace: u64,
    pub next_pull: i64,
    pub period: i64,
    pub spending_token: Vec<u8>,
    pub checking_account_address: Address,
    pub checking_account_nft: Vec<u8>,
}

/// The mathematical value of a [`CheckingAccount`].
pub struct CheckingAccountView {
    pub owner: Seq<u8>,
    pub spend_token_policy: Seq<u8>,
}

/// The mathematical value of an [`AllowedPuller`].
pub struct AllowedPullerView {
    pub owner: Seq<u8>,
    pub puller: Seq<u8>,
    pub amount_lovelace: u64,
    pub next_pull: i64,
    pub period: i64,
    pub spending_token: Seq<u8>,
    pub checking_account_address: AddressView,
    pub checking_account_nft: Seq<u8>,
}

/// The mathematical value of a [`CheckingAccountDatums`].
pub enum DatumsView {
    CheckingAccount(CheckingAccountView),
    AllowedPuller(AllowedPullerView),
}

impl View for CheckingAccount {
    type V = CheckingAccountView;

    open spec fn view(&self) -> CheckingAccountView {
        CheckingAccountView {
            owner: self.owner@,
            spend_token_policy: self.spend_token_policy@,
        }
    }
}

impl View for AllowedPuller {
    type V = AllowedPullerView;

    open spec fn view(&self) -> AllowedPullerView {
        AllowedPullerView {
            owner: self.owner@,
            puller: self.puller@,
            amount_lovelace: self.amount_lovelace,
            next_pull: self.next_pull,
            period: self.period,
            spending_token: self.spending_token@,
            checking_account_address: self.checking_account_address@,
            checking_account_nft: self.checking_account_nft@,
        }
    }
}

impl View for CheckingAccountDatums {
    type V = DatumsView;

    open spec fn view(&self) -> DatumsView {
        match self {
            CheckingAccountDatums::CheckingAccount(account) => DatumsView::CheckingAccount(
                account@,
            ),
            CheckingAccountDatums::AllowedPuller(puller) => DatumsView::AllowedPuller(puller@),
        }
    }
}

impl Clone for CheckingAccount {
    fn clone(&self) -> (r: Self)
        ensures
            r@ == self@,
    {
        CheckingAccount {
            owner: self.owner.clone(),
            spend_token_policy: clone_bytes(&self.spend_token_policy),
        }
    }
}

impl Clone for AllowedPuller {
    fn clone(&self) -> (r: Self)
        ensures
            r@ == self@,
    {
        self.renewed(self.next_pull)
    }
}

impl AllowedPuller {
    /// The allowance with `next_pull` as the time of the next pull.
    pub fn renewed(&self, next_pull: i64) -> (r: Self)
        ensures
            r@ == (AllowedPullerView { next_pull, ..self@ }),
    {
        AllowedPuller {
            owner: self.owner.clone(),
            puller: self.puller.clone(),
            amount_lovelace: self.amount_lovelace,
            next_pull,
            period: self.period,
            spending_token: clone_bytes(&self.spending_token),
            checking_account_address: self.checking_account_address.clone(),
            checking_account_nft: clone_bytes(&self.checking_account_nft),
        }
    }
}

impl Clone for CheckingAccountDatums {
    fn clone(&self) -> (r: Self)
        ensures
            r@ == self@,
    {
        match self {
            CheckingAccountDatums::CheckingAccount(account) => {
                CheckingAccountDatums::CheckingAccount(account.clone())
            },
            CheckingAccountDatums::AllowedPuller(puller) => CheckingAccountDatums::AllowedPuller(
                puller.clone(),
            ),
        }
    }
}

impl From<CheckingAccount> for CheckingAccountDatums {
    fn from(value: CheckingAccount) -> (r: Self) {
        CheckingAccountDatums::CheckingAccount(value)
    }
}

impl vstd::std_specs::convert::FromSpecImpl<CheckingAccount> for CheckingAccountDatums {
    open spec fn obeys_from_spec() -> bool {
        true
    }

    open spec fn from_spec(value: CheckingAccount) -> Self {
        CheckingAccountDatums::CheckingAccount(value)
    }
}

impl From<AllowedPuller> for CheckingAccountDatums {
    fn from(value: AllowedPuller) -> (r: Self) {
        CheckingAccountDatums::AllowedPuller(value)
    }
}

impl vstd::std_specs::convert::FromSpecImpl<AllowedPuller> for CheckingAccountDatums {
    open spec fn obeys_from_spec() -> bool {
        true
    }

    open spec fn from_spec(value: AllowedPuller) -> Self {
        CheckingAccountDatums::AllowedPuller(value)
    }
}

/// The term of an account: constructor 0 around the owner and the policy of
/// the spend tokens.
pub open spec fn account_term(account: CheckingAccountView) -> Term {
    Term::Constr(0, seq![Term::Bytes(account.owner), Term::Bytes(account.spend_token_policy)])
}

/// The term of an allowance: constructor 0 around its eight fields in their
/// order. There is none where the amount has more than 64 bits with a sign,
/// or the address has no term.
pub open spec fn puller_term(puller: AllowedPullerView) -> Outcome {
    match term_of_u64(puller.amount_lovelace) {
        Err(e) => Err(e),
        Ok(amount_lovelace) => match term_of_address(puller.checking_account_address) {
            Err(e) => Err(e),
            Ok(address) => Ok(
                Term::Constr(
                    0,
                    seq![
                        Term::Bytes(puller.owner),
                        Term::Bytes(puller.puller),
                        amount_lovelace,
                        Term::Integer(number_of(puller.next_pull)),
                        Term::Integer(number_of(puller.period)),
                        Term::Bytes(puller.spending_token),
                        address,
                        Term::Bytes(puller.checking_account_nft),
                    ],
                ),
            ),
        },
    }
}

impl ToPlutusData for AllowedPuller {
    open spec fn term(&self) -> Outcome {
        puller_term(self@)
    }

    fn to_plutus_data(&self) -> (r: ScriptResult<PlutusData>) {
        let amount_lovelace = match PlutusData::from_u64(self.amount_lovelace) {
            Ok(term) => term,
            Err(e) => {
                return Err(e);
            },
        };
        let address = match PlutusData::from_address(&self.checking_account_address) {
            Ok(term) => term,
            Err(e) => {
                return Err(e);
            },
        };
        let owner = PlutusData::from_pub_key_hash(&self.owner);
        let puller = PlutusData::from_pub_key_hash(&self.puller);
        let next_pull = PlutusData::from_i64(self.next_pull);
        let period = PlutusData::from_i64(self.period);
        let spending_token = PlutusData::BoundedBytes(clone_bytes(&self.spending_token));
        let checking_account_nft = PlutusData::BoundedBytes(
            clone_bytes(&self.checking_account_nft),
        );
        let mut fields: Vec<PlutusData> = Vec::new();
        push_field(&mut fields, owner);
        push_field(&mut fields, puller);
        push_field(&mut fields, amount_lovelace);
        push_field(&mut fields, next_pull);
        push_field(&mut fields, period);
        push_field(&mut fields, spending_token);
        push_field(&mut fields, address);
        push_field(&mut fields, checking_account_nft);
        proof {
            assert(terms_of(Seq::<PlutusData>::empty()) =~= Seq::<Term>::empty());
            assert(terms_of(fields@) =~= seq![
                owner@,
                puller@,
                amount_lovelace@,
                next_pull@,
                period@,
                spending_token@,
                address@,
                checking_account_nft@,
            ]);
        }
        let r = wrap_multiple_with_constr(0, fields);
        assert(puller_term(self@)->Ok_0->Constr_1 =~= seq![
            owner@,
            puller@,
            amount_lovelace@,
            next_pull@,
            period@,
            spending_token@,
            address@,
            checking_account_nft@,
        ]);
        Ok(r)
    }
}

impl ToPlutusData for CheckingAccountDatums {
    open spec fn term(&self) -> Outcome {
        match self@ {
            DatumsView::CheckingAccount(account) => Ok(account_term(account)),
            DatumsView::AllowedPuller(puller) => puller_term(puller),
        }
    }

    fn to_plutus_data(&self) -> (r: ScriptResult<PlutusData>) {
        match self {
            CheckingAccountDatums::CheckingAccount(account) => {
                let owner_data = PlutusData::from_pub_key_hash(&account.owner);
                let policy_data = PlutusData::BoundedBytes(clone_bytes(&account.spend_token_policy));
                Ok(wrap_pair_with_constr(0, owner_data, policy_data))
            },
            CheckingAccountDatums::AllowedPuller(puller) => puller.to_plutus_data(),
        }
    }
}

/// What the contract itself can find wrong.
#[derive(Debug, PartialEq, Eq)]
pub enum CheckingAccountError {
    /// The wallet has no output that can pay for the opening of an account.
    InputNotFound,
    /// The script holds no output of that name, or nothing would be left in
    /// the output that takes its place.
    OutputNotFound(OutputId),
    /// The output of that name carries no datum of the kind that is needed.
    DatumNotFoundForOutput(OutputId),
    /// The account holds less than is to be taken out.
    CannotWithdrawSpecifiedAmount,
    /// The address has no key, and so no owner.
    InvalidAddress(Address),
    /// The id of the account's token is not hexadecimal text.
    InvalidNftId(String),
    /// The time of the next pull, moved on by a period, is no time.
    AmountTooLarge,
    /// The arithmetic error of the value algebra, handed on: more was to be
    /// taken out of a value than it holds, or a sum is no quantity.
    Arithmetic,
}

/// The mathematical value of a [`CheckingAccountError`].
pub enum CheckingAccountFault {
    InputNotFound,
    OutputNotFound(OutputIdView),
    DatumNotFoundForOutput(OutputIdView),
    CannotWithdrawSpecifiedAmount,
    InvalidAddress(AddressView),
    InvalidNftId(Seq<char>),
    AmountTooLarge,
    Arithmetic,
}

impl View for CheckingAccountError {
    type V = CheckingAccountFault;

    open spec fn view(&self) -> CheckingAccountFault {
        match self {
            CheckingAccountError::InputNotFound => CheckingAccountFault::InputNotFound,
            CheckingAccountError::OutputNotFound(id) => CheckingAccountFault::OutputNotFound(id@),
            CheckingAccountError::DatumNotFoundForOutput(id) => {
                CheckingAccountFault::DatumNotFoundForOutput(id@)
            },
            CheckingAccountError::CannotWithdrawSpecifiedAmount => {
                CheckingAccountFault::CannotWithdrawSpecifiedAmount
            },
            CheckingAccountError::InvalidAddress(address) => CheckingAccountFault::InvalidAddress(
                address@,
            ),
            CheckingAccountError::InvalidNftId(id) => CheckingAccountFault::InvalidNftId(id@),
            CheckingAccountError::AmountTooLarge => CheckingAccountFault::AmountTooLarge,
            CheckingAccountError::Arithmetic => CheckingAccountFault::Arithmetic,
        }
    }
}

impl CheckingAccountError {
    /// The text of the error.
    pub fn message(&self) -> (r: String)
        ensures
            r@ == Self::text_of(self@),
    {
        match self {
            CheckingAccountError::InputNotFound => "Could not find a valid input UTxO".to_owned(),
            CheckingAccountError::OutputNotFound(id) => {
                "Could not find an output with id: ".to_owned().concat(id.text().as_str())
            },
            CheckingAccountError::DatumNotFoundForOutput(id) => {
                "Expected datum on output with id: ".to_owned().concat(id.text().as_str())
            },
            CheckingAccountError::CannotWithdrawSpecifiedAmount => {
                "You are trying to withdraw more than is in account".to_owned()
            },
            CheckingAccountError::InvalidAddress(address) => "Address isn't valid: ".to_owned()
                .concat(address.text().as_str()),
            CheckingAccountError::InvalidNftId(id) => "Id of the account's token isn't valid: "
                .to_owned().concat(id.as_str()),
            CheckingAccountError::AmountTooLarge => "Amount is too large".to_owned(),
            CheckingAccountError::Arithmetic => crate::error::Error::arithmetic_message(),
        }
    }

    /// The text of an error.
    pub open spec fn text_of(fault: CheckingAccountFault) -> Seq<char> {
        match fault {
            CheckingAccountFault::InputNotFound => "Could not find a valid input UTxO"@,
            CheckingAccountFault::OutputNotFound(id) => "Could not find an output with id: "@
                + OutputId::text_of(id),
            CheckingAccountFault::DatumNotFoundForOutput(id) => {
                "Expected datum on output with id: "@ + OutputId::text_of(id)
            },
            CheckingAccountFault::CannotWithdrawSpecifiedAmount => {
                "You are trying to withdraw more than is in account"@
            },
            CheckingAccountFault::InvalidAddress(address) => "Address isn't valid: "@
                + Address::text_of(address),
            CheckingAccountFault::InvalidNftId(id) => "Id of the account's token isn't valid: "@
                + id,
            CheckingAccountFault::AmountTooLarge => "Amount is too large"@,
            CheckingAccountFault::Arithmetic => crate::error::Error::arithmetic_text(),
        }
    }
}

/// The name of the token that names an account.
pub const CHECKING_ACCOUNT_NFT_ASSET_NAME: &'static str = "CHECKING ACCOUNT";

/// The name of the tokens that allowances carry.
pub const SPEND_TOKEN_ASSET_NAME: &'static str = "SPEND TOKEN";

/// The actions of the contract.
pub type CheckingAccountActions = TxActions<
    CheckingAccountDatums,
    (),
    CheckingAccountValidators,
    CheckingAccountPolicies,
>;

/// One action of the contract.
pub type CheckingAccountAction = Action<
    CheckingAccountDatums,
    (),
    CheckingAccountValidators,
    CheckingAccountPolicies,
>;


/// The address of the script that guards the accounts.
pub open spec fn account_address() -> AddressView {
    native_address(NETWORK, account_label())
}

/// The address of the script that guards the allowances.
pub open spec fn pull_address() -> AddressView {
    native_address(NETWORK, pull_label())
}

/// The name of an output, as a script sees it.
pub open spec fn reference_of(id: OutputIdView) -> OutputRef {
    OutputRef { transaction_id: id.tx_hash, output_index: id.index }
}

/// The token that names the account that was opened by spending the output
/// named `id`.
pub open spec fn account_nft(id: OutputIdView) -> AssetId {
    AssetId::NativeToken(
        hex_encoding(one_shot_code(reference_of(id))),
        Some(CHECKING_ACCOUNT_NFT_ASSET_NAME@),
    )
}

/// The spend token of the account that the token with the id `nft` names and
/// `owner` owns.
pub open spec fn spend_token(nft: Seq<u8>, owner: Seq<u8>) -> AssetId {
    AssetId::NativeToken(
        hex_encoding(spend_token_code(nft, owner)),
        Some(SPEND_TOKEN_ASSET_NAME@),
    )
}

/// Whether an output can pay for the opening of an account: it holds more
/// than the least amount of the base currency.
pub open spec fn pays<Datum>(output: Output<Datum>) -> bool {
    output@.values.contains_key(AssetId::Lovelace) && output@.values[AssetId::Lovelace]
        > MIN_LOVELACE
}

/// The first of `outputs` that can pay for the opening of an account.
pub fn pick_any_above_min<Datum>(outputs: Vec<Output<Datum>>) -> (r: Result<
    Output<Datum>,
    CheckingAccountError,
>)
    ensures
        match r {
            Ok(selected) => exists|i: int|
                0 <= i < outputs.len() && #[trigger] outputs[i] == selected && pays(selected)
                    && forall|j: int| 0 <= j < i ==> !pays(#[trigger] outputs[j]),
            Err(e) => e@ == CheckingAccountFault::InputNotFound && forall|j: int|
                0 <= j < outputs.len() ==> !pays(#[trigger] outputs[j]),
        },
{
    let mut i: usize = 0;
    while i < outputs.len()
        invariant
            i <= outputs.len(),
            forall|j: int| 0 <= j < i ==> !pays(#[trigger] outputs[j]),
        decreases outputs.len() - i,
    {
        let enough = match outputs[i].values().get(&PolicyId::Lovelace) {
            Some(ada_value) => ada_value > MIN_LOVELACE,
            None => false,
        };
        if enough {
            let ghost all = outputs@;
            let mut rest = outputs;
            let selected = rest.remove(i);
            assert(selected == all[i as int]);
            return Ok(selected);
        }
        i += 1;
    }
    Err(CheckingAccountError::InputNotFound)
}

/// What the ledger client told of the outputs in the wallet of the signer,
/// if it was asked.
pub type ToldOutputs = Option<LedgerClientResult<Vec<Output<CheckingAccountDatums>>>>;

/// Whether `selected` is the first of `outputs` that can pay for the opening
/// of an account: `None` where none can.
pub open spec fn picked(
    outputs: Seq<Output<CheckingAccountDatums>>,
    selected: Option<Output<CheckingAccountDatums>>,
) -> bool {
    match selected {
        Some(selected) => exists|i: int|
            0 <= i < outputs.len() && #[trigger] outputs[i] == selected && pays(selected)
                && forall|j: int| 0 <= j < i ==> !pays(#[trigger] outputs[j]),
        None => forall|j: int| 0 <= j < outputs.len() ==> !pays(#[trigger] outputs[j]),
    }
}

/// What selecting an output that can pay gives, given what the ledger client
/// told of the signer and of the outputs in the signer's wallet. Where the
/// client failed, the error of the endpoint with the text of the client's
/// error; where no output can pay, the error of the endpoint that says so;
/// else the first output that can pay.
pub open spec fn selects_given(
    signer: LedgerClientResult<Address>,
    wallet: ToldOutputs,
    r: SCLogicResult<Output<CheckingAccountDatums>>,
) -> bool {
    match signer {
        Err(e) => r matches Err(SCLogicError::Endpoint(text)) && text@
            == LedgerClientError::text_of(e@),
        Ok(_) => match wallet {
            None => false,
            Some(Err(e)) => r matches Err(SCLogicError::Endpoint(text)) && text@
                == LedgerClientError::text_of(e@),
            Some(Ok(outputs)) => match r {
                Ok(selected) => picked(outputs@, Some(selected)),
                Err(e) => picked(outputs@, None) && (e matches SCLogicError::Endpoint(text)
                    && text@ == CheckingAccountError::text_of(
                    CheckingAccountFault::InputNotFound,
                )),
            },
        },
    }
}

/// Whether the ledger client told `signer` of the signer and, where it
/// answered, `wallet` of the outputs at the signer's address.
pub open spec fn told_of_wallet(
    promises: Promises<CheckingAccountDatums>,
    signer: LedgerClientResult<Address>,
    wallet: ToldOutputs,
) -> bool {
    &&& (promises.signer)(signer)
    &&& signer matches Ok(me) ==> (wallet matches Some(told) && (promises.all_outputs)(me@, told))
}

/// What `ledger_client` promises the contract of its answers.
pub open spec fn asked<LC: LedgerClient<
        CheckingAccountDatums,
        (),
        CheckingAccountValidators,
        CheckingAccountPolicies,
    >>(ledger_client: &LC) -> Promises<CheckingAccountDatums> {
    promises_of::<
        CheckingAccountDatums,
        (),
        CheckingAccountValidators,
        CheckingAccountPolicies,
        LC,
    >(*ledger_client)
}

/// An output of the signer's wallet that can pay for the opening of an
/// account. The ledger client is asked who signs and for the outputs at the
/// signer's address; what it tells decides.
pub fn select_any_above_min<LC: LedgerClient<
        CheckingAccountDatums,
        (),
        CheckingAccountValidators,
        CheckingAccountPolicies,
    >>(ledger_client: &LC) -> (r:
    SCLogicResult<Output<CheckingAccountDatums>>)
    ensures
        match r {
            Ok(selected) => pays(selected),
            Err(e) => e is Endpoint,
        },
        exists|signer: LedgerClientResult<Address>, wallet: ToldOutputs|
            told_of_wallet(asked(ledger_client), signer, wallet) && #[trigger] selects_given(
                signer,
                wallet,
                r,
            ),
{
    let answer = ledger_client.signer_base_address();
    let ghost signer = answer;
    let me = match answer {
        Ok(me) => me,
        Err(e) => {
            let r = Err(SCLogicError::Endpoint(e.message()));
            assert(told_of_wallet(asked(ledger_client), signer, None) && selects_given(signer, None, r));
            return r;
        },
    };
    let answer = ledger_client.all_outputs_at_address(&me);
    let ghost wallet = Some(answer);
    let outputs = match answer {
        Ok(outputs) => outputs,
        Err(e) => {
            let r = Err(SCLogicError::Endpoint(e.message()));
            assert(told_of_wallet(asked(ledger_client), signer, wallet) && selects_given(
                signer,
                wallet,
                r,
            ));
            return r;
        },
    };
    let r = match pick_any_above_min(outputs) {
        Ok(selected) => Ok(selected),
        Err(e) => Err(SCLogicError::Endpoint(e.message())),
    };
    assert(told_of_wallet(asked(ledger_client), signer, wallet) && selects_given(signer, wallet, r));
    r
}

/// Whether `actions` open an account for the owner with the key `owner`, with
/// `starting_lovelace`, by spending `my_input`: an output at the script of the
/// accounts with the owner and the policy of the spend tokens as its datum,
/// holding the starting amount and the token that names the account; the
/// input; and the minting of that token, once, under the policy that the
/// spending of the input permits.
pub open spec fn opens_account(
    actions: CheckingAccountActions,
    owner: Seq<u8>,
    my_input: Output<CheckingAccountDatums>,
    starting_lovelace: u64,
) -> bool {
    let nft_code = one_shot_code(reference_of(my_input@.id));
    &&& actions.script_version == TransactionVersion::V2
    &&& actions.actions@.len() == 3
    &&& actions.actions@[0] matches Action::InitScript { datum, values, address }
    &&& datum@ == DatumsView::CheckingAccount(
        CheckingAccountView { owner, spend_token_policy: spend_token_code(nft_code, owner) },
    )
    &&& values@ == Map::<AssetId, u64>::empty().insert(AssetId::Lovelace, starting_lovelace).insert(
        account_nft(my_input@.id),
        1,
    )
    &&& values.entries() == seq![
        (AssetId::Lovelace, starting_lovelace),
        (account_nft(my_input@.id), 1u64),
    ]
    &&& address@ == account_address()
    &&& actions.actions@[1] == (CheckingAccountAction::SpecificInput { input: my_input })
    &&& actions.actions@[2] matches Action::MintTokens { amount, asset_name, redeemer, policy }
    &&& amount == 1
    &&& opt_text(asset_name) == Some(CHECKING_ACCOUNT_NFT_ASSET_NAME@)
    &&& policy matches CheckingAccountPolicies::OneShot(one_shot)
    &&& one_shot.output_reference@ == reference_of(my_input@.id)
}

/// The actions that open an account for the owner at `owner`, with
/// `starting_lovelace`, by spending `my_input`. An owner whose address has no
/// key cannot own an account.
pub fn init_account_actions(
    owner: &Address,
    my_input: Output<CheckingAccountDatums>,
    starting_lovelace: u64,
) -> (r: Result<CheckingAccountActions, CheckingAccountError>)
    ensures
        match r {
            Ok(actions) => owner@.payment matches PaymentCredential::Key(key) && opens_account(
                actions,
                key,
                my_input,
                starting_lovelace,
            ),
            Err(e) => owner@.payment is Script && e@ == CheckingAccountFault::InvalidAddress(
                owner@,
            ),
        },
{
    let owner_pubkey = match pub_key_hash_from_address_if_available(owner) {
        Some(key) => key,
        None => {
            return Err(CheckingAccountError::InvalidAddress(owner.clone()));
        },
    };
    let nft_policy = OneShotPolicy::new(OutputReference::from_output(&my_input));
    let nft_script_id = nft_policy.hex_id();
    let nft_script_id_bytes = match crate::hex::decode(nft_script_id.as_str()) {
        Some(bytes) => bytes,
        None => {
            return Err(CheckingAccountError::InvalidNftId(nft_script_id));
        },
    };
    let spending_token_policy = SpendTokenPolicy {
        nft: nft_script_id_bytes,
        owner: owner_pubkey.clone(),
    };
    let spend_token_policy = spending_token_policy.hex_id();
    let spend_token_id = match crate::hex::decode(spend_token_policy.as_str()) {
        Some(bytes) => bytes,
        None => {
            return Err(CheckingAccountError::InvalidNftId(spend_token_policy));
        },
    };
    let address = native_script_address(NETWORK, "checking_account_validator.spend");
    let datum = CheckingAccountDatums::CheckingAccount(
        CheckingAccount { owner: owner_pubkey, spend_token_policy: spend_token_id },
    );
    let mut values = Values::default();
    values.add_one_value(&PolicyId::Lovelace, starting_lovelace);
    let ghost first = values.entries();
    assert(first =~= seq![(AssetId::Lovelace, starting_lovelace)]);
    values.add_one_value(
        &PolicyId::NativeToken(nft_script_id, Some(CHECKING_ACCOUNT_NFT_ASSET_NAME.to_owned())),
        1,
    );
    proof {
        let nft = account_nft(my_input@.id);
        assert(first.drop_first() =~= Seq::<(AssetId, u64)>::empty());
        assert(crate::values::key_index(first.drop_first(), nft) == 0);
        assert(crate::values::key_index(first, nft) == 1);
        assert(values.entries() =~= seq![(AssetId::Lovelace, starting_lovelace), (nft, 1u64)]);
    }
    let actions = TxActions::v2().with_script_init(datum, values, address).with_specific_input(
        my_input,
    ).with_mint(
        1,
        Some(CHECKING_ACCOUNT_NFT_ASSET_NAME.to_owned()),
        (),
        CheckingAccountPolicies::OneShot(nft_policy),
    );
    Ok(actions)
}

/// What opening an account with `starting_lovelace` gives: actions that open
/// it for some owner by spending some output that can pay, or the error of
/// the endpoint.
pub open spec fn account_opened(starting_lovelace: u64, r: SCLogicResult<CheckingAccountActions>)
    -> bool {
    match r {
        Ok(actions) => exists|owner: Seq<u8>, my_input: Output<CheckingAccountDatums>|
            pays(my_input) && #[trigger] opens_account(
                actions,
                owner,
                my_input,
                starting_lovelace,
            ),
        Err(e) => e is Endpoint,
    }
}

/// What opening an account with `starting_lovelace` gives, given what the
/// ledger client told of the signer and what selecting an output that can pay
/// gave. Where the client failed, the error of the endpoint with the text of
/// the client's error; where no output was selected, the error of the
/// selection; where the signer's address has no key, the error of the
/// endpoint that says so; else the actions that open the account for the
/// signer by spending the output that was selected.
pub open spec fn opens_given(
    signer: LedgerClientResult<Address>,
    selected: Option<SCLogicResult<Output<CheckingAccountDatums>>>,
    starting_lovelace: u64,
    r: SCLogicResult<CheckingAccountActions>,
) -> bool {
    match signer {
        Err(e) => r matches Err(SCLogicError::Endpoint(text)) && text@
            == LedgerClientError::text_of(e@),
        Ok(owner) => match selected {
            None => false,
            Some(Err(e)) => r == Err::<CheckingAccountActions, SCLogicError>(e),
            Some(Ok(my_input)) => match owner@.payment {
                PaymentCredential::Key(key) => r matches Ok(actions) && opens_account(
                    actions,
                    key,
                    my_input,
                    starting_lovelace,
                ),
                PaymentCredential::Script(_) => r matches Err(SCLogicError::Endpoint(text))
                    && text@ == CheckingAccountError::text_of(
                    CheckingAccountFault::InvalidAddress(owner@),
                ),
            },
        },
    }
}

/// Whether the ledger client told `signer` of the signer and, where it
/// answered, `selected` is what selecting an output that can pay gave, for
/// which the client was asked again.
pub open spec fn told_of_payer(
    promises: Promises<CheckingAccountDatums>,
    signer: LedgerClientResult<Address>,
    selected: Option<SCLogicResult<Output<CheckingAccountDatums>>>,
) -> bool {
    &&& (promises.signer)(signer)
    &&& signer is Ok ==> (selected matches Some(selection) && exists|
        again: LedgerClientResult<Address>,
        wallet: ToldOutputs,
    |
        told_of_wallet(promises, again, wallet) && #[trigger] selects_given(
            again,
            wallet,
            selection,
        ))
}

/// The actions that open an account with `starting_lovelace` for the signer.
/// The ledger client is asked who signs, and for an output of the signer that
/// can pay; what it tells decides.
pub fn init_account<LC: LedgerClient<
        CheckingAccountDatums,
        (),
        CheckingAccountValidators,
        CheckingAccountPolicies,
    >>(
    ledger_client: &LC,
    starting_lovelace: u64,
) -> (r: SCLogicResult<CheckingAccountActions>)
    ensures
        account_opened(starting_lovelace, r),
        exists|
            signer: LedgerClientResult<Address>,
            selected: Option<SCLogicResult<Output<CheckingAccountDatums>>>,
        |
            told_of_payer(asked(ledger_client), signer, selected) && #[trigger] opens_given(
                signer,
                selected,
                starting_lovelace,
                r,
            ),
{
    let answer = ledger_client.signer_base_address();
    let ghost signer = answer;
    let owner = match answer {
        Ok(owner) => owner,
        Err(e) => {
            let r = Err(SCLogicError::Endpoint(e.message()));
            assert(told_of_payer(asked(ledger_client), signer, None) && opens_given(
                signer,
                None,
                starting_lovelace,
                r,
            ));
            return r;
        },
    };
    let selection = select_any_above_min(ledger_client);
    let ghost selected = Some(selection);
    assert(told_of_payer(asked(ledger_client), signer, selected));
    let my_input = match selection {
        Ok(my_input) => my_input,
        Err(e) => {
            let r = Err(e);
            assert(opens_given(signer, selected, starting_lovelace, r));
            return r;
        },
    };
    let r = match init_account_actions(&owner, my_input, starting_lovelace) {
        Ok(actions) => Ok(actions),
        Err(e) => Err(SCLogicError::Endpoint(e.message())),
    };
    assert(opens_given(signer, selected, starting_lovelace, r));
    r
}

/// Whether `actions` allow a puller: the minting of one spend token of the
/// account, and an output at the script of the allowances with `allowance` as
/// its datum, holding the token.
pub open spec fn allows_puller(actions: CheckingAccountActions, allowance: AllowedPullerView)
    -> bool {
    &&& actions.script_version == TransactionVersion::V2
    &&& actions.actions@.len() == 2
    &&& actions.actions@[0] matches Action::MintTokens { amount, asset_name, redeemer, policy }
    &&& amount == 1
    &&& opt_text(asset_name) == Some(SPEND_TOKEN_ASSET_NAME@)
    &&& policy matches CheckingAccountPolicies::SpendToken(spend)
    &&& spend.nft@ == allowance.checking_account_nft
    &&& spend.owner@ == allowance.owner
    &&& actions.actions@[1] matches Action::InitScript { datum, values, address }
    &&& datum@ == DatumsView::AllowedPuller(allowance)
    &&& values@ == Map::<AssetId, u64>::empty().insert(
        spend_token(allowance.checking_account_nft, allowance.owner),
        1,
    )
    &&& values.entries() == seq![
        (spend_token(allowance.checking_account_nft, allowance.owner), 1u64),
    ]
    &&& address@ == pull_address()
}

/// The actions with which the owner at `me` allows `puller` to pull
/// `amount_lovelace` in every `period`, from `next_pull` on, from the account
/// that the token with the id `checking_account_nft_id` names. An owner whose
/// address has no key cannot allow anything, and the id must be hexadecimal
/// text.
pub fn add_puller_actions(
    me: &Address,
    checking_account_nft_id: String,
    checking_account_address: Address,
    puller: PubKeyHash,
    amount_lovelace: u64,
    period: i64,
    next_pull: i64,
) -> (r: Result<CheckingAccountActions, CheckingAccountError>)
    ensures
        match r {
            Ok(actions) => {
                &&& me@.payment matches PaymentCredential::Key(owner)
                &&& hex_decoding(checking_account_nft_id@) matches Some(nft)
                &&& allows_puller(
                    actions,
                    AllowedPullerView {
                        owner,
                        puller: puller@,
                        amount_lovelace,
                        next_pull,
                        period,
                        spending_token: spend_token_code(nft, owner),
                        checking_account_address: checking_account_address@,
                        checking_account_nft: nft,
                    },
                )
            },
            Err(e) => if me@.payment is Script {
                e@ == CheckingAccountFault::InvalidAddress(me@)
            } else {
                hex_decoding(checking_account_nft_id@) is None && e@
                    == CheckingAccountFault::InvalidNftId(checking_account_nft_id@)
            },
        },
{
    let owner = match pub_key_hash_from_address_if_available(me) {
        Some(key) => key,
        None => {
            return Err(CheckingAccountError::InvalidAddress(me.clone()));
        },
    };
    let nft_id_bytes = match crate::hex::decode(checking_account_nft_id.as_str()) {
        Some(bytes) => bytes,
        None => {
            return Err(CheckingAccountError::InvalidNftId(checking_account_nft_id));
        },
    };
    let policy = SpendTokenPolicy { nft: clone_bytes(&nft_id_bytes), owner: owner.clone() };
    let id = policy.hex_id();
    let spending_token = match crate::hex::decode(id.as_str()) {
        Some(bytes) => bytes,
        None => {
            return Err(CheckingAccountError::InvalidNftId(id));
        },
    };
    let address = native_script_address(NETWORK, "pull_validator.spend");
    let mut values = Values::default();
    values.add_one_value(
        &PolicyId::NativeToken(id, Some(SPEND_TOKEN_ASSET_NAME.to_owned())),
        1,
    );
    let datum = CheckingAccountDatums::AllowedPuller(
        AllowedPuller {
            owner,
            puller,
            amount_lovelace,
            next_pull,
            period,
            spending_token,
            checking_account_address,
            checking_account_nft: nft_id_bytes,
        },
    );
    let actions = TxActions::v2().with_mint(
        1,
        Some(SPEND_TOKEN_ASSET_NAME.to_owned()),
        (),
        CheckingAccountPolicies::SpendToken(policy),
    ).with_script_init(datum, values, address);
    Ok(actions)
}

/// What allowing a puller gives: actions that allow the puller as asked, for
/// some owner, or the error of the endpoint.
pub open spec fn puller_added(
    checking_account_nft_id: Seq<char>,
    checking_account_address: AddressView,
    puller: Seq<u8>,
    amount_lovelace: u64,
    period: i64,
    next_pull: i64,
    r: SCLogicResult<CheckingAccountActions>,
) -> bool {
    match r {
        Ok(actions) => exists|owner: Seq<u8>, nft: Seq<u8>|
            hex_decoding(checking_account_nft_id) == Some(nft) && #[trigger] allows_puller(
                actions,
                AllowedPullerView {
                    owner,
                    puller,
                    amount_lovelace,
                    next_pull,
                    period,
                    spending_token: spend_token_code(nft, owner),
                    checking_account_address,
                    checking_account_nft: nft,
                },
            ),
        Err(e) => e is Endpoint,
    }
}

/// What allowing a puller gives, given what the ledger client told of the
/// signer. Where the client failed, the error of the endpoint with the text of
/// the client's error; where the signer's address has no key, or the id of
/// the account's token is no hexadecimal text, the error of the endpoint that
/// says so; else the actions that allow the puller as asked, for the signer
/// as the owner.
pub open spec fn adds_given(
    signer: LedgerClientResult<Address>,
    checking_account_nft_id: Seq<char>,
    checking_account_address: AddressView,
    puller: Seq<u8>,
    amount_lovelace: u64,
    period: i64,
    next_pull: i64,
    r: SCLogicResult<CheckingAccountActions>,
) -> bool {
    match signer {
        Err(e) => r matches Err(SCLogicError::Endpoint(text)) && text@
            == LedgerClientError::text_of(e@),
        Ok(me) => match me@.payment {
            PaymentCredential::Script(_) => r matches Err(SCLogicError::Endpoint(text)) && text@
                == CheckingAccountError::text_of(CheckingAccountFault::InvalidAddress(me@)),
            PaymentCredential::Key(owner) => match hex_decoding(checking_account_nft_id) {
                None => r matches Err(SCLogicError::Endpoint(text)) && text@
                    == CheckingAccountError::text_of(
                    CheckingAccountFault::InvalidNftId(checking_account_nft_id),
                ),
                Some(nft) => r matches Ok(actions) && allows_puller(
                    actions,
                    AllowedPullerView {
                        owner,
                        puller,
                        amount_lovelace,
                        next_pull,
                        period,
                        spending_token: spend_token_code(nft, owner),
                        checking_account_address,
                        checking_account_nft: nft,
                    },
                ),
            },
        },
    }
}

/// The actions with which the signer allows a puller. The ledger client is
/// asked who signs; what it tells decides.
pub fn add_puller<LC: LedgerClient<
        CheckingAccountDatums,
        (),
        CheckingAccountValidators,
        CheckingAccountPolicies,
    >>(
    ledger_client: &LC,
    checking_account_nft_id: String,
    checking_account_address: Address,
    puller: PubKeyHash,
    amount_lovelace: u64,
    period: i64,
    next_pull: i64,
) -> (r: SCLogicResult<CheckingAccountActions>)
    ensures
        puller_added(
            checking_account_nft_id@,
            checking_account_address@,
            puller@,
            amount_lovelace,
            period,
            next_pull,
            r,
        ),
        exists|signer: LedgerClientResult<Address>|
            (asked(ledger_client).signer)(signer) && #[trigger] adds_given(
                signer,
                checking_account_nft_id@,
                checking_account_address@,
                puller@,
                amount_lovelace,
                period,
                next_pull,
                r,
            ),
{
    let answer = ledger_client.signer_base_address();
    let ghost signer = answer;
    let me = match answer {
        Ok(me) => me,
        Err(e) => {
            let r = Err(SCLogicError::Endpoint(e.message()));
            assert(adds_given(
                signer,
                checking_account_nft_id@,
                checking_account_address@,
                puller@,
                amount_lovelace,
                period,
                next_pull,
                r,
            ));
            return r;
        },
    };
    let r = match add_puller_actions(
        &me,
        checking_account_nft_id,
        checking_account_address,
        puller,
        amount_lovelace,
        period,
        next_pull,
    ) {
        Ok(actions) => Ok(actions),
        Err(e) => Err(SCLogicError::Endpoint(e.message())),
    };
    assert(adds_given(
        signer,
        checking_account_nft_id@,
        checking_account_address@,
        puller@,
        amount_lovelace,
        period,
        next_pull,
        r,
    ));
    r
}

/// The actions that take back the allowance named `output_id` among
/// `outputs`, which are those at the script of the allowances: redeem it, if
/// it is there.
pub fn remove_puller_actions(outputs: Vec<Output<CheckingAccountDatums>>, output_id: OutputId) -> (r:
    Result<CheckingAccountActions, CheckingAccountError>)
    ensures
        match r {
            Ok(actions) => {
                &&& position_of(outputs@, output_id@) < outputs.len()
                &&& actions.script_version == TransactionVersion::V2
                &&& actions.actions@ == seq![
                    CheckingAccountAction::RedeemScriptOutput {
                        output: outputs[position_of(outputs@, output_id@)],
                        redeemer: (),
                        script: CheckingAccountValidators::Pull,
                    },
                ]
            },
            Err(e) => {
                &&& position_of(outputs@, output_id@) == outputs.len()
                &&& e@ == CheckingAccountFault::OutputNotFound(output_id@)
            },
        },
{
    match take_output(outputs, &output_id) {
        Some(output) => {
            let actions = TxActions::v2().with_script_redeem(
                output,
                (),
                CheckingAccountValidators::Pull,
            );
            assert(actions.actions@ =~= seq![
                CheckingAccountAction::RedeemScriptOutput {
                    output,
                    redeemer: (),
                    script: CheckingAccountValidators::Pull,
                },
            ]);
            Ok(actions)
        },
        None => Err(CheckingAccountError::OutputNotFound(output_id)),
    }
}

/// What taking back the allowance named `id` gives: the redemption of an
/// output of that name under the script of the allowances, or an error: of
/// the lookup where the ledger client failed, of the endpoint where it named
/// no such output.
pub open spec fn puller_removed(id: OutputIdView, r: SCLogicResult<CheckingAccountActions>)
    -> bool {
    match r {
        Ok(actions) => {
            &&& actions.script_version == TransactionVersion::V2
            &&& actions.actions@.len() == 1
            &&& actions.actions@[0] matches Action::RedeemScriptOutput { output, redeemer, script }
            &&& output@.id == id
            &&& script == CheckingAccountValidators::Pull
        },
        Err(e) => e is Lookup || e is Endpoint,
    }
}

/// What the ledger client told of the outputs at an address.
pub type Told = LedgerClientResult<Vec<Output<CheckingAccountDatums>>>;

/// What taking back the allowance named `id` gives, given what the ledger
/// client told of the outputs at the script of the allowances. Where the
/// client failed, the error of the lookup with the text of the client's
/// error; where it told of no output of that name, the error of the endpoint
/// that says so; else the redemption of the first output of that name.
pub open spec fn removes_given(told: Told, id: OutputIdView, r: SCLogicResult<CheckingAccountActions>)
    -> bool {
    match told {
        Err(e) => r matches Err(SCLogicError::Lookup(text)) && text@ == LedgerClientError::text_of(
            e@,
        ),
        Ok(outputs) => if position_of(outputs@, id) < outputs.len() {
            &&& r matches Ok(actions)
            &&& actions.script_version == TransactionVersion::V2
            &&& actions.actions@ == seq![
                CheckingAccountAction::RedeemScriptOutput {
                    output: outputs[position_of(outputs@, id)],
                    redeemer: (),
                    script: CheckingAccountValidators::Pull,
                },
            ]
        } else {
            r matches Err(SCLogicError::Endpoint(text)) && text@ == CheckingAccountError::text_of(
                CheckingAccountFault::OutputNotFound(id),
            )
        },
    }
}

/// The actions that take back the allowance named `output_id`. The ledger
/// client is asked for the outputs at the script of the allowances; what it
/// tells decides.
pub fn remove_puller<LC: LedgerClient<
        CheckingAccountDatums,
        (),
        CheckingAccountValidators,
        CheckingAccountPolicies,
    >>(
    ledger_client: &LC,
    output_id: OutputId,
) -> (r: SCLogicResult<CheckingAccountActions>)
    ensures
        puller_removed(output_id@, r),
        exists|told: Told|
            (asked(ledger_client).all_outputs)(pull_address(), told) && #[trigger] removes_given(
                told,
                output_id@,
                r,
            ),
{
    let address = native_script_address(NETWORK, "pull_validator.spend");
    let answer = ledger_client.all_outputs_at_address(&address);
    let ghost told = answer;
    let outputs = match answer {
        Ok(outputs) => outputs,
        Err(e) => {
            let r = Err(SCLogicError::Lookup(e.message()));
            assert(removes_given(told, output_id@, r));
            return r;
        },
    };
    proof {
        lemma_position_of(outputs@, output_id@);
    }
    let r = match remove_puller_actions(outputs, output_id) {
        Ok(actions) => Ok(actions),
        Err(e) => Err(SCLogicError::Endpoint(e.message())),
    };
    assert(removes_given(told, output_id@, r));
    r
}

/// Why an account cannot be funded: none of `outputs` is named `id`, or the
/// one that is carries no datum, or the sum is no quantity.
pub open spec fn fund_fault(
    outputs: Seq<Output<CheckingAccountDatums>>,
    id: OutputIdView,
    fund_amount: u64,
) -> Option<CheckingAccountFault> {
    let at = position_of(outputs, id);
    if at >= outputs.len() {
        Some(CheckingAccountFault::OutputNotFound(id))
    } else if outputs[at]@.datum is None {
        Some(CheckingAccountFault::OutputNotFound(id))
    } else if amount(outputs[at]@.values, AssetId::Lovelace) + fund_amount > u64::MAX {
        Some(CheckingAccountFault::Arithmetic)
    } else {
        None
    }
}

/// Whether `actions` replace the account `account` by one with `values`: the
/// account is redeemed, and an output at the script of the accounts carries
/// its datum and holds `values`, with the entries `entries`.
pub open spec fn replaces_account(
    actions: Seq<CheckingAccountAction>,
    account: Output<CheckingAccountDatums>,
    values: Map<AssetId, u64>,
    entries: Seq<(AssetId, u64)>,
) -> bool {
    &&& actions.len() == 2
    &&& actions[0] == (CheckingAccountAction::RedeemScriptOutput {
        output: account,
        redeemer: (),
        script: CheckingAccountValidators::CheckingAccount,
    })
    &&& actions[1] matches Action::InitScript { datum, values: new_values, address }
    &&& account@.datum matches Some(old_datum)
    &&& datum@ == old_datum@
    &&& new_values@ == values
    &&& new_values.entries() == entries
    &&& address@ == account_address()
}

/// The actions that add `fund_amount` to the account named `output_id` among
/// `outputs`, which are those at the script of the accounts.
pub fn fund_account_actions(
    outputs: Vec<Output<CheckingAccountDatums>>,
    output_id: OutputId,
    fund_amount: u64,
) -> (r: Result<CheckingAccountActions, CheckingAccountError>)
    ensures
        match r {
            Ok(actions) => {
                &&& fund_fault(outputs@, output_id@, fund_amount) is None
                &&& actions.script_version == TransactionVersion::V2
                &&& replaces_account(
                    actions.actions@,
                    outputs[position_of(outputs@, output_id@)],
                    outputs[position_of(outputs@, output_id@)]@.values.insert(
                        AssetId::Lovelace,
                        (amount(
                            outputs[position_of(outputs@, output_id@)]@.values,
                            AssetId::Lovelace,
                        ) + fund_amount) as u64,
                    ),
                    entries_with(
                        outputs[position_of(outputs@, output_id@)].held().entries(),
                        AssetId::Lovelace,
                        fund_amount,
                    ),
                )
            },
            Err(e) => fund_fault(outputs@, output_id@, fund_amount) == Some(e@),
        },
{
    let output = match take_output(outputs, &output_id) {
        Some(output) => output,
        None => {
            return Err(CheckingAccountError::OutputNotFound(output_id));
        },
    };
    let new_datum = match output.datum() {
        Some(datum) => datum.clone(),
        None => {
            return Err(CheckingAccountError::OutputNotFound(output_id));
        },
    };
    let mut values = output.values().clone();
    match values.try_add_one_value(&PolicyId::Lovelace, fund_amount) {
        Ok(_) => {},
        Err(_) => {
            return Err(CheckingAccountError::Arithmetic);
        },
    }
    let address = native_script_address(NETWORK, "checking_account_validator.spend");
    let actions = TxActions::v2().with_script_redeem(
        output,
        (),
        CheckingAccountValidators::CheckingAccount,
    ).with_script_init(new_datum, values, address);
    Ok(actions)
}

/// What adding `fund_amount` to the account named `id` gives: actions that
/// replace an account of that name by one with that much more, or an error of
/// the lookup or of the endpoint.
pub open spec fn account_funded(
    id: OutputIdView,
    fund_amount: u64,
    r: SCLogicResult<CheckingAccountActions>,
) -> bool {
    match r {
        Ok(actions) => exists|account: Output<CheckingAccountDatums>|
            account@.id == id && #[trigger] replaces_account(
                actions.actions@,
                account,
                account@.values.insert(
                    AssetId::Lovelace,
                    (amount(account@.values, AssetId::Lovelace) + fund_amount) as u64,
                ),
                entries_with(account.held().entries(), AssetId::Lovelace, fund_amount),
            ),
        Err(e) => e is Lookup || e is Endpoint,
    }
}

/// What adding `fund_amount` to the account named `id` gives, given what the
/// ledger client told of the outputs at the script of the accounts. Where the
/// client failed, the error of the lookup with the text of the client's
/// error; where the account cannot be funded, the error of the endpoint that
/// says why; else the actions that replace the first output of that name by
/// one with that much more.
pub open spec fn funds_given(
    told: Told,
    id: OutputIdView,
    fund_amount: u64,
    r: SCLogicResult<CheckingAccountActions>,
) -> bool {
    match told {
        Err(e) => r matches Err(SCLogicError::Lookup(text)) && text@ == LedgerClientError::text_of(
            e@,
        ),
        Ok(outputs) => match fund_fault(outputs@, id, fund_amount) {
            Some(fault) => r matches Err(SCLogicError::Endpoint(text)) && text@
                == CheckingAccountError::text_of(fault),
            None => {
                &&& r matches Ok(actions)
                &&& actions.script_version == TransactionVersion::V2
                &&& replaces_account(
                    actions.actions@,
                    outputs[position_of(outputs@, id)],
                    outputs[position_of(outputs@, id)]@.values.insert(
                        AssetId::Lovelace,
                        (amount(outputs[position_of(outputs@, id)]@.values, AssetId::Lovelace)
                            + fund_amount) as u64,
                    ),
                    entries_with(
                        outputs[position_of(outputs@, id)].held().entries(),
                        AssetId::Lovelace,
                        fund_amount,
                    ),
                )
            },
        },
    }
}

/// The actions that add `amount` to the account named `output_id`. The
/// ledger client is asked for the outputs at the script of the accounts; what
/// it tells decides.
pub fn fund_account<LC: LedgerClient<
        CheckingAccountDatums,
        (),
        CheckingAccountValidators,
        CheckingAccountPolicies,
    >>(
    ledger_client: &LC,
    output_id: OutputId,
    amount: u64,
) -> (r: SCLogicResult<CheckingAccountActions>)
    ensures
        account_funded(output_id@, amount, r),
        exists|told: Told|
            (asked(ledger_client).all_outputs)(account_address(), told) && #[trigger] funds_given(
                told,
                output_id@,
                amount,
                r,
            ),
{
    let address = native_script_address(NETWORK, "checking_account_validator.spend");
    let answer = ledger_client.all_outputs_at_address(&address);
    let ghost told = answer;
    let outputs = match answer {
        Ok(outputs) => outputs,
        Err(e) => {
            let r = Err(SCLogicError::Lookup(e.message()));
            assert(funds_given(told, output_id@, amount, r));
            return r;
        },
    };
    proof {
        lemma_position_of(outputs@, output_id@);
    }
    let r = match fund_account_actions(outputs, output_id, amount) {
        Ok(actions) => Ok(actions),
        Err(e) => Err(SCLogicError::Endpoint(e.message())),
    };
    assert(funds_given(told, output_id@, amount, r));
    r
}

/// The value that holds `quantity` of the base currency and nothing else.
pub open spec fn lovelace(quantity: u64) -> Map<AssetId, u64> {
    Map::<AssetId, u64>::empty().insert(AssetId::Lovelace, quantity)
}

/// Why nothing can be taken out of an account: none of `outputs` is named
/// `id`, or the one that is carries no datum, or it holds less than is to be
/// taken out, which is the arithmetic error of the subtraction, or nothing
/// would be left in it.
pub open spec fn withdraw_fault(
    outputs: Seq<Output<CheckingAccountDatums>>,
    id: OutputIdView,
    withdraw_amount: u64,
) -> Option<CheckingAccountFault> {
    let at = position_of(outputs, id);
    if at >= outputs.len() {
        Some(CheckingAccountFault::OutputNotFound(id))
    } else if outputs[at]@.datum is None {
        Some(CheckingAccountFault::OutputNotFound(id))
    } else if amount(outputs[at]@.values, AssetId::Lovelace) < withdraw_amount {
        Some(CheckingAccountFault::Arithmetic)
    } else if difference(outputs[at]@.values, lovelace(withdraw_amount)) == Map::<
        AssetId,
        u64,
    >::empty() {
        Some(CheckingAccountFault::OutputNotFound(id))
    } else {
        None
    }
}

/// Funding an account with what was taken out of it gives back the quantity
/// that it held of every asset.
pub proof fn lemma_funding_gives_back_what_was_withdrawn(held: Map<AssetId, u64>, quantity: u64)
    requires
        amount(held, AssetId::Lovelace) >= quantity,
    ensures
        forall|asset: AssetId| #[trigger]
            amount(
                difference(held, lovelace(quantity)).insert(
                    AssetId::Lovelace,
                    (amount(difference(held, lovelace(quantity)), AssetId::Lovelace)
                        + quantity) as u64,
                ),
                asset,
            ) == amount(held, asset),
{
    let left = difference(held, lovelace(quantity));
    assert(amount(lovelace(quantity), AssetId::Lovelace) == quantity);
    assert forall|asset: AssetId| asset != AssetId::Lovelace implies #[trigger] amount(
        lovelace(quantity),
        asset,
    ) == 0 by {}
    assert(amount(left, AssetId::Lovelace) + quantity == amount(held, AssetId::Lovelace));
}

/// What is left of `values` once `quantity` of the base currency is taken
/// out: the error of the subtraction where they hold less, and `None` where
/// nothing is left.
pub fn without_lovelace(values: &Values, quantity: u64) -> (r: Result<
    Option<Values>,
    crate::error::Error,
>)
    ensures
        match r {
            Err(e) => e == crate::error::Error::Arithmetic && amount(values@, AssetId::Lovelace)
                < quantity,
            Ok(None) => amount(values@, AssetId::Lovelace) >= quantity && difference(
                values@,
                lovelace(quantity),
            ) == Map::<AssetId, u64>::empty(),
            Ok(Some(left)) => amount(values@, AssetId::Lovelace) >= quantity && left@
                == difference(values@, lovelace(quantity)) && left@ != Map::<
                AssetId,
                u64,
            >::empty() && left.entries() == residue(values.entries(), lovelace(quantity)),
        },
{
    let mut sub_values = Values::default();
    sub_values.add_one_value(&PolicyId::Lovelace, quantity);
    assert(sub_values@ =~= lovelace(quantity));
    proof {
        if amount(values@, AssetId::Lovelace) >= quantity {
            assert forall|asset: AssetId| amount(sub_values@, asset) <= #[trigger] amount(
                values@,
                asset,
            ) by {}
        } else {
            assert(amount(sub_values@, AssetId::Lovelace) > amount(values@, AssetId::Lovelace));
        }
    }
    values.try_subtract(&sub_values)
}

/// The actions that take `withdraw_amount` out of the account named
/// `output_id` among `outputs`, which are those at the script of the
/// accounts.
pub fn withdraw_from_account_actions(
    outputs: Vec<Output<CheckingAccountDatums>>,
    output_id: OutputId,
    withdraw_amount: u64,
) -> (r: Result<CheckingAccountActions, CheckingAccountError>)
    ensures
        match r {
            Ok(actions) => {
                &&& withdraw_fault(outputs@, output_id@, withdraw_amount) is None
                &&& actions.script_version == TransactionVersion::V2
                &&& replaces_account(
                    actions.actions@,
                    outputs[position_of(outputs@, output_id@)],
                    difference(
                        outputs[position_of(outputs@, output_id@)]@.values,
                        lovelace(withdraw_amount),
                    ),
                    residue(
                        outputs[position_of(outputs@, output_id@)].held().entries(),
                        lovelace(withdraw_amount),
                    ),
                )
            },
            Err(e) => withdraw_fault(outputs@, output_id@, withdraw_amount) == Some(e@),
        },
{
    let output = match take_output(outputs, &output_id) {
        Some(output) => output,
        None => {
            return Err(CheckingAccountError::OutputNotFound(output_id));
        },
    };
    let new_datum = match output.datum() {
        Some(datum) => datum.clone(),
        None => {
            return Err(CheckingAccountError::OutputNotFound(output_id));
        },
    };
    let new_value = match without_lovelace(output.values(), withdraw_amount) {
        Err(_) => {
            return Err(CheckingAccountError::Arithmetic);
        },
        Ok(None) => {
            return Err(CheckingAccountError::OutputNotFound(output_id));
        },
        Ok(Some(left)) => left,
    };
    let address = native_script_address(NETWORK, "checking_account_validator.spend");
    let actions = TxActions::v2().with_script_redeem(
        output,
        (),
        CheckingAccountValidators::CheckingAccount,
    ).with_script_init(new_datum, new_value, address);
    Ok(actions)
}

/// What taking `withdraw_amount` out of the account named `id` gives: actions
/// that replace an account of that name by one with that much less, or an
/// error of the lookup or of the endpoint.
pub open spec fn account_drawn(
    id: OutputIdView,
    withdraw_amount: u64,
    r: SCLogicResult<CheckingAccountActions>,
) -> bool {
    match r {
        Ok(actions) => exists|account: Output<CheckingAccountDatums>|
            account@.id == id && #[trigger] replaces_account(
                actions.actions@,
                account,
                difference(account@.values, lovelace(withdraw_amount)),
                residue(account.held().entries(), lovelace(withdraw_amount)),
            ),
        Err(e) => e is Lookup || e is Endpoint,
    }
}

/// What taking `withdraw_amount` out of the account named `id` gives, given
/// what the ledger client told of the outputs at the script of the accounts.
/// Where the client failed, the error of the lookup with the text of the
/// client's error; where nothing can be taken out, the error of the endpoint
/// that says why; else the actions that replace the first output of that name
/// by one with that much less.
pub open spec fn draws_given(
    told: Told,
    id: OutputIdView,
    withdraw_amount: u64,
    r: SCLogicResult<CheckingAccountActions>,
) -> bool {
    match told {
        Err(e) => r matches Err(SCLogicError::Lookup(text)) && text@ == LedgerClientError::text_of(
            e@,
        ),
        Ok(outputs) => match withdraw_fault(outputs@, id, withdraw_amount) {
            Some(fault) => r matches Err(SCLogicError::Endpoint(text)) && text@
                == CheckingAccountError::text_of(fault),
            None => {
                &&& r matches Ok(actions)
                &&& actions.script_version == TransactionVersion::V2
                &&& replaces_account(
                    actions.actions@,
                    outputs[position_of(outputs@, id)],
                    difference(
                        outputs[position_of(outputs@, id)]@.values,
                        lovelace(withdraw_amount),
                    ),
                    residue(
                        outputs[position_of(outputs@, id)].held().entries(),
                        lovelace(withdraw_amount),
                    ),
                )
            },
        },
    }
}

/// The actions that take `amount` out of the account named `output_id`. The
/// ledger client is asked for the outputs at the script of the accounts; what
/// it tells decides.
pub fn withdraw_from_account<LC: LedgerClient<
        CheckingAccountDatums,
        (),
        CheckingAccountValidators,
        CheckingAccountPolicies,
    >>(
    ledger_client: &LC,
    output_id: OutputId,
    amount: u64,
) -> (r: SCLogicResult<CheckingAccountActions>)
    ensures
        account_drawn(output_id@, amount, r),
        exists|told: Told|
            (asked(ledger_client).all_outputs)(account_address(), told) && #[trigger] draws_given(
                told,
                output_id@,
                amount,
                r,
            ),
{
    let address = native_script_address(NETWORK, "checking_account_validator.spend");
    let answer = ledger_client.all_outputs_at_address(&address);
    let ghost told = answer;
    let outputs = match answer {
        Ok(outputs) => outputs,
        Err(e) => {
            let r = Err(SCLogicError::Lookup(e.message()));
            assert(draws_given(told, output_id@, amount, r));
            return r;
        },
    };
    proof {
        lemma_position_of(outputs@, output_id@);
    }
    let r = match withdraw_from_account_actions(outputs, output_id, amount) {
        Ok(actions) => Ok(actions),
        Err(e) => Err(SCLogicError::Endpoint(e.message())),
    };
    assert(draws_given(told, output_id@, amount, r));
    r
}


/// Why nothing can be pulled. The first of these counts: no allowance is
/// named `allow_id`; no account is named `account_id`; the allowance carries
/// no datum, or not that of an allowance; the time of the next pull cannot be
/// moved on by a period; the account carries no datum; it holds less than
/// `pulled`; or nothing would be left in it.
pub open spec fn pull_fault(
    allowances: Seq<Output<CheckingAccountDatums>>,
    accounts: Seq<Output<CheckingAccountDatums>>,
    allow_id: OutputIdView,
    account_id: OutputIdView,
    pulled: u64,
) -> Option<CheckingAccountFault> {
    let a = position_of(allowances, allow_id);
    let b = position_of(accounts, account_id);
    if a >= allowances.len() {
        Some(CheckingAccountFault::OutputNotFound(allow_id))
    } else if b >= accounts.len() {
        Some(CheckingAccountFault::OutputNotFound(account_id))
    } else {
        match allowances[a]@.datum {
            None => Some(CheckingAccountFault::OutputNotFound(allow_id)),
            Some(datum) => match datum@ {
                DatumsView::CheckingAccount(_) => Some(
                    CheckingAccountFault::DatumNotFoundForOutput(allow_id),
                ),
                DatumsView::AllowedPuller(old) => if !(i64::MIN <= old.next_pull + old.period
                    <= i64::MAX) {
                    Some(CheckingAccountFault::AmountTooLarge)
                } else if accounts[b]@.datum is None {
                    Some(CheckingAccountFault::OutputNotFound(account_id))
                } else if amount(accounts[b]@.values, AssetId::Lovelace) < pulled {
                    Some(CheckingAccountFault::Arithmetic)
                } else if difference(accounts[b]@.values, lovelace(pulled)) == Map::<
                    AssetId,
                    u64,
                >::empty() {
                    Some(CheckingAccountFault::OutputNotFound(account_id))
                } else {
                    None
                },
            },
        }
    }
}

/// Whether `actions` pull `pulled` from `account` under `allowance`: the
/// allowance is redeemed and renewed, with the time of the next pull moved on
/// by one period; the account is redeemed and replaced by one that holds
/// `pulled` less; and the transaction is valid from the new time of the next
/// pull on.
pub open spec fn pulls(
    actions: Seq<CheckingAccountAction>,
    allowance: Output<CheckingAccountDatums>,
    account: Output<CheckingAccountDatums>,
    pulled: u64,
) -> bool {
    &&& actions.len() == 5
    &&& allowance@.datum matches Some(allowed)
    &&& allowed@ matches DatumsView::AllowedPuller(old)
    &&& account@.datum matches Some(account_datum)
    &&& actions[0] == (CheckingAccountAction::RedeemScriptOutput {
        output: allowance,
        redeemer: (),
        script: CheckingAccountValidators::Pull,
    })
    &&& actions[1] matches Action::InitScript { datum, values, address }
    &&& datum@ == DatumsView::AllowedPuller(after_pull(old))
    &&& values@ == allowance@.values
    &&& values.entries() == allowance.held().entries()
    &&& address@ == pull_address()
    &&& actions[2] == (CheckingAccountAction::RedeemScriptOutput {
        output: account,
        redeemer: (),
        script: CheckingAccountValidators::CheckingAccount,
    })
    &&& actions[3] matches Action::InitScript { datum, values, address }
    &&& datum@ == account_datum@
    &&& values@ == difference(account@.values, lovelace(pulled))
    &&& values.entries() == residue(account.held().entries(), lovelace(pulled))
    &&& address@ == account_address()
    &&& actions[4] == (CheckingAccountAction::ValidRange {
        lower: Some((old.next_pull + old.period) as i64),
        upper: None,
    })
}

/// The actions that pull `amount` from the account named
/// `checking_account_output_id` under the allowance named
/// `allow_pull_output_id`. `allowances` are the outputs at the script of the
/// allowances, `accounts` those at the script of the accounts.
pub fn pull_from_account_actions(
    allowances: Vec<Output<CheckingAccountDatums>>,
    accounts: Vec<Output<CheckingAccountDatums>>,
    allow_pull_output_id: OutputId,
    checking_account_output_id: OutputId,
    amount: u64,
) -> (r: Result<CheckingAccountActions, CheckingAccountError>)
    ensures
        match r {
            Ok(actions) => {
                &&& pull_fault(
                    allowances@,
                    accounts@,
                    allow_pull_output_id@,
                    checking_account_output_id@,
                    amount,
                ) is None
                &&& actions.script_version == TransactionVersion::V2
                &&& pulls(
                    actions.actions@,
                    allowances[position_of(allowances@, allow_pull_output_id@)],
                    accounts[position_of(accounts@, checking_account_output_id@)],
                    amount,
                )
            },
            Err(e) => pull_fault(
                allowances@,
                accounts@,
                allow_pull_output_id@,
                checking_account_output_id@,
                amount,
            ) == Some(e@),
        },
{
    let allow_pull_output = match take_output(allowances, &allow_pull_output_id) {
        Some(output) => output,
        None => {
            return Err(CheckingAccountError::OutputNotFound(allow_pull_output_id));
        },
    };
    let checking_account_output = match take_output(accounts, &checking_account_output_id) {
        Some(output) => output,
        None => {
            return Err(CheckingAccountError::OutputNotFound(checking_account_output_id));
        },
    };
    let old_allow_pull_datum = match allow_pull_output.datum() {
        Some(datum) => datum,
        None => {
            return Err(CheckingAccountError::OutputNotFound(allow_pull_output_id));
        },
    };
    let (new_allow_pull_datum, next_pull_date) = match old_allow_pull_datum {
        CheckingAccountDatums::AllowedPuller(old_allowed_puller) => {
            let next_pull = match old_allowed_puller.next_pull.checked_add(
                old_allowed_puller.period,
            ) {
                Some(time) => time,
                None => {
                    return Err(CheckingAccountError::AmountTooLarge);
                },
            };
            (
                CheckingAccountDatums::AllowedPuller(old_allowed_puller.renewed(next_pull)),
                next_pull,
            )
        },
        CheckingAccountDatums::CheckingAccount(_) => {
            return Err(CheckingAccountError::DatumNotFoundForOutput(allow_pull_output_id));
        },
    };
    let allow_pull_value = allow_pull_output.values().clone();
    let new_checking_account_datum = match checking_account_output.datum() {
        Some(datum) => datum.clone(),
        None => {
            return Err(CheckingAccountError::OutputNotFound(checking_account_output_id));
        },
    };
    let new_account_value = match without_lovelace(checking_account_output.values(), amount) {
        Err(_) => {
            return Err(CheckingAccountError::Arithmetic);
        },
        Ok(None) => {
            return Err(CheckingAccountError::OutputNotFound(checking_account_output_id));
        },
        Ok(Some(left)) => left,
    };
    let allow_pull_address = native_script_address(NETWORK, "pull_validator.spend");
    let checking_account_address = native_script_address(
        NETWORK,
        "checking_account_validator.spend",
    );
    let actions = TxActions::v2().with_script_redeem(
        allow_pull_output,
        (),
        CheckingAccountValidators::Pull,
    ).with_script_init(new_allow_pull_datum, allow_pull_value, allow_pull_address)
        .with_script_redeem(
        checking_account_output,
        (),
        CheckingAccountValidators::CheckingAccount,
    ).with_script_init(new_checking_account_datum, new_account_value, checking_account_address)
        .with_valid_range(Some(next_pull_date), None);
    Ok(actions)
}

/// What pulling `pulled` from the account named `account_id` under the
/// allowance named `allow_id` gives: actions that pull that much from an
/// account of that name under an allowance of that name, or an error of the
/// lookup or of the endpoint.
pub open spec fn account_pulled(
    allow_id: OutputIdView,
    account_id: OutputIdView,
    pulled: u64,
    r: SCLogicResult<CheckingAccountActions>,
) -> bool {
    match r {
        Ok(actions) => exists|
            allowance: Output<CheckingAccountDatums>,
            account: Output<CheckingAccountDatums>,
        |
            allowance@.id == allow_id && account@.id == account_id && #[trigger] pulls(
                actions.actions@,
                allowance,
                account,
                pulled,
            ),
        Err(e) => e is Lookup || e is Endpoint,
    }
}

/// What pulling `pulled` from the account named `account_id` under the
/// allowance named `allow_id` gives, given what the ledger client told of the
/// outputs at the script of the allowances and, if it was asked, of those at
/// the script of the accounts. Where the client failed, the error of the
/// lookup with the text of the client's error; where no allowance has that
/// name, the error of the endpoint that says so, and the client is not asked
/// again; where nothing can be pulled, the error of the endpoint that says
/// why; else the actions that pull that much from the first account of that
/// name under the first allowance of that name.
pub open spec fn pulls_given(
    told_allowances: Told,
    told_accounts: Option<Told>,
    allow_id: OutputIdView,
    account_id: OutputIdView,
    pulled: u64,
    r: SCLogicResult<CheckingAccountActions>,
) -> bool {
    match told_allowances {
        Err(e) => r matches Err(SCLogicError::Lookup(text)) && text@ == LedgerClientError::text_of(
            e@,
        ),
        Ok(allowances) => if position_of(allowances@, allow_id) >= allowances.len() {
            r matches Err(SCLogicError::Endpoint(text)) && text@ == CheckingAccountError::text_of(
                CheckingAccountFault::OutputNotFound(allow_id),
            )
        } else {
            match told_accounts {
                None => false,
                Some(Err(e)) => r matches Err(SCLogicError::Lookup(text)) && text@
                    == LedgerClientError::text_of(e@),
                Some(Ok(accounts)) => match pull_fault(
                    allowances@,
                    accounts@,
                    allow_id,
                    account_id,
                    pulled,
                ) {
                    Some(fault) => r matches Err(SCLogicError::Endpoint(text)) && text@
                        == CheckingAccountError::text_of(fault),
                    None => {
                        &&& r matches Ok(actions)
                        &&& actions.script_version == TransactionVersion::V2
                        &&& pulls(
                            actions.actions@,
                            allowances[position_of(allowances@, allow_id)],
                            accounts[position_of(accounts@, account_id)],
                            pulled,
                        )
                    },
                },
            }
        },
    }
}

/// Whether the ledger client told `told_allowances` of the outputs at the
/// script of the allowances and, where one of them is named `allow_id`,
/// `told_accounts` of those at the script of the accounts.
pub open spec fn told_of_scripts(
    promises: Promises<CheckingAccountDatums>,
    allow_id: OutputIdView,
    told_allowances: Told,
    told_accounts: Option<Told>,
) -> bool {
    &&& (promises.all_outputs)(pull_address(), told_allowances)
    &&& (told_allowances matches Ok(allowances) && position_of(allowances@, allow_id)
        < allowances.len()) ==> (told_accounts matches Some(told) && (promises.all_outputs)(
        account_address(),
        told,
    ))
}

/// The actions that pull `amount` from an account under an allowance. The
/// ledger client is asked for the outputs at the script of the allowances
/// and, where the allowance is among them, for those at the script of the
/// accounts; what it tells decides.
pub fn pull_from_account<LC: LedgerClient<
        CheckingAccountDatums,
        (),
        CheckingAccountValidators,
        CheckingAccountPolicies,
    >>(
    ledger_client: &LC,
    allow_pull_output_id: OutputId,
    checking_account_output_id: OutputId,
    amount: u64,
) -> (r: SCLogicResult<CheckingAccountActions>)
    ensures
        account_pulled(allow_pull_output_id@, checking_account_output_id@, amount, r),
        exists|told_allowances: Told, told_accounts: Option<Told>|
            told_of_scripts(asked(ledger_client), allow_pull_output_id@, told_allowances, told_accounts)
                && #[trigger] pulls_given(
                told_allowances,
                told_accounts,
                allow_pull_output_id@,
                checking_account_output_id@,
                amount,
                r,
            ),
{
    let allow_pull_address = native_script_address(NETWORK, "pull_validator.spend");
    let answer = ledger_client.all_outputs_at_address(&allow_pull_address);
    let ghost told_allowances = answer;
    let allowances = match answer {
        Ok(outputs) => outputs,
        Err(e) => {
            let r = Err(SCLogicError::Lookup(e.message()));
            assert(told_of_scripts(
                asked(ledger_client),
                allow_pull_output_id@,
                told_allowances,
                None,
            ) && pulls_given(
                told_allowances,
                None,
                allow_pull_output_id@,
                checking_account_output_id@,
                amount,
                r,
            ));
            return r;
        },
    };
    proof {
        lemma_position_of(allowances@, allow_pull_output_id@);
    }
    if find_output(&allowances, &allow_pull_output_id) >= allowances.len() {
        let r = Err(
            SCLogicError::Endpoint(
                CheckingAccountError::OutputNotFound(allow_pull_output_id).message(),
            ),
        );
        assert(told_of_scripts(
            asked(ledger_client),
            allow_pull_output_id@,
            told_allowances,
            None,
        ) && pulls_given(
            told_allowances,
            None,
            allow_pull_output_id@,
            checking_account_output_id@,
            amount,
            r,
        ));
        return r;
    }
    let checking_account_address = native_script_address(
        NETWORK,
        "checking_account_validator.spend",
    );
    let answer = ledger_client.all_outputs_at_address(&checking_account_address);
    let ghost told_accounts = Some(answer);
    let accounts = match answer {
        Ok(outputs) => outputs,
        Err(e) => {
            let r = Err(SCLogicError::Lookup(e.message()));
            assert(told_of_scripts(
                asked(ledger_client),
                allow_pull_output_id@,
                told_allowances,
                told_accounts,
            ) && pulls_given(
                told_allowances,
                told_accounts,
                allow_pull_output_id@,
                checking_account_output_id@,
                amount,
                r,
            ));
            return r;
        },
    };
    proof {
        lemma_position_of(allowances@, allow_pull_output_id@);
        lemma_position_of(accounts@, checking_account_output_id@);
    }
    let r = match pull_from_account_actions(
        allowances,
        accounts,
        allow_pull_output_id,
        checking_account_output_id,
        amount,
    ) {
        Ok(actions) => Ok(actions),
        Err(e) => Err(SCLogicError::Endpoint(e.message())),
    };
    assert(told_of_scripts(
                asked(ledger_client),
                allow_pull_output_id@,
                told_allowances,
                told_accounts,
            ) && pulls_given(
        told_allowances,
        told_accounts,
        allow_pull_output_id@,
        checking_account_output_id@,
        amount,
        r,
    ));
    r
}

impl SCLogic for CheckingAccountLogic {
    type Endpoints = CheckingAccountEndpoints;

    type Lookups = ();

    type LookupResponses = ();

    type Datums = CheckingAccountDatums;

    type Redeemers = ();

    type Validators = CheckingAccountValidators;

    type Policies = CheckingAccountPolicies;

    open spec fn handled(
        endpoint: CheckingAccountEndpoints,
        promises: Promises<CheckingAccountDatums>,
        r: SCLogicResult<CheckingAccountActions>,
    ) -> bool {
        match endpoint {
            CheckingAccountEndpoints::InitAccount { starting_lovelace } => account_opened(
                starting_lovelace,
                r,
            ) && exists|
                signer: LedgerClientResult<Address>,
                selected: Option<SCLogicResult<Output<CheckingAccountDatums>>>,
            |
                told_of_payer(promises, signer, selected) && #[trigger] opens_given(
                    signer,
                    selected,
                    starting_lovelace,
                    r,
                ),
            CheckingAccountEndpoints::AddPuller {
                checking_account_nft,
                checking_account_address,
                puller,
                amount_lovelace,
                period,
                next_pull,
            } => puller_added(
                checking_account_nft@,
                checking_account_address@,
                puller@,
                amount_lovelace,
                period,
                next_pull,
                r,
            ) && exists|signer: LedgerClientResult<Address>|
                (promises.signer)(signer) && #[trigger] adds_given(
                    signer,
                    checking_account_nft@,
                    checking_account_address@,
                    puller@,
                    amount_lovelace,
                    period,
                    next_pull,
                    r,
                ),
            CheckingAccountEndpoints::RemovePuller { output_id } => puller_removed(output_id@, r)
                && exists|told: Told|
                (promises.all_outputs)(pull_address(), told) && #[trigger] removes_given(
                    told,
                    output_id@,
                    r,
                ),
            CheckingAccountEndpoints::FundAccount { output_id, fund_amount } => account_funded(
                output_id@,
                fund_amount,
                r,
            ) && exists|told: Told|
                (promises.all_outputs)(account_address(), told) && #[trigger] funds_given(
                    told,
                    output_id@,
                    fund_amount,
                    r,
                ),
            CheckingAccountEndpoints::WithdrawFromAccount { output_id, withdraw_amount } => {
                account_drawn(output_id@, withdraw_amount, r) && exists|told: Told|
                    (promises.all_outputs)(account_address(), told) && #[trigger] draws_given(
                        told,
                        output_id@,
                        withdraw_amount,
                        r,
                    )
            },
            CheckingAccountEndpoints::PullFromCheckingAccount {
                allow_pull_output_id,
                checking_account_output_id,
                amount,
            } => account_pulled(allow_pull_output_id@, checking_account_output_id@, amount, r)
                && exists|told_allowances: Told, told_accounts: Option<Told>|
                told_of_scripts(promises, allow_pull_output_id@, told_allowances, told_accounts)
                    && #[trigger] pulls_given(
                    told_allowances,
                    told_accounts,
                    allow_pull_output_id@,
                    checking_account_output_id@,
                    amount,
                    r,
                ),
        }
    }

    fn handle_endpoint<LC: LedgerClient<
        CheckingAccountDatums,
        (),
        CheckingAccountValidators,
        CheckingAccountPolicies,
    >>(
        endpoint: CheckingAccountEndpoints,
        ledger_client: &LC,
    ) -> (r: SCLogicResult<CheckingAccountActions>) {
        match endpoint {
            CheckingAccountEndpoints::InitAccount { starting_lovelace } => init_account(
                ledger_client,
                starting_lovelace,
            ),
            CheckingAccountEndpoints::AddPuller {
                checking_account_nft,
                checking_account_address,
                puller,
                amount_lovelace,
                period,
                next_pull,
            } => add_puller(
                ledger_client,
                checking_account_nft,
                checking_account_address,
                puller,
                amount_lovelace,
                period,
                next_pull,
            ),
            CheckingAccountEndpoints::RemovePuller { output_id } => remove_puller(
                ledger_client,
                output_id,
            ),
            CheckingAccountEndpoints::FundAccount { output_id, fund_amount } => fund_account(
                ledger_client,
                output_id,
                fund_amount,
            ),
            CheckingAccountEndpoints::WithdrawFromAccount { output_id, withdraw_amount } => {
                withdraw_from_account(ledger_client, output_id, withdraw_amount)
            },
            CheckingAccountEndpoints::PullFromCheckingAccount {
                allow_pull_output_id,
                checking_account_output_id,
                amount,
            } => pull_from_account(
                ledger_client,
                allow_pull_output_id,
                checking_account_output_id,
                amount,
            ),
        }
    }

    open spec fn answered(
        query: (),
        promises: Promises<CheckingAccountDatums>,
        r: SCLogicResult<()>,
    ) -> bool {
        r matches Err(SCLogicError::Lookup(text)) && text@
            == "The checking account answers no lookups"@
    }

    fn lookup<LC: LedgerClient<
        CheckingAccountDatums,
        (),
        CheckingAccountValidators,
        CheckingAccountPolicies,
    >>(query: (), ledger_client: &LC) -> (r:
        SCLogicResult<()>) {
        Err(SCLogicError::Lookup("The checking account answers no lookups".to_owned()))
    }
}

} // verus!
