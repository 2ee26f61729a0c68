//! A guessing game: an amount is locked under the hash of a secret, and
//! whoever knows the secret can claim it.
use crate::address::{Address, AddressView, AssetId, PolicyId};
use crate::backend::selection::{lemma_position_of, position_of};
use crate::bytes::{bytes_eq, clone_bytes, to_vec};
use crate::ledger_client::{
    promises_of, LedgerClient, LedgerClientError, LedgerClientResult, Promises,
};
use crate::logic::{take_output, SCLogic, SCLogicError, SCLogicResult};
use crate::output::{Output, OutputId};
use crate::sample_dapps::always_succeeds_contract::first_outputs;
use crate::scripts::context::{TxContext, TxContextView};
use crate::scripts::raw_validator_script::plutus_data::{Outcome, PlutusData, Term};
use crate::scripts::{
    native_address, native_script_address, NoPolicy, ScriptError, ScriptFault, ScriptResult,
    ToPlutusData, ValidatorCode,
};
use crate::transaction::{Action, TransactionVersion, TxActions};
use crate::values::Values;
use vstd::prelude::*;
use vstd::utf8::encode_utf8;

verus! {

/// The network on which the contract lives.
pub const NETWORK: u8 = 0;

/// The SHA-256 digest of a byte string, as the `sha2` crate computes it.
pub uninterp spec fn sha256_digest(data: Seq<u8>) -> Seq<u8>;

/// Calls `sha2::Sha256::digest`. The contract claims that the outcome is a
/// function of the bytes.
#[verifier::external_body]
fn sha256(data: &[u8]) -> (r: Vec<u8>)
    ensures
        r@ == sha256_digest(data@),
{
    <sha2::Sha256 as sha2::Digest>::digest(data).to_vec()
}

/// The hash of a secret.
#[derive(Debug, PartialEq, Eq)]
pub struct HashedString {
    pub inner: Vec<u8>,
}

impl Clone for HashedString {
    fn clone(&self) -> (r: Self)
        ensures
            r.inner@ == self.inner@,
    {
        HashedString { inner: clone_bytes(&self.inner) }
    }
}

impl HashedString {
    /// The hash of `unhashed`.
    pub fn new(unhashed: &str) -> (r: Self)
        ensures
            r.inner@ == sha256_digest(encode_utf8(unhashed@)),
    {
        HashedString { inner: sha256(unhashed.as_bytes()) }
    }
}

impl ToPlutusData for HashedString {
    open spec fn term(&self) -> Outcome {
        Ok(Term::Bytes(self.inner@))
    }

    fn to_plutus_data(&self) -> (r: ScriptResult<PlutusData>) {
        Ok(PlutusData::BoundedBytes(clone_bytes(&self.inner)))
    }
}

/// A guess at a secret.
#[derive(Debug, PartialEq, Eq)]
pub struct ClearString {
    pub inner: String,
}

impl ClearString {
    /// The guess `inner`.
    pub fn new(inner: &str) -> (r: Self)
        ensures
            r.inner@ == inner@,
    {
        ClearString { inner: inner.to_owned() }
    }
}

impl ToPlutusData for ClearString {
    open spec fn term(&self) -> Outcome {
        Ok(Term::Bytes(encode_utf8(self.inner@)))
    }

    fn to_plutus_data(&self) -> (r: ScriptResult<PlutusData>) {
        Ok(PlutusData::BoundedBytes(to_vec(self.inner.as_str().as_bytes())))
    }
}

/// The script of the game: it permits the spending of an output to whoever
/// gives the secret whose hash the output carries.
#[derive(Debug, Clone, Copy, PartialEq, Eq, Structural)]
pub struct GameValidator;

impl ValidatorCode<HashedString, ClearString> for GameValidator {
    open spec fn permits(&self, datum: HashedString, redeemer: ClearString, ctx: TxContextView)
        -> bool {
        sha256_digest(encode_utf8(redeemer.inner@)) == datum.inner@
    }

    fn execute(&self, datum: &HashedString, redeemer: &ClearString, ctx: &TxContext) -> (r:
        ScriptResult<()>)
        ensures
            r matches Err(e) ==> e@ == ScriptFault::FailedToExecute("The guess is wrong"@),
    {
        let guessed = sha256(redeemer.inner.as_str().as_bytes());
        if bytes_eq(&guessed, &datum.inner) {
            Ok(())
        } else {
            Err(ScriptError::FailedToExecute("The guess is wrong".to_owned()))
        }
    }

    open spec fn refuses(
        &self,
        datum: HashedString,
        redeemer: ClearString,
        ctx: TxContextView,
        fault: ScriptFault,
    ) -> bool {
        fault == ScriptFault::FailedToExecute("The guess is wrong"@)
    }

    open spec fn address_on(&self, network: u8) -> Option<AddressView> {
        Some(native_address(network, "game.spend"@))
    }

    fn address(&self, network: u8) -> (r: ScriptResult<Address>) {
        Ok(native_script_address(network, "game.spend"))
    }
}

/// The script of the game.
pub fn get_script() -> (r: ScriptResult<GameValidator>)
    ensures
        r is Ok,
{
    Ok(GameValidator)
}

/// The logic of the game.
#[derive(Debug, Clone, Copy, PartialEq, Eq, Structural)]
pub struct GameLogic;

/// What the game can be asked to do.
#[derive(Debug)]
pub enum GameEndpoints {
    /// Lock `amount` of the base currency under the hash of `secret`.
    Lock { amount: u64, secret: String },
    /// Claim the output named `output_id` with `guess`.
    Guess { output_id: OutputId, guess: String },
}

/// What the game can be asked about.
#[derive(Debug)]
pub enum GameLookups {
    /// The outputs at the script, at most `count` of them.
    ListActiveContracts { count: usize },
}

/// The answers of the game.
#[derive(Debug)]
pub enum GameLookupResponses {
    ActiveContracts(Vec<Output<HashedString>>),
}

/// What the game itself can find wrong.
#[derive(Debug, PartialEq, Eq)]
pub enum GameSucceedsError {
    /// The script holds no output of that name.
    OutputNotFound(OutputId),
}

impl GameSucceedsError {
    /// The text of the error that no output is named `id`.
    pub open spec fn not_found_text(id: crate::output::OutputIdView) -> Seq<char> {
        "Could not find an output with id: "@ + OutputId::text_of(id)
    }

    /// The text of the error.
    pub fn message(&self) -> (r: String)
        ensures
            self matches GameSucceedsError::OutputNotFound(id) && r@ == Self::not_found_text(id@),
    {
        match self {
            GameSucceedsError::OutputNotFound(id) => "Could not find an output with id: ".to_owned()
                .concat(id.text().as_str()),
        }
    }
}

/// The actions of the game.
pub type GameActions = TxActions<HashedString, ClearString, GameValidator, NoPolicy>;

impl SCLogic for GameLogic {
    type Endpoints = GameEndpoints;

    type Lookups = GameLookups;

    type LookupResponses = GameLookupResponses;

    type Datums = HashedString;

    type Redeemers = ClearString;

    type Validators = GameValidator;

    type Policies = NoPolicy;

    open spec fn handled(
        endpoint: GameEndpoints,
        promises: Promises<HashedString>,
        r: SCLogicResult<GameActions>,
    ) -> bool {
        match endpoint {
            GameEndpoints::Lock { amount, secret } => locks(amount, secret@, r),
            GameEndpoints::Guess { output_id, guess } => guesses(output_id@, guess@, r)
                && exists|told: LedgerClientResult<Vec<Output<HashedString>>>|
                (promises.all_outputs)(script_address(), told) && #[trigger] guesses_given(
                    told,
                    output_id@,
                    guess@,
                    r,
                ),
        }
    }

    fn handle_endpoint<LC: LedgerClient<HashedString, ClearString, GameValidator, NoPolicy>>(
        endpoint: GameEndpoints,
        ledger_client: &LC,
    ) -> (r: SCLogicResult<GameActions>) {
        match endpoint {
            GameEndpoints::Lock { amount, secret } => impl_lock(amount, secret.as_str()),
            GameEndpoints::Guess { output_id, guess } => {
                let ghost id = output_id@;
                let r = impl_guess(ledger_client, output_id, guess.as_str());
                proof {
                    let told = choose|told: LedgerClientResult<Vec<Output<HashedString>>>|
                        ledger_client.tells_all_outputs(script_address(), told)
                            && #[trigger] guesses_given(told, id, guess@, r);
                    assert((promises_of::<HashedString, ClearString, GameValidator, NoPolicy, LC>(
                        *ledger_client,
                    ).all_outputs)(script_address(), told));
                }
                r
            },
        }
    }

    open spec fn answered(
        query: GameLookups,
        promises: Promises<HashedString>,
        r: SCLogicResult<GameLookupResponses>,
    ) -> bool {
        match query {
            GameLookups::ListActiveContracts { count } => lists(count, r) && exists|
                told: LedgerClientResult<Vec<Output<HashedString>>>,
            |
                (promises.outputs)(script_address(), count, told) && #[trigger] lists_given(
                    told,
                    count,
                    r,
                ),
        }
    }

    fn lookup<LC: LedgerClient<HashedString, ClearString, GameValidator, NoPolicy>>(
        query: GameLookups,
        ledger_client: &LC,
    ) -> (r: SCLogicResult<GameLookupResponses>) {
        match query {
            GameLookups::ListActiveContracts { count } => {
                let r = impl_list_active_contracts(ledger_client, count);
                proof {
                    let told = choose|told: LedgerClientResult<Vec<Output<HashedString>>>|
                        ledger_client.tells_outputs(script_address(), count, told)
                            && #[trigger] lists_given(told, count, r);
                    assert((promises_of::<HashedString, ClearString, GameValidator, NoPolicy, LC>(
                        *ledger_client,
                    ).outputs)(script_address(), count, told));
                }
                r
            },
        }
    }
}

/// What locking `amount` under `secret` gives: one output at the script, with
/// the hash of the secret as its datum; never an error.
pub open spec fn locks(amount: u64, secret: Seq<char>, r: SCLogicResult<GameActions>) -> bool {
    &&& r matches Ok(actions)
    &&& actions.script_version == TransactionVersion::V2
    &&& actions.actions@.len() == 1
    &&& actions.actions@[0] matches Action::InitScript { datum, values, address }
    &&& datum.inner@ == sha256_digest(encode_utf8(secret))
    &&& values@ == Map::<AssetId, u64>::empty().insert(AssetId::Lovelace, amount)
    &&& values.entries() == seq![(AssetId::Lovelace, amount)]
    &&& address@ == native_address(NETWORK, "game.spend"@)
}

/// What claiming the output named `id` with `guess` gives: the redemption of
/// an output of that name with the guess as redeemer, or an error: of the
/// lookup where the ledger client failed, of the endpoint where it named no
/// such output at the script.
pub open spec fn guesses(
    id: crate::output::OutputIdView,
    guess: Seq<char>,
    r: SCLogicResult<GameActions>,
) -> bool {
    match r {
        Ok(actions) => {
            &&& actions.script_version == TransactionVersion::V2
            &&& actions.actions@.len() == 1
            &&& actions.actions@[0] matches Action::RedeemScriptOutput { output, redeemer, script }
            &&& output@.id == id
            &&& redeemer.inner@ == guess
        },
        Err(e) => e is Lookup || (e matches SCLogicError::Endpoint(text) && text@
            == GameSucceedsError::not_found_text(id)),
    }
}

/// What listing at most `count` outputs gives: no more than that, or the
/// error of the lookup.
pub open spec fn lists(count: usize, r: SCLogicResult<GameLookupResponses>) -> bool {
    match r {
        Ok(GameLookupResponses::ActiveContracts(outputs)) => outputs.len() <= count,
        Err(e) => e is Lookup,
    }
}

/// The actions that lock `amount` of the base currency under the hash of
/// `secret`: one output at the script, with the hash as its datum.
pub fn impl_lock(amount: u64, secret: &str) -> (r: SCLogicResult<GameActions>)
    ensures
        locks(amount, secret@, r),
{
    let mut values = Values::default();
    values.add_one_value(&PolicyId::Lovelace, amount);
    let address = native_script_address(NETWORK, "game.spend");
    let hashed_string = HashedString::new(secret);
    let tx_actions = TxActions::v2().with_script_init(hashed_string, values, address);
    Ok(tx_actions)
}

/// The actions that claim the output named `output_id` among `outputs`, which
/// are those at the script, with `guess`: redeem it, if it is there.
pub fn guess_actions(outputs: Vec<Output<HashedString>>, output_id: OutputId, guess: &str) -> (r:
    Result<GameActions, GameSucceedsError>)
    ensures
        match r {
            Ok(actions) => {
                &&& position_of(outputs@, output_id@) < outputs.len()
                &&& actions.script_version == TransactionVersion::V2
                &&& actions.actions@.len() == 1
                &&& actions.actions@[0] matches Action::RedeemScriptOutput {
                    output,
                    redeemer,
                    script,
                }
                &&& output == outputs[position_of(outputs@, output_id@)]
                &&& redeemer.inner@ == guess@
            },
            Err(e) => {
                &&& position_of(outputs@, output_id@) == outputs.len()
                &&& e == GameSucceedsError::OutputNotFound(output_id)
            },
        },
{
    match take_output(outputs, &output_id) {
        Some(output) => {
            let redeemer = ClearString::new(guess);
            Ok(TxActions::v2().with_script_redeem(output, redeemer, GameValidator))
        },
        None => Err(GameSucceedsError::OutputNotFound(output_id)),
    }
}

/// The address of the script of the game.
pub open spec fn script_address() -> AddressView {
    native_address(NETWORK, "game.spend"@)
}

/// What claiming the output named `id` with `guess` gives, given what the
/// ledger client told of the outputs at the script. Where the client failed,
/// the error of the lookup with the text of the client's error; where it told
/// of no output of that name, the error of the endpoint; else the redemption
/// of the first output of that name, with the guess as redeemer.
pub open spec fn guesses_given(
    told: LedgerClientResult<Vec<Output<HashedString>>>,
    id: crate::output::OutputIdView,
    guess: Seq<char>,
    r: SCLogicResult<GameActions>,
) -> bool {
    match told {
        Err(e) => r matches Err(SCLogicError::Lookup(text)) && text@ == LedgerClientError::text_of(
            e@,
        ),
        Ok(outputs) => if position_of(outputs@, id) < outputs.len() {
            &&& r matches Ok(actions)
            &&& actions.script_version == TransactionVersion::V2
            &&& actions.actions@.len() == 1
            &&& actions.actions@[0] matches Action::RedeemScriptOutput { output, redeemer, script }
            &&& output == outputs[position_of(outputs@, id)]
            &&& redeemer.inner@ == guess
        } else {
            r matches Err(SCLogicError::Endpoint(text)) && text@
                == GameSucceedsError::not_found_text(id)
        },
    }
}

/// The actions that claim the output named `output_id` with `guess`. The
/// ledger client is asked for the outputs at the script; what it tells
/// decides.
pub fn impl_guess<LC: LedgerClient<HashedString, ClearString, GameValidator, NoPolicy>>(
    ledger_client: &LC,
    output_id: OutputId,
    guess: &str,
) -> (r: SCLogicResult<GameActions>)
    ensures
        guesses(output_id@, guess@, r),
        exists|told: LedgerClientResult<Vec<Output<HashedString>>>|
            ledger_client.tells_all_outputs(script_address(), told) && #[trigger] guesses_given(
                told,
                output_id@,
                guess@,
                r,
            ),
{
    let address = native_script_address(NETWORK, "game.spend");
    let answer = ledger_client.all_outputs_at_address(&address);
    let ghost told = answer;
    let outputs = match answer {
        Ok(outputs) => outputs,
        Err(e) => {
            let r = Err(SCLogicError::Lookup(e.message()));
            assert(guesses_given(told, output_id@, guess@, r));
            return r;
        },
    };
    proof {
        lemma_position_of(outputs@, output_id@);
    }
    let r = match guess_actions(outputs, output_id, guess) {
        Ok(actions) => Ok(actions),
        Err(e) => Err(SCLogicError::Endpoint(e.message())),
    };
    assert(guesses_given(told, output_id@, guess@, r));
    r
}

/// What listing at most `count` outputs gives, given what the ledger client
/// told of the outputs at the script: where the client failed, the error of
/// the lookup with the text of the client's error; else the first `count` of
/// the outputs that it told of.
pub open spec fn lists_given(
    told: LedgerClientResult<Vec<Output<HashedString>>>,
    count: usize,
    r: SCLogicResult<GameLookupResponses>,
) -> bool {
    match told {
        Err(e) => r matches Err(SCLogicError::Lookup(text)) && text@ == LedgerClientError::text_of(
            e@,
        ),
        Ok(outputs) => r matches Ok(GameLookupResponses::ActiveContracts(subset)) && subset@
            == outputs@.take(
            if count <= outputs.len() {
                count as int
            } else {
                outputs.len() as int
            },
        ),
    }
}

/// The outputs at the script, at most `count` of them. The ledger client is
/// asked for them; what it tells decides.
pub fn impl_list_active_contracts<
    LC: LedgerClient<HashedString, ClearString, GameValidator, NoPolicy>,
>(
    ledger_client: &LC,
    count: usize,
) -> (r: SCLogicResult<GameLookupResponses>)
    ensures
        lists(count, r),
        exists|told: LedgerClientResult<Vec<Output<HashedString>>>|
            ledger_client.tells_outputs(script_address(), count, told) && #[trigger] lists_given(
                told,
                count,
                r,
            ),
{
    let address = native_script_address(NETWORK, "game.spend");
    let answer = ledger_client.outputs_at_address(&address, count);
    let ghost told = answer;
    let outputs = match answer {
        Ok(outputs) => outputs,
        Err(e) => {
            let r = Err(SCLogicError::Lookup(e.message()));
            assert(lists_given(told, count, r));
            return r;
        },
    };
    let subset = first_outputs(outputs, count);
    let r = Ok(GameLookupResponses::ActiveContracts(subset));
    assert(lists_given(told, count, r));
    r
}

} // verus!
