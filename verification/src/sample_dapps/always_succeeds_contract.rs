//! A contract whose script permits everything: lock an amount, and claim it
//! back.
use crate::address::{Address, AddressView, AssetId, PolicyId};
use crate::backend::selection::position_of;
use crate::ledger_client::{
    promises_of, LedgerClient, LedgerClientError, LedgerClientResult, Promises,
};
use crate::logic::{take_output, SCLogic, SCLogicError, SCLogicResult};
use crate::output::{Output, OutputId};
use crate::scripts::context::{TxContext, TxContextView};
use crate::scripts::{
    native_address, native_script_address, NoPolicy, ScriptResult, ValidatorCode,
};
use crate::transaction::{Action, TransactionVersion, TxActions};
use crate::values::Values;
use vstd::prelude::*;

verus! {

/// The network on which the contract lives.
pub const NETWORK: u8 = 0;

/// The logic of the contract.
#[derive(Debug, Clone, Copy, PartialEq, Eq, Structural)]
pub struct AlwaysSucceedsLogic;

/// What the contract can be asked to do.
#[derive(Debug)]
pub enum AlwaysSucceedsEndpoints {
    /// Lock `amount` of the base currency under the script.
    Lock { amount: u64 },
    /// Claim the output named `output_id` from the script.
    Claim { output_id: OutputId },
}

/// What the contract can be asked about.
#[derive(Debug)]
pub enum AlwaysSucceedsLookups {
    /// The outputs at the script, at most `count` of them.
    ListActiveContracts { count: usize },
}

/// The answers of the contract.
#[derive(Debug)]
pub enum AlwaysSucceedsLookupResponses {
    ActiveContracts(Vec<Output<()>>),
}

/// What the contract itself can find wrong.
#[derive(Debug, PartialEq, Eq)]
pub enum AlwaysSucceedsError {
    /// The script holds no output of that name.
    OutputNotFound(OutputId),
}

impl AlwaysSucceedsError {
    /// The text of the error that no output is named `id`.
    pub open spec fn not_found_text(id: crate::output::OutputIdView) -> Seq<char> {
        "Could not find an output with id: "@ + OutputId::text_of(id)
    }

    /// The text of the error.
    pub fn message(&self) -> (r: String)
        ensures
            self matches AlwaysSucceedsError::OutputNotFound(id) && r@ == Self::not_found_text(id@),
    {
        match self {
            AlwaysSucceedsError::OutputNotFound(id) => "Could not find an output with id: ".to_owned()
                .concat(id.text().as_str()),
        }
    }
}

/// The script of the contract: it permits every spending.
#[derive(Debug, Clone, Copy, PartialEq, Eq, Structural)]
pub struct AlwaysSucceedsScript;

impl<Datum, Redeemer> ValidatorCode<Datum, Redeemer> for AlwaysSucceedsScript {
    open spec fn permits(&self, datum: Datum, redeemer: Redeemer, ctx: TxContextView) -> bool {
        true
    }

    fn execute(&self, datum: &Datum, redeemer: &Redeemer, ctx: &TxContext) -> (r: ScriptResult<()>)
    {
        Ok(())
    }

    open spec fn refuses(
        &self,
        datum: Datum,
        redeemer: Redeemer,
        ctx: TxContextView,
        fault: crate::scripts::ScriptFault,
    ) -> bool {
        false
    }

    open spec fn address_on(&self, network: u8) -> Option<AddressView> {
        Some(native_address(network, "always_true.spend"@))
    }

    fn address(&self, network: u8) -> (r: ScriptResult<Address>) {
        Ok(native_script_address(network, "always_true.spend"))
    }
}

/// The script of the contract.
pub fn get_script() -> (r: ScriptResult<AlwaysSucceedsScript>)
    ensures
        r == Ok::<AlwaysSucceedsScript, crate::scripts::ScriptError>(AlwaysSucceedsScript),
{
    Ok(AlwaysSucceedsScript)
}

/// The actions of the contract.
pub type AlwaysSucceedsActions = TxActions<(), (), AlwaysSucceedsScript, NoPolicy>;

impl SCLogic for AlwaysSucceedsLogic {
    type Endpoints = AlwaysSucceedsEndpoints;

    type Lookups = AlwaysSucceedsLookups;

    type LookupResponses = AlwaysSucceedsLookupResponses;

    type Datums = ();

    type Redeemers = ();

    type Validators = AlwaysSucceedsScript;

    type Policies = NoPolicy;

    open spec fn handled(
        endpoint: AlwaysSucceedsEndpoints,
        promises: Promises<()>,
        r: SCLogicResult<AlwaysSucceedsActions>,
    ) -> bool {
        match endpoint {
            AlwaysSucceedsEndpoints::Lock { amount } => r matches Ok(actions) && locks(
                actions,
                amount,
            ),
            AlwaysSucceedsEndpoints::Claim { output_id } => claims(output_id@, r) && exists|
                told: LedgerClientResult<Vec<Output<()>>>,
            |
                (promises.all_outputs)(script_address(), told) && #[trigger] claims_given(
                    told,
                    output_id@,
                    r,
                ),
        }
    }

    fn handle_endpoint<LC: LedgerClient<(), (), AlwaysSucceedsScript, NoPolicy>>(
        endpoint: AlwaysSucceedsEndpoints,
        ledger_client: &LC,
    ) -> (r: SCLogicResult<AlwaysSucceedsActions>) {
        match endpoint {
            AlwaysSucceedsEndpoints::Lock { amount } => impl_lock(amount),
            AlwaysSucceedsEndpoints::Claim { output_id } => {
                let ghost id = output_id@;
                let r = impl_claim(ledger_client, output_id);
                proof {
                    let told = choose|told: LedgerClientResult<Vec<Output<()>>>|
                        ledger_client.tells_all_outputs(script_address(), told)
                            && #[trigger] claims_given(told, id, r);
                    assert((promises_of::<(), (), AlwaysSucceedsScript, NoPolicy, LC>(
                        *ledger_client,
                    ).all_outputs)(script_address(), told));
                }
                r
            },
        }
    }

    open spec fn answered(
        query: AlwaysSucceedsLookups,
        promises: Promises<()>,
        r: SCLogicResult<AlwaysSucceedsLookupResponses>,
    ) -> bool {
        match query {
            AlwaysSucceedsLookups::ListActiveContracts { count } => lists(count, r) && exists|
                told: LedgerClientResult<Vec<Output<()>>>,
            |
                (promises.outputs)(script_address(), count, told) && #[trigger] lists_given(
                    told,
                    count,
                    r,
                ),
        }
    }

    fn lookup<LC: LedgerClient<(), (), AlwaysSucceedsScript, NoPolicy>>(
        query: AlwaysSucceedsLookups,
        ledger_client: &LC,
    ) -> (r: SCLogicResult<AlwaysSucceedsLookupResponses>) {
        match query {
            AlwaysSucceedsLookups::ListActiveContracts { count } => {
                let r = impl_list_active_contracts(ledger_client, count);
                proof {
                    let told = choose|told: LedgerClientResult<Vec<Output<()>>>|
                        ledger_client.tells_outputs(script_address(), count, told)
                            && #[trigger] lists_given(told, count, r);
                    assert((promises_of::<(), (), AlwaysSucceedsScript, NoPolicy, LC>(
                        *ledger_client,
                    ).outputs)(script_address(), count, told));
                }
                r
            },
        }
    }
}

/// Whether `actions` lock `amount` of the base currency under the script.
pub open spec fn locks(actions: AlwaysSucceedsActions, amount: u64) -> bool {
    &&& actions.script_version == TransactionVersion::V2
    &&& actions.actions@.len() == 1
    &&& actions.actions@[0] matches Action::InitScript { datum, values, address }
    &&& values@ == Map::<AssetId, u64>::empty().insert(AssetId::Lovelace, amount)
    &&& values.entries() == seq![(AssetId::Lovelace, amount)]
    &&& address@ == native_address(NETWORK, "always_true.spend"@)
}

/// The actions that lock `amount` of the base currency under the script.
pub fn impl_lock(amount: u64) -> (r: SCLogicResult<AlwaysSucceedsActions>)
    ensures
        r matches Ok(actions) && locks(actions, amount),
{
    let mut values = Values::default();
    values.add_one_value(&PolicyId::Lovelace, amount);
    let script = match get_script() {
        Ok(script) => script,
        Err(e) => {
            return Err(SCLogicError::ValidatorScript(e));
        },
    };
    let address = match ValidatorCode::<(), ()>::address(&script, NETWORK) {
        Ok(address) => address,
        Err(e) => {
            return Err(SCLogicError::ValidatorScript(e));
        },
    };
    let tx_actions = TxActions::v2().with_script_init((), values, address);
    Ok(tx_actions)
}

/// The actions that claim the output named `output_id` among `outputs`, which
/// are those at the script: redeem it, if it is there.
pub fn claim_actions(outputs: Vec<Output<()>>, output_id: OutputId) -> (r: Result<
    AlwaysSucceedsActions,
    AlwaysSucceedsError,
>)
    ensures
        match r {
            Ok(actions) => {
                &&& position_of(outputs@, output_id@) < outputs.len()
                &&& actions.script_version == TransactionVersion::V2
                &&& actions.actions@ == seq![
                    Action::<(), (), AlwaysSucceedsScript, NoPolicy>::RedeemScriptOutput {
                        output: outputs[position_of(outputs@, output_id@)],
                        redeemer: (),
                        script: AlwaysSucceedsScript,
                    },
                ]
            },
            Err(e) => {
                &&& position_of(outputs@, output_id@) == outputs.len()
                &&& e == AlwaysSucceedsError::OutputNotFound(output_id)
            },
        },
{
    match take_output(outputs, &output_id) {
        Some(output) => {
            let tx_actions = TxActions::v2().with_script_redeem(output, (), AlwaysSucceedsScript);
            assert(tx_actions.actions@ =~= seq![
                Action::<(), (), AlwaysSucceedsScript, NoPolicy>::RedeemScriptOutput {
                    output,
                    redeemer: (),
                    script: AlwaysSucceedsScript,
                },
            ]);
            Ok(tx_actions)
        },
        None => Err(AlwaysSucceedsError::OutputNotFound(output_id)),
    }
}

/// What claiming the output named `id` gives: the redemption of an output of
/// that name, or an error: of the lookup where the ledger client failed, of
/// the endpoint where it named no such output at the script.
pub open spec fn claims(id: crate::output::OutputIdView, r: SCLogicResult<AlwaysSucceedsActions>)
    -> bool {
    match r {
        Ok(actions) => {
            &&& actions.script_version == TransactionVersion::V2
            &&& actions.actions@.len() == 1
            &&& actions.actions@[0] matches Action::RedeemScriptOutput { output, .. }
            &&& output@.id == id
        },
        Err(e) => e is Lookup || (e matches SCLogicError::Endpoint(text) && text@
            == AlwaysSucceedsError::not_found_text(id)),
    }
}

/// What claiming the output named `id` gives, given what the ledger client
/// told of the outputs at the script. Where the client failed, the error of the
/// lookup with the text of the client's error; where it told of no output of
/// that name, the error of the endpoint; else the redemption of the first
/// output of that name.
pub open spec fn claims_given(
    told: LedgerClientResult<Vec<Output<()>>>,
    id: crate::output::OutputIdView,
    r: SCLogicResult<AlwaysSucceedsActions>,
) -> bool {
    match told {
        Err(e) => r matches Err(SCLogicError::Lookup(text)) && text@ == LedgerClientError::text_of(
            e@,
        ),
        Ok(outputs) => if position_of(outputs@, id) < outputs.len() {
            &&& r matches Ok(actions)
            &&& actions.script_version == TransactionVersion::V2
            &&& actions.actions@ == seq![
                Action::<(), (), AlwaysSucceedsScript, NoPolicy>::RedeemScriptOutput {
                    output: outputs[position_of(outputs@, id)],
                    redeemer: (),
                    script: AlwaysSucceedsScript,
                },
            ]
        } else {
            r matches Err(SCLogicError::Endpoint(text)) && text@
                == AlwaysSucceedsError::not_found_text(id)
        },
    }
}

/// The address of the script of the contract.
pub open spec fn script_address() -> AddressView {
    native_address(NETWORK, "always_true.spend"@)
}

/// The actions that claim the output named `output_id`. The ledger client
/// is asked for the outputs at the script; what it tells decides.
pub fn impl_claim<LC: LedgerClient<(), (), AlwaysSucceedsScript, NoPolicy>>(
    ledger_client: &LC,
    output_id: OutputId,
) -> (r: SCLogicResult<AlwaysSucceedsActions>)
    ensures
        claims(output_id@, r),
        exists|told: LedgerClientResult<Vec<Output<()>>>|
            ledger_client.tells_all_outputs(script_address(), told) && #[trigger] claims_given(
                told,
                output_id@,
                r,
            ),
{
    let address = native_script_address(NETWORK, "always_true.spend");
    let answer = ledger_client.all_outputs_at_address(&address);
    let ghost told = answer;
    let outputs = match answer {
        Ok(outputs) => outputs,
        Err(e) => {
            let r = Err(SCLogicError::Lookup(e.message()));
            assert(claims_given(told, output_id@, r));
            return r;
        },
    };
    proof {
        crate::backend::selection::lemma_position_of(outputs@, output_id@);
    }
    let r = match claim_actions(outputs, output_id) {
        Ok(actions) => Ok(actions),
        Err(e) => Err(SCLogicError::Endpoint(e.message())),
    };
    assert(claims_given(told, output_id@, r));
    r
}

/// The first `count` of `outputs`.
pub fn first_outputs<Datum>(outputs: Vec<Output<Datum>>, count: usize) -> (r: Vec<Output<Datum>>)
    ensures
        r@ == outputs@.take(
            if count <= outputs.len() {
                count as int
            } else {
                outputs.len() as int
            },
        ),
{
    let mut subset = outputs;
    if count < subset.len() {
        subset.truncate(count);
    } else {
        assert(subset@.take(subset.len() as int) =~= subset@);
    }
    subset
}

/// What listing at most `count` outputs gives: no more than that, or the
/// error of the lookup.
pub open spec fn lists(count: usize, r: SCLogicResult<AlwaysSucceedsLookupResponses>) -> bool {
    match r {
        Ok(AlwaysSucceedsLookupResponses::ActiveContracts(outputs)) => outputs.len() <= count,
        Err(e) => e is Lookup,
    }
}

/// What listing at most `count` outputs gives, given what the ledger client
/// told of the outputs at the script: where the client failed, the error of
/// the lookup with the text of the client's error; else the first `count` of
/// the outputs that it told of.
pub open spec fn lists_given(
    told: LedgerClientResult<Vec<Output<()>>>,
    count: usize,
    r: SCLogicResult<AlwaysSucceedsLookupResponses>,
) -> bool {
    match told {
        Err(e) => r matches Err(SCLogicError::Lookup(text)) && text@ == LedgerClientError::text_of(
            e@,
        ),
        Ok(outputs) => r matches Ok(AlwaysSucceedsLookupResponses::ActiveContracts(subset))
            && subset@ == outputs@.take(
            if count <= outputs.len() {
                count as int
            } else {
                outputs.len() as int
            },
        ),
    }
}

/// The outputs at the script, at most `count` of them. The ledger client is
/// asked for them; what it tells decides.
pub fn impl_list_active_contracts<LC: LedgerClient<(), (), AlwaysSucceedsScript, NoPolicy>>(
    ledger_client: &LC,
    count: usize,
) -> (r: SCLogicResult<AlwaysSucceedsLookupResponses>)
    ensures
        lists(count, r),
        exists|told: LedgerClientResult<Vec<Output<()>>>|
            ledger_client.tells_outputs(script_address(), count, told) && #[trigger] lists_given(
                told,
                count,
                r,
            ),
{
    let address = native_script_address(NETWORK, "always_true.spend");
    let answer = ledger_client.outputs_at_address(&address, count);
    let ghost told = answer;
    let outputs = match answer {
        Ok(outputs) => outputs,
        Err(e) => {
            let r = Err(SCLogicError::Lookup(e.message()));
            assert(lists_given(told, count, r));
            return r;
        },
    };
    let subset = first_outputs(outputs, count);
    let r = Ok(AlwaysSucceedsLookupResponses::ActiveContracts(subset));
    assert(lists_given(told, count, r));
    r
}

} // verus!
