//! An escrow: an amount is locked for a receiver, who alone can claim it.
use crate::address::{Address, AddressView, AssetId, PaymentCredential, PolicyId};
use crate::backend::selection::position_of;
use crate::ledger_client::{
    promises_of, LedgerClient, LedgerClientError, LedgerClientResult, Promises,
};
use crate::logic::{take_output, SCLogic, SCLogicError, SCLogicResult};
use crate::backend::balance::{distinct_unbuilt, total};
use crate::ledger_client::test_ledger_client::{
    lemma_accepted_outputs_are_created, lemma_accepted_redemption_was_permitted,
    lemma_value_is_conserved, submitted, tx_hash_of, TestLedgerClient,
};
use crate::output::{Output, OutputId, OutputIdView};
use crate::scripts::context::{pub_key_hash_from_address_if_available, TxContext, TxContextView};
use crate::scripts::raw_validator_script::plutus_data::{
    term_of_address, wrap_with_constr, Outcome, PlutusData, Term,
};
use crate::scripts::{
    native_address, native_script_address, NoPolicy, ScriptError, ScriptResult, ToPlutusData,
    ValidatorCode,
};
use crate::smart_contract::hit;
use crate::transaction::{Action, Parts, TransactionVersion, TxActions, TxId};
use crate::values::Values;
use vstd::prelude::*;

verus! {

/// The network on which the contract lives.
pub const NETWORK: u8 = 0;

/// The logic of the contract.
#[derive(Debug, Clone, Copy, PartialEq, Eq, Structural)]
pub struct EscrowContract;

/// What the contract can be asked to do.
#[derive(Debug)]
pub enum EscrowEndpoint {
    /// Lock `amount` of the base currency for `receiver`.
    Escrow { amount: u64, receiver: Address },
    /// Claim the output named `output_id`.
    Claim { output_id: OutputId },
}

/// What an escrow output carries: who may claim it.
#[derive(Debug, PartialEq, Eq)]
pub struct EscrowDatum {
    pub receiver: Address,
}

impl Clone for EscrowDatum {
    fn clone(&self) -> (r: Self)
        ensures
            r.receiver@ == self.receiver@,
    {
        EscrowDatum { receiver: self.receiver.clone() }
    }
}

impl EscrowDatum {
    /// Who may claim the output.
    pub fn receiver(&self) -> (r: &Address)
        ensures
            *r == self.receiver,
    {
        &self.receiver
    }
}

impl ToPlutusData for EscrowDatum {
    open spec fn term(&self) -> Outcome {
        match term_of_address(self.receiver@) {
            Ok(address) => Ok(Term::Constr(0, seq![address])),
            Err(e) => Err(e),
        }
    }

    fn to_plutus_data(&self) -> (r: ScriptResult<PlutusData>) {
        match PlutusData::from_address(&self.receiver) {
            Ok(address) => Ok(wrap_with_constr(0, address)),
            Err(e) => Err(e),
        }
    }
}

/// What the contract itself can find wrong.
#[derive(Debug, PartialEq, Eq)]
pub enum EscrowContractError {
    /// The script holds no output of that name.
    OutputNotFound(OutputId),
}

impl EscrowContractError {
    /// The text of the error that no output is named `id`.
    pub open spec fn not_found_text(id: OutputIdView) -> Seq<char> {
        "Output with ID "@ + OutputId::text_of(id) + " not found."@
    }

    /// The text of the error.
    pub fn message(&self) -> (r: String)
        ensures
            self matches EscrowContractError::OutputNotFound(id) && r@ == Self::not_found_text(
                id@,
            ),
    {
        match self {
            EscrowContractError::OutputNotFound(id) => "Output with ID ".to_owned().concat(
                id.text().as_str(),
            ).concat(" not found."),
        }
    }
}

/// The script of the contract: it permits the spending of an output to the
/// receiver that the datum names, and to no one else.
#[derive(Debug, Clone, Copy, PartialEq, Eq, Structural)]
pub struct EscrowValidatorScript;

impl ValidatorCode<EscrowDatum, ()> for EscrowValidatorScript {
    open spec fn permits(&self, datum: EscrowDatum, redeemer: (), ctx: TxContextView) -> bool {
        datum.receiver@.payment == PaymentCredential::Key(ctx.signer)
    }

    fn execute(&self, datum: &EscrowDatum, redeemer: &(), ctx: &TxContext) -> (r: ScriptResult<()>)
        ensures
            r matches Err(e) ==> e@ == crate::scripts::ScriptFault::FailedToExecute(
                "Signer doesn't match receiver"@,
            ),
    {
        let permitted = match pub_key_hash_from_address_if_available(&datum.receiver) {
            Some(receiver) => receiver == ctx.signer,
            None => false,
        };
        if permitted {
            Ok(())
        } else {
            Err(ScriptError::FailedToExecute("Signer doesn't match receiver".to_owned()))
        }
    }

    open spec fn refuses(
        &self,
        datum: EscrowDatum,
        redeemer: (),
        ctx: TxContextView,
        fault: crate::scripts::ScriptFault,
    ) -> bool {
        fault == crate::scripts::ScriptFault::FailedToExecute("Signer doesn't match receiver"@)
    }

    open spec fn address_on(&self, network: u8) -> Option<AddressView> {
        Some(native_address(network, "escrow validator"@))
    }

    fn address(&self, network: u8) -> (r: ScriptResult<Address>) {
        Ok(native_script_address(network, "escrow validator"))
    }
}

/// The actions of the contract.
pub type EscrowActions = TxActions<EscrowDatum, (), EscrowValidatorScript, NoPolicy>;

impl SCLogic for EscrowContract {
    type Endpoints = EscrowEndpoint;

    type Lookups = ();

    type LookupResponses = Vec<Output<EscrowDatum>>;

    type Datums = EscrowDatum;

    type Redeemers = ();

    type Validators = EscrowValidatorScript;

    type Policies = NoPolicy;

    open spec fn handled(
        endpoint: EscrowEndpoint,
        promises: Promises<EscrowDatum>,
        r: SCLogicResult<EscrowActions>,
    ) -> bool {
        match endpoint {
            EscrowEndpoint::Escrow { amount, receiver } => escrows(amount, receiver, r),
            EscrowEndpoint::Claim { output_id } => claims(output_id@, r) && exists|
                told: LedgerClientResult<Vec<Output<EscrowDatum>>>,
            |
                (promises.all_outputs)(script_address(), told) && #[trigger] claims_given(
                    told,
                    output_id@,
                    r,
                ),
        }
    }

    fn handle_endpoint<LC: LedgerClient<EscrowDatum, (), EscrowValidatorScript, NoPolicy>>(
        endpoint: EscrowEndpoint,
        ledger_client: &LC,
    ) -> (r: SCLogicResult<EscrowActions>) {
        match endpoint {
            EscrowEndpoint::Escrow { amount, receiver } => escrow(amount, receiver),
            EscrowEndpoint::Claim { output_id } => {
                let r = claim(&output_id, ledger_client);
                proof {
                    let told = choose|told: LedgerClientResult<Vec<Output<EscrowDatum>>>|
                        ledger_client.tells_all_outputs(script_address(), told)
                            && #[trigger] claims_given(told, output_id@, r);
                    assert((promises_of::<EscrowDatum, (), EscrowValidatorScript, NoPolicy, LC>(
                        *ledger_client,
                    ).all_outputs)(script_address(), told));
                }
                r
            },
        }
    }

    open spec fn answered(
        query: (),
        promises: Promises<EscrowDatum>,
        r: SCLogicResult<Vec<Output<EscrowDatum>>>,
    ) -> bool {
        exists|told: LedgerClientResult<Vec<Output<EscrowDatum>>>|
            (promises.all_outputs)(script_address(), told) && #[trigger] lists_given(told, r)
    }

    fn lookup<LC: LedgerClient<EscrowDatum, (), EscrowValidatorScript, NoPolicy>>(
        query: (),
        ledger_client: &LC,
    ) -> (r: SCLogicResult<Vec<Output<EscrowDatum>>>) {
        let address = native_script_address(NETWORK, "escrow validator");
        let answer = ledger_client.all_outputs_at_address(&address);
        let ghost told = answer;
        let r = match answer {
            Ok(outputs) => Ok(outputs),
            Err(e) => Err(SCLogicError::Lookup(e.message())),
        };
        proof {
            assert(lists_given(told, r));
            assert((promises_of::<EscrowDatum, (), EscrowValidatorScript, NoPolicy, LC>(
                *ledger_client,
            ).all_outputs)(script_address(), told));
        }
        r
    }
}

/// What listing the outputs at the script gives, given what the ledger client
/// told of them: where the client failed, the error of the lookup with the
/// text of the client's error; else the outputs that it told of.
pub open spec fn lists_given(
    told: LedgerClientResult<Vec<Output<EscrowDatum>>>,
    r: SCLogicResult<Vec<Output<EscrowDatum>>>,
) -> bool {
    match told {
        Err(e) => r matches Err(SCLogicError::Lookup(text)) && text@ == LedgerClientError::text_of(
            e@,
        ),
        Ok(outputs) => r matches Ok(found) && found == outputs,
    }
}

/// What locking `amount` for `receiver` gives: one output at the script, with
/// the receiver as its datum; never an error.
pub open spec fn escrows(amount: u64, receiver: Address, r: SCLogicResult<EscrowActions>) -> bool {
    &&& r matches Ok(actions)
    &&& actions.script_version == TransactionVersion::V2
    &&& actions.actions@.len() == 1
    &&& actions.actions@[0] matches Action::InitScript { datum, values, address }
    &&& datum.receiver == receiver
    &&& values@ == Map::<AssetId, u64>::empty().insert(AssetId::Lovelace, amount)
    &&& values.entries() == seq![(AssetId::Lovelace, amount)]
    &&& address@ == native_address(NETWORK, "escrow validator"@)
}

/// What claiming the output named `id` gives: the redemption of an output of
/// that name, or the error of the lookup.
pub open spec fn claims(id: crate::output::OutputIdView, r: SCLogicResult<EscrowActions>) -> bool {
    match r {
        Ok(actions) => {
            &&& actions.script_version == TransactionVersion::V2
            &&& actions.actions@.len() == 1
            &&& actions.actions@[0] matches Action::RedeemScriptOutput { output, .. }
            &&& output@.id == id
        },
        Err(e) => e is Lookup,
    }
}

/// The actions that lock `amount` of the base currency for `receiver`: one
/// output at the script, with the receiver as its datum.
pub fn escrow(amount: u64, receiver: Address) -> (r: SCLogicResult<EscrowActions>)
    ensures
        escrows(amount, receiver, r),
{
    let address = native_script_address(NETWORK, "escrow validator");
    let datum = EscrowDatum { receiver };
    let mut values = Values::default();
    values.add_one_value(&PolicyId::Lovelace, amount);
    let u_tx = TxActions::v2().with_script_init(datum, values, address);
    Ok(u_tx)
}

/// The first of `outputs` that is named `id`.
pub fn lookup_output_among(outputs: Vec<Output<EscrowDatum>>, id: &OutputId) -> (r: Result<
    Output<EscrowDatum>,
    EscrowContractError,
>)
    ensures
        match r {
            Ok(output) => position_of(outputs@, id@) < outputs.len() && output
                == outputs[position_of(outputs@, id@)],
            Err(e) => {
                &&& position_of(outputs@, id@) == outputs.len()
                &&& e matches EscrowContractError::OutputNotFound(missing)
                &&& missing@ == id@
            },
        },
{
    match take_output(outputs, id) {
        Some(output) => Ok(output),
        None => Err(EscrowContractError::OutputNotFound(id.clone())),
    }
}

/// The address of the script of the contract.
pub open spec fn script_address() -> AddressView {
    native_address(NETWORK, "escrow validator"@)
}

/// What looking for the output named `id` gives, given what the ledger client
/// told of the outputs at the script: where the client failed, the error of
/// the lookup with the text of the client's error; where it told of no output
/// of that name, the error of the lookup that says so; else the first output
/// of that name.
pub open spec fn found_given(
    told: LedgerClientResult<Vec<Output<EscrowDatum>>>,
    id: crate::output::OutputIdView,
    r: SCLogicResult<Output<EscrowDatum>>,
) -> bool {
    match told {
        Err(e) => r matches Err(SCLogicError::Lookup(text)) && text@ == LedgerClientError::text_of(
            e@,
        ),
        Ok(outputs) => if position_of(outputs@, id) < outputs.len() {
            r matches Ok(output) && output == outputs[position_of(outputs@, id)]
        } else {
            r matches Err(SCLogicError::Lookup(text)) && text@
                == EscrowContractError::not_found_text(id)
        },
    }
}

/// The output named `id` at the script. The ledger client is asked for the
/// outputs at the script; what it tells decides.
pub fn lookup_output<LC: LedgerClient<EscrowDatum, (), EscrowValidatorScript, NoPolicy>>(
    id: &OutputId,
    ledger_client: &LC,
) -> (r: SCLogicResult<Output<EscrowDatum>>)
    ensures
        match r {
            Ok(output) => output@.id == id@,
            Err(e) => e is Lookup,
        },
        exists|told: LedgerClientResult<Vec<Output<EscrowDatum>>>|
            ledger_client.tells_all_outputs(script_address(), told) && #[trigger] found_given(
                told,
                id@,
                r,
            ),
{
    let script_address = native_script_address(NETWORK, "escrow validator");
    let answer = ledger_client.all_outputs_at_address(&script_address);
    let ghost told = answer;
    let outputs = match answer {
        Ok(outputs) => outputs,
        Err(e) => {
            let r = Err(SCLogicError::Lookup(e.message()));
            assert(found_given(told, id@, r));
            return r;
        },
    };
    proof {
        crate::backend::selection::lemma_position_of(outputs@, id@);
    }
    let r = match lookup_output_among(outputs, id) {
        Ok(output) => Ok(output),
        Err(e) => Err(SCLogicError::Lookup(e.message())),
    };
    assert(found_given(told, id@, r));
    r
}

/// What claiming the output named `id` gives, given what the ledger client
/// told of the outputs at the script: where no such output is found, the
/// error of looking for it; else its redemption under the script.
pub open spec fn claims_given(
    told: LedgerClientResult<Vec<Output<EscrowDatum>>>,
    id: crate::output::OutputIdView,
    r: SCLogicResult<EscrowActions>,
) -> bool {
    match r {
        Err(e) => found_given(told, id, Err(e)),
        Ok(actions) => {
            &&& actions.script_version == TransactionVersion::V2
            &&& actions.actions@.len() == 1
            &&& actions.actions@[0] matches Action::RedeemScriptOutput { output, redeemer, script }
            &&& found_given(told, id, Ok(output))
        },
    }
}

/// The actions that claim the output named `output_id`: redeem it under the
/// script. The ledger client is asked for the outputs at the script; what it
/// tells decides.
pub fn claim<LC: LedgerClient<EscrowDatum, (), EscrowValidatorScript, NoPolicy>>(
    output_id: &OutputId,
    ledger_client: &LC,
) -> (r: SCLogicResult<EscrowActions>)
    ensures
        claims(output_id@, r),
        exists|told: LedgerClientResult<Vec<Output<EscrowDatum>>>|
            ledger_client.tells_all_outputs(script_address(), told) && #[trigger] claims_given(
                told,
                output_id@,
                r,
            ),
{
    let found = lookup_output(output_id, ledger_client);
    let ghost told = choose|told: LedgerClientResult<Vec<Output<EscrowDatum>>>|
        ledger_client.tells_all_outputs(script_address(), told) && #[trigger] found_given(
            told,
            output_id@,
            found,
        );
    let output = match found {
        Ok(output) => output,
        Err(e) => {
            let r = Err(e);
            assert(claims_given(told, output_id@, r));
            return r;
        },
    };
    let u_tx = TxActions::v2().with_script_redeem(output, (), EscrowValidatorScript);
    let r = Ok(u_tx);
    assert(claims_given(told, output_id@, r));
    r
}

/// A lock that the ledger in memory accepts is there afterwards: the first
/// output that the transaction created is at the script, holds the amount,
/// and names the receiver.
pub proof fn lemma_accepted_lock_is_held(
    amount: u64,
    receiver: Address,
    before: TestLedgerClient<EscrowDatum, ()>,
    after: TestLedgerClient<EscrowDatum, ()>,
    id: TxId,
)
    requires
        hit::<EscrowContract, TestLedgerClient<EscrowDatum, ()>>(
            EscrowEndpoint::Escrow { amount, receiver },
            before,
            after,
            Ok(id),
        ),
    ensures
        exists|i: int|
            0 <= i < after@.outputs.len() && {
                let created = #[trigger] after@.outputs[i];
                &&& created@.id == (OutputIdView {
                    tx_hash: tx_hash_of(before@.next_tx),
                    index: 0,
                })
                &&& created@.owner == script_address()
                &&& created@.values == Map::<AssetId, u64>::empty().insert(
                    AssetId::Lovelace,
                    amount,
                )
                &&& created@.datum matches Some(datum) && datum.receiver == receiver
            },
{
    let promises = crate::smart_contract::promised::<
        EscrowContract,
        TestLedgerClient<EscrowDatum, ()>,
    >(before);
    let actions = choose|actions: EscrowActions| #[trigger]
        EscrowContract::handled(
            EscrowEndpoint::Escrow { amount, receiver },
            promises,
            Ok(actions),
        ) && before.issued(Parts::none().with_all(actions.actions@), &after, Ok(id));
    let asked = actions.actions@;
    let start = Parts::<EscrowDatum, (), EscrowValidatorScript, NoPolicy>::none();
    let parts = start.with_all(asked);
    assert(parts == start.with(asked[0])) by {
        assert(asked.drop_first().len() == 0);
        assert(start.with(asked[0]).with_all(asked.drop_first()) == start.with(asked[0]));
    }
    assert(parts.unbuilt_outputs.len() == 1);
    assert(submitted(before@, parts, after@, Ok(id)));
    lemma_accepted_outputs_are_created(before@, parts, after@, id, 0);
}

/// No one but the receiver claims. Where the ledger in memory accepts a
/// claim, it held an output of that name, which is gone afterwards; and where
/// a script guarded that output, the signer is the receiver that its datum
/// names.
pub proof fn lemma_only_the_receiver_claims(
    output_id: OutputId,
    before: TestLedgerClient<EscrowDatum, ()>,
    after: TestLedgerClient<EscrowDatum, ()>,
    id: TxId,
)
    requires
        before@.well_formed(),
        hit::<EscrowContract, TestLedgerClient<EscrowDatum, ()>>(
            EscrowEndpoint::Claim { output_id },
            before,
            after,
            Ok(id),
        ),
    ensures
        ({
            let at = position_of(before@.outputs, output_id@);
            &&& 0 <= at < before@.outputs.len()
            &&& !after@.holds(output_id@)
            &&& before@.outputs[at]@.owner.is_script() ==> (before@.outputs[at]@.datum matches Some(
                datum,
            ) && datum.receiver@.payment == before@.signer.payment)
        }),
{
    let promises = crate::smart_contract::promised::<
        EscrowContract,
        TestLedgerClient<EscrowDatum, ()>,
    >(before);
    let actions = choose|actions: EscrowActions| #[trigger]
        EscrowContract::handled(EscrowEndpoint::Claim { output_id }, promises, Ok(actions))
            && before.issued(Parts::none().with_all(actions.actions@), &after, Ok(id));
    let asked = actions.actions@;
    let start = Parts::<EscrowDatum, (), EscrowValidatorScript, NoPolicy>::none();
    let parts = start.with_all(asked);
    assert(parts == start.with(asked[0])) by {
        assert(asked.drop_first().len() == 0);
        assert(start.with(asked[0]).with_all(asked.drop_first()) == start.with(asked[0]));
    }
    assert(parts.script_inputs.len() == 1);
    assert(parts.script_inputs[0].0@.id == output_id@);
    assert(submitted(before@, parts, after@, Ok(id)));
    before.lemma_countable();
    lemma_accepted_redemption_was_permitted(before@, parts, after@, id, 0);
    let at = position_of(before@.outputs, output_id@);
    crate::backend::selection::lemma_position_of(before@.outputs, output_id@);
    assert(before@.outputs[at]@.id == output_id@);
    if before@.outputs[at]@.owner.is_script() {
        let stored = before@.outputs[at]@.datum->0;
        let ctx = choose|ctx: TxContextView|
            ctx.signer == before@.signer.payment->Key_0
                && #[trigger] parts.script_inputs[0].2.permits(
                stored,
                parts.script_inputs[0].1,
                ctx,
            );
        assert(stored.receiver@.payment == PaymentCredential::Key(ctx.signer));
    }
}

/// The escrow creates and destroys nothing. After an endpoint that the ledger
/// in memory accepts, its outputs hold of every asset what they held before:
/// what is locked leaves the wallet of the signer, and what is claimed goes
/// to it.
pub proof fn lemma_escrow_conserves_value(
    endpoint: EscrowEndpoint,
    before: TestLedgerClient<EscrowDatum, ()>,
    after: TestLedgerClient<EscrowDatum, ()>,
    id: TxId,
    asset: AssetId,
)
    requires
        before@.well_formed(),
        hit::<EscrowContract, TestLedgerClient<EscrowDatum, ()>>(endpoint, before, after, Ok(id)),
    ensures
        total(after@.outputs, asset) == total(before@.outputs, asset),
{
    let promises = crate::smart_contract::promised::<
        EscrowContract,
        TestLedgerClient<EscrowDatum, ()>,
    >(before);
    let actions = choose|actions: EscrowActions| #[trigger]
        EscrowContract::handled(endpoint, promises, Ok(actions)) && before.issued(
            Parts::none().with_all(actions.actions@),
            &after,
            Ok(id),
        );
    let asked = actions.actions@;
    let start = Parts::<EscrowDatum, (), EscrowValidatorScript, NoPolicy>::none();
    let parts = start.with_all(asked);
    assert(asked.len() == 1);
    assert(parts == start.with(asked[0])) by {
        assert(asked.drop_first().len() == 0);
        assert(start.with(asked[0]).with_all(asked.drop_first()) == start.with(asked[0]));
    }
    assert(parts.minting.len() == 0);
    assert(distinct_unbuilt(parts.unbuilt_outputs)) by {
        assert forall|k: int| 0 <= k < parts.unbuilt_outputs.len() implies (
        #[trigger] parts.unbuilt_outputs[k]).held().distinct() by {
            assert(parts.unbuilt_outputs[k].held().entries().len() == 1);
        }
    }
    assert(submitted(before@, parts, after@, Ok(id)));
    before.lemma_countable();
    lemma_value_is_conserved(before@, parts, after@, id, asset);
}

} // verus!
