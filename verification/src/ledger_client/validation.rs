//! What the ledger in memory shows to the scripts of a submission, and what
//! it asks of them.
use crate::address::{Address, AddressView, AssetId, PaymentCredential, PolicyId};
use crate::backend::selection::{within, Draft, Entries};
use crate::bytes::{clone_bytes, to_vec};
use crate::hex::hex_decoding;
use crate::ledger_client::{LedgerClientError, LedgerFault};
use crate::model::{lemma_views_push, views};
use crate::output::{Output, UnbuiltOutput};
use crate::scripts::context::{
    held, unbounded, with_amount, ContextBuilder, ContextBuilderView, CtxDatum, CtxOutput,
    CtxOutputView, CtxValue, DatumView, Input, InputView, OutputRef, PubKeyHash, Purpose,
    ValidRange, ValueView,
};
use crate::scripts::{MintingPolicy, ScriptError, ScriptFault, ToPlutusData, ValidatorCode};
use crate::transaction::{MintDetails, Parts, RedemptionDetails, UnbuiltTransaction};
use crate::values::Values;
use vstd::prelude::*;

verus! {

/// The policy id and the asset name under which a script sees an asset. The
/// base currency stands under the empty id and the empty name; a token without
/// a name stands under the empty name.
pub open spec fn naming(asset: AssetId) -> (Seq<char>, Seq<char>) {
    match asset {
        AssetId::Lovelace => (Seq::empty(), Seq::empty()),
        AssetId::NativeToken(id, Some(name)) => (id, name),
        AssetId::NativeToken(id, None) => (id, Seq::empty()),
    }
}

/// `done` with the entries of a value, added one after the other; `None`
/// where a sum is no amount.
pub open spec fn shown_value(entries: Entries, done: ValueView) -> Option<ValueView>
    decreases entries.len(),
{
    if entries.len() == 0 {
        Some(done)
    } else {
        let (policy, name) = naming(entries[0].0);
        if held(done, policy, name) + entries[0].1 <= u64::MAX {
            shown_value(entries.drop_first(), with_amount(done, policy, name, entries[0].1))
        } else {
            None
        }
    }
}

/// The datum of an output as a script sees it: the term of the datum itself.
pub open spec fn shown_datum<Datum: ToPlutusData>(datum: Option<Datum>) -> Result<
    DatumView,
    ScriptFault,
> {
    match datum {
        None => Ok(DatumView::NoDatum),
        Some(datum) => match datum.term() {
            Ok(term) => Ok(DatumView::InlineDatum(term)),
            Err(e) => Err(e),
        },
    }
}

/// An output as a script sees it.
pub open spec fn shown_output<Datum: ToPlutusData>(
    owner: AddressView,
    entries: Entries,
    datum: Option<Datum>,
) -> Result<CtxOutputView, LedgerFault> {
    match shown_value(entries, Seq::empty()) {
        None => Err(LedgerFault::Arithmetic),
        Some(value) => match shown_datum(datum) {
            Err(e) => Err(LedgerFault::ScriptExecution(e)),
            Ok(datum) => Ok(
                CtxOutputView { address: owner, value, datum, reference_script: None },
            ),
        },
    }
}

/// An output that is spent, as a script sees it.
pub open spec fn shown_input<Datum: ToPlutusData>(output: Output<Datum>) -> Result<
    InputView,
    LedgerFault,
> {
    match shown_output(output@.owner, output.held().entries(), output@.datum) {
        Err(e) => Err(e),
        Ok(shown) => Ok(
            InputView {
                reference: OutputRef {
                    transaction_id: output@.id.tx_hash,
                    output_index: output@.id.index,
                },
                output: shown,
            },
        ),
    }
}

/// `done` with the outputs at `places`, added one after the other as a script
/// sees them.
pub open spec fn shown_inputs<Datum: ToPlutusData>(
    outputs: Seq<Output<Datum>>,
    places: Seq<usize>,
    done: Seq<InputView>,
) -> Result<Seq<InputView>, LedgerFault>
    decreases places.len(),
{
    if places.len() == 0 {
        Ok(done)
    } else {
        match shown_input(outputs[places[0] as int]) {
            Err(e) => Err(e),
            Ok(input) => shown_inputs(outputs, places.drop_first(), done.push(input)),
        }
    }
}

/// `done` with the outputs to create, added one after the other as a script
/// sees them.
pub open spec fn shown_outputs<Datum: ToPlutusData>(
    created: Seq<UnbuiltOutput<Datum>>,
    done: Seq<CtxOutputView>,
) -> Result<Seq<CtxOutputView>, LedgerFault>
    decreases created.len(),
{
    if created.len() == 0 {
        Ok(done)
    } else {
        match shown_output(created[0]@.owner, created[0].held().entries(), created[0]@.datum) {
            Err(e) => Err(e),
            Ok(output) => shown_outputs(created.drop_first(), done.push(output)),
        }
    }
}

/// The range of a transaction as a script sees it: from the lower bound on,
/// and before the upper bound.
pub open spec fn shown_range(range: (Option<i64>, Option<i64>)) -> ValidRange {
    ValidRange {
        lower: match range.0 {
            Some(time) => Some((time, true)),
            None => None,
        },
        upper: match range.1 {
            Some(time) => Some((time, false)),
            None => None,
        },
    }
}

/// What every script of a submission is shown, short of its purpose: the
/// signer, the range, the inputs in the order in which they were settled, and
/// the outputs in the order in which they are created, the change last.
pub open spec fn shown<Datum: ToPlutusData, Redeemer, Validator, Policy>(
    outputs: Seq<Output<Datum>>,
    signer: Seq<u8>,
    signer_address: AddressView,
    tx: Parts<Datum, Redeemer, Validator, Policy>,
    draft: Draft,
) -> Result<ContextBuilderView, LedgerFault> {
    match shown_inputs(outputs, draft.inputs, Seq::empty()) {
        Err(e) => Err(e),
        Ok(inputs) => match shown_outputs(tx.unbuilt_outputs, Seq::empty()) {
            Err(e) => Err(e),
            Ok(declared) => if draft.change.len() == 0 {
                Ok(
                    ContextBuilderView {
                        signer,
                        range: shown_range(tx.valid_range),
                        inputs,
                        outputs: declared,
                        extra_signatories: Seq::empty(),
                        datums: Seq::empty(),
                    },
                )
            } else {
                match shown_output::<Datum>(signer_address, draft.change, None) {
                    Err(e) => Err(e),
                    Ok(change) => Ok(
                        ContextBuilderView {
                            signer,
                            range: shown_range(tx.valid_range),
                            inputs,
                            outputs: declared.push(change),
                            extra_signatories: Seq::empty(),
                            datums: Seq::empty(),
                        },
                    ),
                }
            },
        },
    }
}

/// A value as a script sees it.
pub fn show_value(values: &Values) -> (r: Result<CtxValue, LedgerClientError>)
    ensures
        match r {
            Ok(value) => shown_value(values.entries(), Seq::empty()) == Some(value@),
            Err(e) => e@ == LedgerFault::Arithmetic && shown_value(
                values.entries(),
                Seq::empty(),
            ) is None,
        },
{
    let mut value = CtxValue::new();
    let ghost all = values.entries();
    let n = values.len();
    let mut i: usize = 0;
    assert(all.skip(0) =~= all);
    while i < n
        invariant
            i <= n,
            n == all.len(),
            all == values.entries(),
            shown_value(all, Seq::empty()) == shown_value(all.skip(i as int), value@),
        decreases n - i,
    {
        proof {
            assert(all.skip(i as int)[0] == all[i as int]);
            assert(all.skip(i as int).drop_first() =~= all.skip(i + 1));
        }
        let (policy, quantity) = values.entry(i);
        let added = match policy {
            PolicyId::Lovelace => {
                let nothing = String::new();
                value.try_add(nothing.as_str(), nothing.as_str(), quantity)
            },
            PolicyId::NativeToken(id, Some(name)) => value.try_add(
                id.as_str(),
                name.as_str(),
                quantity,
            ),
            PolicyId::NativeToken(id, None) => {
                let nothing = String::new();
                value.try_add(id.as_str(), nothing.as_str(), quantity)
            },
        };
        if !added {
            return Err(LedgerClientError::Arithmetic);
        }
        i += 1;
    }
    assert(all.skip(i as int) =~= Seq::<(AssetId, u64)>::empty());
    Ok(value)
}

/// An output as a script sees it.
pub fn show_output<Datum: ToPlutusData>(owner: &Address, values: &Values, datum: Option<&Datum>)
    -> (r: Result<CtxOutput, LedgerClientError>)
    ensures
        match r {
            Ok(output) => shown_output(
                owner@,
                values.entries(),
                match datum {
                    Some(datum) => Some(*datum),
                    None => None,
                },
            ) == Ok::<CtxOutputView, LedgerFault>(output@),
            Err(e) => shown_output(
                owner@,
                values.entries(),
                match datum {
                    Some(datum) => Some(*datum),
                    None => None,
                },
            ) == Err::<CtxOutputView, LedgerFault>(e@),
        },
{
    let value = match show_value(values) {
        Ok(value) => value,
        Err(e) => {
            return Err(e);
        },
    };
    let datum = match datum {
        None => CtxDatum::NoDatum,
        Some(datum) => match datum.to_plutus_data() {
            Ok(term) => CtxDatum::InlineDatum(term),
            Err(e) => {
                return Err(LedgerClientError::ScriptExecution(e));
            },
        },
    };
    Ok(CtxOutput { address: owner.clone(), value, datum, reference_script: None })
}

/// An output that is spent, as a script sees it.
pub fn show_input<Datum: ToPlutusData>(output: &Output<Datum>) -> (r: Result<
    Input,
    LedgerClientError,
>)
    ensures
        match r {
            Ok(input) => shown_input(*output) == Ok::<InputView, LedgerFault>(input@),
            Err(e) => shown_input(*output) == Err::<InputView, LedgerFault>(e@),
        },
{
    let shown = match show_output(output.owner(), output.values(), output.datum()) {
        Ok(shown) => shown,
        Err(e) => {
            return Err(e);
        },
    };
    let CtxOutput { address, value, datum, reference_script } = shown;
    Ok(
        Input {
            transaction_id: to_vec(output.id().tx_hash()),
            output_index: output.id().index(),
            address,
            value,
            datum,
            reference_script,
        },
    )
}

/// What every script of a submission is shown, short of its purpose.
pub fn show<Datum: ToPlutusData, Redeemer, Validator, Policy>(
    outputs: &Vec<Output<Datum>>,
    signer: PubKeyHash,
    signer_address: &Address,
    tx: &UnbuiltTransaction<Datum, Redeemer, Validator, Policy>,
    inputs: &Vec<usize>,
    change: &Option<Values>,
) -> (r: Result<ContextBuilder, LedgerClientError>)
    requires
        within(inputs@, outputs@),
        change matches Some(left) ==> left.entries().len() > 0,
    ensures
        match r {
            Ok(base) => shown(
                outputs@,
                signer@,
                signer_address@,
                tx@,
                Draft {
                    inputs: inputs@,
                    change: match change {
                        Some(left) => left.entries(),
                        None => Seq::empty(),
                    },
                },
            ) == Ok::<ContextBuilderView, LedgerFault>(base@),
            Err(e) => shown(
                outputs@,
                signer@,
                signer_address@,
                tx@,
                Draft {
                    inputs: inputs@,
                    change: match change {
                        Some(left) => left.entries(),
                        None => Seq::empty(),
                    },
                },
            ) == Err::<ContextBuilderView, LedgerFault>(e@),
        },
{
    let mut shown_in: Vec<Input> = Vec::new();
    let mut i: usize = 0;
    assert(inputs@.skip(0) =~= inputs@);
    assert(views(shown_in@) =~= Seq::<InputView>::empty());
    while i < inputs.len()
        invariant
            i <= inputs.len(),
            within(inputs@, outputs@),
            shown_inputs(outputs@, inputs@, Seq::empty()) == shown_inputs(
                outputs@,
                inputs@.skip(i as int),
                views(shown_in@),
            ),
        decreases inputs.len() - i,
    {
        proof {
            assert(inputs@.skip(i as int)[0] == inputs@[i as int]);
            assert(inputs@.skip(i as int).drop_first() =~= inputs@.skip(i + 1));
        }
        let input = match show_input(&outputs[inputs[i]]) {
            Ok(input) => input,
            Err(e) => {
                return Err(e);
            },
        };
        proof {
            lemma_views_push(shown_in@, input);
        }
        shown_in.push(input);
        i += 1;
    }
    assert(inputs@.skip(i as int) =~= Seq::<usize>::empty());
    let mut shown_out: Vec<CtxOutput> = Vec::new();
    let mut k: usize = 0;
    let ghost created = tx.unbuilt_outputs@;
    assert(created.skip(0) =~= created);
    assert(views(shown_out@) =~= Seq::<CtxOutputView>::empty());
    while k < tx.unbuilt_outputs.len()
        invariant
            k <= tx.unbuilt_outputs.len(),
            created == tx.unbuilt_outputs@,
            shown_inputs(outputs@, inputs@, Seq::empty()) is Ok,
            shown_outputs(created, Seq::empty()) == shown_outputs(
                created.skip(k as int),
                views(shown_out@),
            ),
        decreases tx.unbuilt_outputs.len() - k,
    {
        proof {
            assert(created.skip(k as int)[0] == created[k as int]);
            assert(created.skip(k as int).drop_first() =~= created.skip(k + 1));
        }
        let unbuilt = &tx.unbuilt_outputs[k];
        let output = match show_output(unbuilt.owner(), unbuilt.values(), unbuilt.datum()) {
            Ok(output) => output,
            Err(e) => {
                return Err(e);
            },
        };
        proof {
            lemma_views_push(shown_out@, output);
        }
        shown_out.push(output);
        k += 1;
    }
    assert(created.skip(k as int) =~= Seq::<UnbuiltOutput<Datum>>::empty());
    assert(shown_inputs(outputs@, inputs@, Seq::empty()) == Ok::<Seq<InputView>, LedgerFault>(
        views(shown_in@),
    ));
    assert(shown_outputs(tx@.unbuilt_outputs, Seq::empty()) == Ok::<
        Seq<CtxOutputView>,
        LedgerFault,
    >(views(shown_out@)));
    match change {
        Some(left) => {
            let output = match show_output::<Datum>(signer_address, left, None) {
                Ok(output) => output,
                Err(e) => {
                    return Err(e);
                },
            };
            proof {
                lemma_views_push(shown_out@, output);
            }
            shown_out.push(output);
        },
        None => {},
    }
    let lower = match tx.valid_range.0 {
        Some(time) => Some((time, true)),
        None => None,
    };
    let upper = match tx.valid_range.1 {
        Some(time) => Some((time, false)),
        None => None,
    };
    let base = ContextBuilder {
        signer,
        range: Some(ValidRange { lower, upper }),
        inputs: shown_in,
        outputs: shown_out,
        extra_signatories: Vec::new(),
        datums: Vec::new(),
    };
    assert(base@.extra_signatories =~= Seq::<Seq<u8>>::empty());
    assert(base@.datums =~= Seq::empty());
    Ok(base)
}

/// Whether the script of a redemption permits it. An output that no script
/// guards is spent without asking.
pub open spec fn spend_permitted<Datum, Redeemer, Validator: ValidatorCode<Datum, Redeemer>>(
    stored: Output<Datum>,
    input: RedemptionDetails<Datum, Redeemer, Validator>,
    base: ContextBuilderView,
) -> bool {
    stored@.owner.is_script() ==> stored@.datum is Some && input.2.permits(
        stored@.datum->0,
        input.1,
        base.with_purpose(
            Purpose::Spend(
                OutputRef { transaction_id: stored@.id.tx_hash, output_index: stored@.id.index },
            ),
        ),
    )
}

/// Whether the policy of a minting permits it. A policy whose id is not
/// hexadecimal text permits nothing.
pub open spec fn mint_permitted<Redeemer, Policy: MintingPolicy<Redeemer>>(
    mint: MintDetails<Redeemer, Policy>,
    base: ContextBuilderView,
) -> bool {
    hex_decoding(mint.3.policy_id()) matches Some(policy) && mint.3.permits(
        mint.2,
        base.with_purpose(Purpose::Mint(policy)),
    )
}

/// Whether every script of a submission permits it: the script of each
/// redemption, shown the datum that the ledger holds, and the policy of each
/// minting.
pub open spec fn all_permitted<
    Datum,
    Redeemer,
    Validator: ValidatorCode<Datum, Redeemer>,
    Policy: MintingPolicy<Redeemer>,
>(
    outputs: Seq<Output<Datum>>,
    tx: Parts<Datum, Redeemer, Validator, Policy>,
    inputs: Seq<usize>,
    base: ContextBuilderView,
) -> bool {
    &&& forall|k: int|
        0 <= k < tx.script_inputs.len() ==> spend_permitted(
            outputs[inputs[tx.specific_wallet_inputs.len() + k] as int],
            #[trigger] tx.script_inputs[k],
            base,
        )
    &&& forall|j: int|
        0 <= j < tx.minting.len() ==> mint_permitted(#[trigger] tx.minting[j], base)
}

/// The text of the error of a script output that carries no datum.
pub open spec fn no_datum_text() -> Seq<char> {
    "the output carries no datum to show to its script"@
}

/// Whether the redemption is refused with `fault`: by the ledger, where the
/// output that a script guards carries no datum; else by the script of the
/// redemption, which does not permit it.
pub open spec fn spend_refused<Datum, Redeemer, Validator: ValidatorCode<Datum, Redeemer>>(
    stored: Output<Datum>,
    input: RedemptionDetails<Datum, Redeemer, Validator>,
    base: ContextBuilderView,
    fault: ScriptFault,
) -> bool {
    let ctx = base.with_purpose(
        Purpose::Spend(
            OutputRef { transaction_id: stored@.id.tx_hash, output_index: stored@.id.index },
        ),
    );
    stored@.owner.is_script() && match stored@.datum {
        None => fault == ScriptFault::FailedToExecute(no_datum_text()),
        Some(datum) => !input.2.permits(datum, input.1, ctx) && input.2.refuses(
            datum,
            input.1,
            ctx,
            fault,
        ),
    }
}

/// Whether the minting is refused with `fault`: by the ledger, where the id
/// of the policy is no hexadecimal text; else by the policy, which does not
/// permit it.
pub open spec fn mint_refused<Redeemer, Policy: MintingPolicy<Redeemer>>(
    mint: MintDetails<Redeemer, Policy>,
    base: ContextBuilderView,
    fault: ScriptFault,
) -> bool {
    match hex_decoding(mint.3.policy_id()) {
        None => fault == ScriptFault::InvalidPolicyId(mint.3.policy_id()),
        Some(policy) => !mint.3.permits(mint.2, base.with_purpose(Purpose::Mint(policy)))
            && mint.3.refuses(mint.2, base.with_purpose(Purpose::Mint(policy)), fault),
    }
}

/// Whether the submission is refused with `fault`. The scripts are asked in
/// order, those of the redemptions before the policies of the mintings, and
/// the first that does not permit decides.
pub open spec fn first_refusal<
    Datum,
    Redeemer,
    Validator: ValidatorCode<Datum, Redeemer>,
    Policy: MintingPolicy<Redeemer>,
>(
    outputs: Seq<Output<Datum>>,
    tx: Parts<Datum, Redeemer, Validator, Policy>,
    inputs: Seq<usize>,
    base: ContextBuilderView,
    fault: ScriptFault,
) -> bool {
    let first = tx.specific_wallet_inputs.len();
    ||| exists|k: int|
        {
            &&& 0 <= k < tx.script_inputs.len()
            &&& forall|j: int|
                0 <= j < k ==> spend_permitted(
                    outputs[inputs[first + j] as int],
                    #[trigger] tx.script_inputs[j],
                    base,
                )
            &&& spend_refused(
                outputs[inputs[first + k] as int],
                #[trigger] tx.script_inputs[k],
                base,
                fault,
            )
        }
    ||| {
        &&& forall|j: int|
            0 <= j < tx.script_inputs.len() ==> spend_permitted(
                outputs[inputs[first + j] as int],
                #[trigger] tx.script_inputs[j],
                base,
            )
        &&& exists|k: int|
            {
                &&& 0 <= k < tx.minting.len()
                &&& forall|j: int| 0 <= j < k ==> mint_permitted(#[trigger] tx.minting[j], base)
                &&& mint_refused(#[trigger] tx.minting[k], base, fault)
            }
    }
}

/// Asks every script of a submission, those of the redemptions before the
/// policies of the mintings, and stops at the first that does not permit.
pub fn ask_scripts<
    Datum,
    Redeemer,
    Validator: ValidatorCode<Datum, Redeemer>,
    Policy: MintingPolicy<Redeemer>,
>(
    outputs: &Vec<Output<Datum>>,
    tx: &UnbuiltTransaction<Datum, Redeemer, Validator, Policy>,
    inputs: &Vec<usize>,
    base: &ContextBuilder,
) -> (r: Result<(), LedgerClientError>)
    requires
        within(inputs@, outputs@),
        inputs.len() >= tx.specific_wallet_inputs.len() + tx.script_inputs.len(),
    ensures
        match r {
            Ok(_) => all_permitted(outputs@, tx@, inputs@, base@),
            Err(e) => !all_permitted(outputs@, tx@, inputs@, base@) && (
            e@ matches LedgerFault::ScriptExecution(fault) && first_refusal(
                outputs@,
                tx@,
                inputs@,
                base@,
                fault,
            )),
        },
{
    let first = tx.specific_wallet_inputs.len();
    let mut k: usize = 0;
    while k < tx.script_inputs.len()
        invariant
            k <= tx.script_inputs.len(),
            first == tx.specific_wallet_inputs.len(),
            within(inputs@, outputs@),
            inputs.len() >= first + tx.script_inputs.len(),
            forall|j: int|
                0 <= j < k ==> spend_permitted(
                    outputs@[inputs@[first + j] as int],
                    #[trigger] tx.script_inputs@[j],
                    base@,
                ),
        decreases tx.script_inputs.len() - k,
    {
        let stored = &outputs[inputs[first + k]];
        if stored.owner().is_script() {
            match stored.datum() {
                None => {
                    assert(!spend_permitted(*stored, tx@.script_inputs[k as int], base@));
                    let e = LedgerClientError::ScriptExecution(
                        ScriptError::FailedToExecute(
                            "the output carries no datum to show to its script".to_owned(),
                        ),
                    );
                    assert(spend_refused(
                        *stored,
                        tx@.script_inputs[k as int],
                        base@,
                        ScriptFault::FailedToExecute(no_datum_text()),
                    ));
                    return Err(e);
                },
                Some(datum) => {
                    let ctx = base.clone().build_spend(stored.id().tx_hash(), stored.id().index());
                    match tx.script_inputs[k].2.execute(datum, &tx.script_inputs[k].1, &ctx) {
                        Ok(_) => {},
                        Err(e) => {
                            assert(!spend_permitted(*stored, tx@.script_inputs[k as int], base@));
                            assert(spend_refused(
                                *stored,
                                tx@.script_inputs[k as int],
                                base@,
                                e@,
                            ));
                            return Err(LedgerClientError::ScriptExecution(e));
                        },
                    }
                },
            }
        }
        k += 1;
    }
    let mut j: usize = 0;
    while j < tx.minting.len()
        invariant
            j <= tx.minting.len(),
            first == tx.specific_wallet_inputs.len(),
            forall|i: int|
                0 <= i < tx.script_inputs.len() ==> spend_permitted(
                    outputs@[inputs@[first + i] as int],
                    #[trigger] tx.script_inputs@[i],
                    base@,
                ),
            forall|i: int| 0 <= i < j ==> mint_permitted(#[trigger] tx.minting@[i], base@),
        decreases tx.minting.len() - j,
    {
        let id = tx.minting[j].3.id();
        let policy = match crate::hex::decode(id.as_str()) {
            Some(policy) => policy,
            None => {
                assert(!mint_permitted(tx@.minting[j as int], base@));
                assert(mint_refused(
                    tx@.minting[j as int],
                    base@,
                    ScriptFault::InvalidPolicyId(id@),
                ));
                return Err(LedgerClientError::ScriptExecution(ScriptError::InvalidPolicyId(id)));
            },
        };
        let ctx = base.clone().build_mint(policy.as_slice());
        match tx.minting[j].3.execute(&tx.minting[j].2, &ctx) {
            Ok(_) => {},
            Err(e) => {
                assert(!mint_permitted(tx@.minting[j as int], base@));
                assert(mint_refused(tx@.minting[j as int], base@, e@));
                return Err(LedgerClientError::ScriptExecution(e));
            },
        }
        j += 1;
    }
    Ok(())
}

} // verus!
