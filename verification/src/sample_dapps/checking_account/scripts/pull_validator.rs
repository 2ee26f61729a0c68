//! The script that guards the allowance of a puller. The owner of the account
//! can take the allowance back. Anyone else can spend it from the time of the
//! next pull on, and only where it is renewed: an output at the script carries
//! the allowance with the time of the next pull moved on by one period, and a
//! spend token of the account.
use crate::address::{Address, AddressView};
use crate::sample_dapps::checking_account::scripts::{has_token, holds_token};
use crate::sample_dapps::checking_account::{
    puller_term, AllowedPuller, AllowedPullerView, CheckingAccountDatums, DatumsView,
};
use crate::scripts::context::{
    CtxDatum, CtxOutputView, CtxScriptPurpose, DatumView, InputView, OutputRef, Purpose,
    TxContext, TxContextView, ValidRange,
};
use crate::scripts::raw_validator_script::plutus_data::{PlutusData, Term};
use crate::scripts::{
    native_address, native_script_address, ScriptError, ScriptFault, ScriptResult, ToPlutusData,
    ValidatorCode,
};
use vstd::prelude::*;

verus! {

/// The script that guards the allowance of a puller.
#[derive(Debug, Clone, Copy, PartialEq, Eq, Structural)]
pub struct PullValidator;

/// The name of the script.
pub open spec fn pull_label() -> Seq<char> {
    "pull_validator.spend"@
}

/// Whether `range` starts no earlier than at `time`: it has a lower bound
/// above `time`, or at `time` and including it.
pub open spec fn starts_at_or_after(range: ValidRange, time: i64) -> bool {
    range.lower matches Some((bound, is_inclusive)) && (bound > time || (bound == time
        && is_inclusive))
}

/// The address of the first of `inputs` that is the output named `reference`.
pub open spec fn address_of_input(inputs: Seq<InputView>, reference: OutputRef) -> Option<
    AddressView,
>
    decreases inputs.len(),
{
    if inputs.len() == 0 {
        None
    } else if inputs[0].reference == reference {
        Some(inputs[0].output.address)
    } else {
        address_of_input(inputs.drop_first(), reference)
    }
}

/// Whether one of `outputs` is held at `address`, carries the datum `renewed`
/// itself and holds a token of the policy `token`.
pub open spec fn renews(
    outputs: Seq<CtxOutputView>,
    address: AddressView,
    renewed: Term,
    token: Seq<u8>,
) -> bool
    decreases outputs.len(),
{
    if outputs.len() == 0 {
        false
    } else {
        (outputs.last().address == address && outputs.last().datum == DatumView::InlineDatum(
            renewed,
        ) && holds_token(outputs.last().value, token)) || renews(
            outputs.drop_last(),
            address,
            renewed,
            token,
        )
    }
}

/// What is renewed among the first `n` outputs is renewed among all.
pub proof fn lemma_renews_grows(
    outputs: Seq<CtxOutputView>,
    address: AddressView,
    renewed: Term,
    token: Seq<u8>,
    n: int,
)
    requires
        0 <= n <= outputs.len(),
        renews(outputs.take(n), address, renewed, token),
    ensures
        renews(outputs, address, renewed, token),
    decreases outputs.len() - n,
{
    if n < outputs.len() {
        assert(outputs.take(n + 1).drop_last() =~= outputs.take(n));
        lemma_renews_grows(outputs, address, renewed, token, n + 1);
    } else {
        assert(outputs.take(n) =~= outputs);
    }
}

/// The allowance `old` after a pull: the time of the next pull is one period
/// later.
pub open spec fn after_pull(old: AllowedPullerView) -> AllowedPullerView {
    AllowedPullerView { next_pull: (old.next_pull + old.period) as i64, ..old }
}

/// Whether the script permits the spending of an allowance with `datum` in
/// the transaction that `ctx` shows.
pub open spec fn pull_permitted(datum: DatumsView, ctx: TxContextView) -> bool {
    datum matches DatumsView::AllowedPuller(old) && (ctx.signer == old.owner || pulled_in_order(
        old,
        ctx,
    ))
}

/// Whether the transaction that `ctx` shows pulls under the allowance `old`
/// as it should: in time, and renewing the allowance.
pub open spec fn pulled_in_order(old: AllowedPullerView, ctx: TxContextView) -> bool {
    &&& starts_at_or_after(ctx.range, old.next_pull)
    &&& i64::MIN <= old.next_pull + old.period <= i64::MAX
    &&& ctx.purpose matches Purpose::Spend(reference)
    &&& address_of_input(ctx.inputs, reference) matches Some(address)
    &&& puller_term(after_pull(old)) matches Ok(renewed)
    &&& renews(ctx.outputs, address, renewed, old.spending_token)
}

/// The address of the first input of `ctx` that is the output named by the
/// id `transaction_id` and the index `output_index`.
pub fn input_address<'a>(ctx: &'a TxContext, transaction_id: &Vec<u8>, output_index: u64) -> (r:
    Option<&'a Address>)
    ensures
        match r {
            Some(address) => address_of_input(
                ctx@.inputs,
                OutputRef { transaction_id: transaction_id@, output_index },
            ) == Some(address@),
            None => address_of_input(
                ctx@.inputs,
                OutputRef { transaction_id: transaction_id@, output_index },
            ) is None,
        },
{
    let ghost all = ctx@.inputs;
    let ghost reference = OutputRef { transaction_id: transaction_id@, output_index };
    let mut i: usize = 0;
    assert(all.skip(0) =~= all);
    while i < ctx.inputs.len()
        invariant
            i <= ctx.inputs.len(),
            all == ctx@.inputs,
            reference == (OutputRef { transaction_id: transaction_id@, output_index }),
            address_of_input(all, reference) == address_of_input(all.skip(i as int), reference),
        decreases ctx.inputs.len() - i,
    {
        assert(all.skip(i as int)[0] == ctx.inputs[i as int]@);
        assert(all.skip(i as int).drop_first() =~= all.skip(i + 1));
        if ctx.inputs[i].output_index == output_index && crate::bytes::bytes_eq(
            &ctx.inputs[i].transaction_id,
            transaction_id,
        ) {
            return Some(&ctx.inputs[i].address);
        }
        i += 1;
    }
    assert(all.skip(i as int) =~= Seq::<InputView>::empty());
    None
}

/// Whether an output of `ctx` renews the allowance.
pub fn is_renewed(ctx: &TxContext, address: &Address, renewed: &PlutusData, token: &Vec<u8>) -> (r:
    bool)
    ensures
        r == renews(ctx@.outputs, address@, renewed@, token@),
{
    let ghost all = ctx@.outputs;
    let mut i: usize = 0;
    assert(all.take(0) =~= Seq::<CtxOutputView>::empty());
    while i < ctx.outputs.len()
        invariant
            i <= ctx.outputs.len(),
            all == ctx@.outputs,
            !renews(all.take(i as int), address@, renewed@, token@),
        decreases ctx.outputs.len() - i,
    {
        assert(all.take(i + 1).drop_last() =~= all.take(i as int));
        assert(all[i as int] == ctx.outputs[i as int]@);
        let same_datum = match &ctx.outputs[i].datum {
            CtxDatum::InlineDatum(data) => data.same_as(renewed),
            _ => false,
        };
        if same_datum && ctx.outputs[i].address == *address && has_token(
            &ctx.outputs[i].value,
            token,
        ) {
            proof {
                lemma_renews_grows(all, address@, renewed@, token@, i + 1);
            }
            return true;
        }
        i += 1;
    }
    assert(all.take(i as int) =~= all);
    false
}

/// Whether the script permits the spending of the allowance `old` in the
/// transaction that `ctx` shows.
pub fn allows(old: &AllowedPuller, ctx: &TxContext) -> (r: bool)
    ensures
        r == pull_permitted(DatumsView::AllowedPuller(old@), ctx@),
{
    if ctx.signer == old.owner {
        return true;
    }
    let in_time = match ctx.range.lower {
        Some((bound, is_inclusive)) => bound > old.next_pull || (bound == old.next_pull
            && is_inclusive),
        None => false,
    };
    if !in_time {
        return false;
    }
    let next_pull = match old.next_pull.checked_add(old.period) {
        Some(time) => time,
        None => {
            return false;
        },
    };
    let address = match &ctx.purpose {
        CtxScriptPurpose::Spend(reference) => {
            match input_address(ctx, &reference.transaction_id, reference.output_index) {
                Some(address) => address,
                None => {
                    return false;
                },
            }
        },
        CtxScriptPurpose::Mint(_) => {
            return false;
        },
    };
    let renewed = match old.renewed(next_pull).to_plutus_data() {
        Ok(term) => term,
        Err(_) => {
            return false;
        },
    };
    is_renewed(ctx, address, &renewed, &old.spending_token)
}

/// Runs the script.
pub fn run_pull_validator(datum: &CheckingAccountDatums, ctx: &TxContext) -> (r: ScriptResult<()>)
    ensures
        r is Ok <==> pull_permitted(datum@, ctx@),
        r matches Err(e) ==> e@ == ScriptFault::FailedToExecute(
            "The allowance cannot be pulled in this transaction"@,
        ),
{
    let permitted = match datum {
        CheckingAccountDatums::AllowedPuller(old) => allows(old, ctx),
        CheckingAccountDatums::CheckingAccount(_) => false,
    };
    if permitted {
        Ok(())
    } else {
        Err(
            ScriptError::FailedToExecute(
                "The allowance cannot be pulled in this transaction".to_owned(),
            ),
        )
    }
}

impl ValidatorCode<CheckingAccountDatums, ()> for PullValidator {
    open spec fn permits(&self, datum: CheckingAccountDatums, redeemer: (), ctx: TxContextView)
        -> bool {
        pull_permitted(datum@, ctx)
    }

    fn execute(&self, datum: &CheckingAccountDatums, redeemer: &(), ctx: &TxContext) -> (r:
        ScriptResult<()>) {
        run_pull_validator(datum, ctx)
    }

    open spec fn refuses(
        &self,
        datum: CheckingAccountDatums,
        redeemer: (),
        ctx: TxContextView,
        fault: ScriptFault,
    ) -> bool {
        fault == ScriptFault::FailedToExecute("The allowance cannot be pulled in this transaction"@)
    }

    open spec fn address_on(&self, network: u8) -> Option<AddressView> {
        Some(native_address(network, pull_label()))
    }

    fn address(&self, network: u8) -> (r: ScriptResult<Address>) {
        Ok(native_script_address(network, "pull_validator.spend"))
    }
}

/// The script that guards the allowance of a puller.
pub fn spend_token_policy() -> (r: ScriptResult<PullValidator>)
    ensures
        r is Ok,
{
    Ok(PullValidator)
}

} // verus!
