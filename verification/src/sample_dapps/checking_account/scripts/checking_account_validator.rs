//! The script that guards a checking account: the owner can spend from it,
//! and so can a transaction that spends an allowance, which carries a spend
//! token of the account.
use crate::address::{Address, AddressView};
use crate::sample_dapps::checking_account::scripts::{has_token, holds_token, lemma_holds_token_grows};
use crate::sample_dapps::checking_account::{CheckingAccountDatums, DatumsView, NETWORK};
use crate::scripts::context::{InputView, TxContext, TxContextView};
use crate::scripts::{
    native_address, native_script_address, ScriptError, ScriptFault, ScriptResult, ValidatorCode,
};
use vstd::prelude::*;

verus! {

/// The script that guards a checking account.
#[derive(Debug, Clone, Copy, PartialEq, Eq, Structural)]
pub struct CheckingAccountValidator;

/// The name of the script.
pub open spec fn account_label() -> Seq<char> {
    "checking_account_validator.spend"@
}

/// Whether one of `inputs` holds a token of the policy whose id stands for
/// the bytes `policy`.
pub open spec fn spends_token(inputs: Seq<InputView>, policy: Seq<u8>) -> bool
    decreases inputs.len(),
{
    if inputs.len() == 0 {
        false
    } else {
        holds_token(inputs.last().output.value, policy) || spends_token(inputs.drop_last(), policy)
    }
}

/// What spends a token among the first `n` inputs spends one among all.
pub proof fn lemma_spends_token_grows(inputs: Seq<InputView>, policy: Seq<u8>, n: int)
    requires
        0 <= n <= inputs.len(),
        spends_token(inputs.take(n), policy),
    ensures
        spends_token(inputs, policy),
    decreases inputs.len() - n,
{
    if n < inputs.len() {
        assert(inputs.take(n + 1).drop_last() =~= inputs.take(n));
        lemma_spends_token_grows(inputs, policy, n + 1);
    } else {
        assert(inputs.take(n) =~= inputs);
    }
}

/// Whether the script permits the spending of an account with `datum` in the
/// transaction that `ctx` shows.
pub open spec fn account_permitted(datum: DatumsView, ctx: TxContextView) -> bool {
    &&& datum matches DatumsView::CheckingAccount(account)
    &&& (ctx.signer == account.owner || spends_token(ctx.inputs, account.spend_token_policy))
}

/// Runs the script.
pub fn run_account_validator(datum: &CheckingAccountDatums, ctx: &TxContext) -> (r: ScriptResult<()>)
    ensures
        r is Ok <==> account_permitted(datum@, ctx@),
        r matches Err(e) ==> e@ == ScriptFault::FailedToExecute(
            "Neither the owner signs nor is a spend token spent"@,
        ),
{
    let permitted = match datum {
        CheckingAccountDatums::CheckingAccount(account) => {
            if ctx.signer == account.owner {
                true
            } else {
                let ghost all = ctx@.inputs;
                let mut found = false;
                let mut i: usize = 0;
                assert(all.take(0) =~= Seq::<InputView>::empty());
                while i < ctx.inputs.len() && !found
                    invariant
                        i <= ctx.inputs.len(),
                        all == ctx@.inputs,
                        !found ==> !spends_token(
                            all.take(i as int),
                            account.spend_token_policy@,
                        ),
                        found ==> spends_token(all, account.spend_token_policy@),
                    decreases ctx.inputs.len() - i,
                {
                    assert(all.take(i + 1).drop_last() =~= all.take(i as int));
                    assert(all[i as int] == ctx.inputs[i as int]@);
                    if has_token(&ctx.inputs[i].value, &account.spend_token_policy) {
                        proof {
                            lemma_spends_token_grows(all, account.spend_token_policy@, i + 1);
                        }
                        found = true;
                    }
                    i += 1;
                }
                assert(!found ==> all.take(i as int) =~= all);
                found
            }
        },
        CheckingAccountDatums::AllowedPuller(_) => false,
    };
    if permitted {
        Ok(())
    } else {
        Err(
            ScriptError::FailedToExecute(
                "Neither the owner signs nor is a spend token spent".to_owned(),
            ),
        )
    }
}

impl ValidatorCode<CheckingAccountDatums, ()> for CheckingAccountValidator {
    open spec fn permits(&self, datum: CheckingAccountDatums, redeemer: (), ctx: TxContextView)
        -> bool {
        account_permitted(datum@, ctx)
    }

    fn execute(&self, datum: &CheckingAccountDatums, redeemer: &(), ctx: &TxContext) -> (r:
        ScriptResult<()>) {
        run_account_validator(datum, ctx)
    }

    open spec fn refuses(
        &self,
        datum: CheckingAccountDatums,
        redeemer: (),
        ctx: TxContextView,
        fault: ScriptFault,
    ) -> bool {
        fault == ScriptFault::FailedToExecute("Neither the owner signs nor is a spend token spent"@)
    }

    open spec fn address_on(&self, network: u8) -> Option<AddressView> {
        Some(native_address(network, account_label()))
    }

    fn address(&self, network: u8) -> (r: ScriptResult<Address>) {
        Ok(native_script_address(network, "checking_account_validator.spend"))
    }
}

/// The script that guards a checking account.
pub fn checking_account_validator() -> (r: ScriptResult<CheckingAccountValidator>)
    ensures
        r is Ok,
{
    Ok(CheckingAccountValidator)
}

} // verus!
