//! The scripts of the checking account, written in this library.
pub mod checking_account_validator;
pub mod one_shot;
pub mod pull_validator;
pub mod spend_token_policy;

use crate::address::{Address, AddressView};
use crate::hex::{hex_decoding, hex_encoding};
use crate::sample_dapps::checking_account::scripts::checking_account_validator::{
    account_label, account_permitted, run_account_validator,
};
use crate::sample_dapps::checking_account::scripts::one_shot::{
    one_shot_code, spends, OneShotPolicy,
};
use crate::sample_dapps::checking_account::scripts::pull_validator::{
    pull_label, pull_permitted, run_pull_validator,
};
use crate::sample_dapps::checking_account::scripts::spend_token_policy::{
    spend_token_code, SpendTokenPolicy,
};
use crate::sample_dapps::checking_account::CheckingAccountDatums;
use crate::scripts::context::{
    AssetAmounts, CtxValue, InputView, TxContext, TxContextView, ValueView,
};
use crate::scripts::{
    native_address, native_script_address, MintingPolicy, ScriptFault, ScriptResult,
    ValidatorCode,
};
use vstd::prelude::*;

verus! {

/// Whether one of `assets` has an amount above zero.
pub open spec fn holds_any(assets: AssetAmounts) -> bool
    decreases assets.len(),
{
    if assets.len() == 0 {
        false
    } else {
        assets.last().1 > 0 || holds_any(assets.drop_last())
    }
}

/// Whether `value` holds a token of the policy whose id stands for the bytes
/// `policy`.
pub open spec fn holds_token(value: ValueView, policy: Seq<u8>) -> bool
    decreases value.len(),
{
    if value.len() == 0 {
        false
    } else {
        (hex_decoding(value.last().0) == Some(policy) && holds_any(value.last().1)) || holds_token(
            value.drop_last(),
            policy,
        )
    }
}

/// Whether one of `assets` has an amount above zero.
pub fn any_amount(assets: &Vec<(String, u64)>) -> (r: bool)
    ensures
        r == holds_any(crate::scripts::context::assets_view(assets@)),
{
    let ghost all = crate::scripts::context::assets_view(assets@);
    let mut i: usize = 0;
    assert(all.take(0) =~= Seq::<(Seq<char>, u64)>::empty());
    while i < assets.len()
        invariant
            i <= assets.len(),
            all == crate::scripts::context::assets_view(assets@),
            !holds_any(all.take(i as int)),
        decreases assets.len() - i,
    {
        assert(all.take(i + 1).drop_last() =~= all.take(i as int));
        if assets[i].1 > 0 {
            proof {
                lemma_holds_any_grows(all, i + 1);
            }
            return true;
        }
        i += 1;
    }
    assert(all.take(i as int) =~= all);
    false
}

/// What holds an amount among the first `n` assets holds one among all.
pub proof fn lemma_holds_any_grows(assets: AssetAmounts, n: int)
    requires
        0 <= n <= assets.len(),
        holds_any(assets.take(n)),
    ensures
        holds_any(assets),
    decreases assets.len() - n,
{
    if n < assets.len() {
        assert(assets.take(n + 1).drop_last() =~= assets.take(n));
        lemma_holds_any_grows(assets, n + 1);
    } else {
        assert(assets.take(n) =~= assets);
    }
}

/// What holds a token among the first `n` policies holds one among all.
pub proof fn lemma_holds_token_grows(value: ValueView, policy: Seq<u8>, n: int)
    requires
        0 <= n <= value.len(),
        holds_token(value.take(n), policy),
    ensures
        holds_token(value, policy),
    decreases value.len() - n,
{
    if n < value.len() {
        assert(value.take(n + 1).drop_last() =~= value.take(n));
        lemma_holds_token_grows(value, policy, n + 1);
    } else {
        assert(value.take(n) =~= value);
    }
}

/// Whether `value` holds a token of the policy whose id stands for the bytes
/// `policy`.
pub fn has_token(value: &CtxValue, policy: &Vec<u8>) -> (r: bool)
    ensures
        r == holds_token(value@, policy@),
{
    let ghost all = value@;
    let mut i: usize = 0;
    assert(all.take(0) =~= Seq::<(Seq<char>, AssetAmounts)>::empty());
    while i < value.inner.len()
        invariant
            i <= value.inner.len(),
            all == value@,
            !holds_token(all.take(i as int), policy@),
        decreases value.inner.len() - i,
    {
        assert(all.take(i + 1).drop_last() =~= all.take(i as int));
        let same_policy = match crate::hex::decode(value.inner[i].0.as_str()) {
            Some(bytes) => crate::bytes::bytes_eq(&bytes, policy),
            None => false,
        };
        if same_policy && any_amount(&value.inner[i].1) {
            proof {
                lemma_holds_token_grows(all, policy@, i + 1);
            }
            return true;
        }
        i += 1;
    }
    assert(all.take(i as int) =~= all);
    false
}

/// The validators of the checking account.
#[derive(Debug, Clone, Copy, PartialEq, Eq, Structural)]
pub enum CheckingAccountValidators {
    /// Guards the account.
    CheckingAccount,
    /// Guards the allowance of a puller.
    Pull,
}

impl ValidatorCode<CheckingAccountDatums, ()> for CheckingAccountValidators {
    open spec fn permits(&self, datum: CheckingAccountDatums, redeemer: (), ctx: TxContextView)
        -> bool {
        match self {
            CheckingAccountValidators::CheckingAccount => account_permitted(datum@, ctx),
            CheckingAccountValidators::Pull => pull_permitted(datum@, ctx),
        }
    }

    open spec fn refuses(
        &self,
        datum: CheckingAccountDatums,
        redeemer: (),
        ctx: TxContextView,
        fault: ScriptFault,
    ) -> bool {
        match self {
            CheckingAccountValidators::CheckingAccount => fault == ScriptFault::FailedToExecute(
                "Neither the owner signs nor is a spend token spent"@,
            ),
            CheckingAccountValidators::Pull => fault == ScriptFault::FailedToExecute(
                "The allowance cannot be pulled in this transaction"@,
            ),
        }
    }

    fn execute(&self, datum: &CheckingAccountDatums, redeemer: &(), ctx: &TxContext) -> (r:
        ScriptResult<()>)
        ensures
            r matches Err(e) ==> e is FailedToExecute,
    {
        match self {
            CheckingAccountValidators::CheckingAccount => run_account_validator(datum, ctx),
            CheckingAccountValidators::Pull => run_pull_validator(datum, ctx),
        }
    }

    open spec fn address_on(&self, network: u8) -> Option<AddressView> {
        match self {
            CheckingAccountValidators::CheckingAccount => Some(
                native_address(network, account_label()),
            ),
            CheckingAccountValidators::Pull => Some(native_address(network, pull_label())),
        }
    }

    fn address(&self, network: u8) -> (r: ScriptResult<Address>) {
        match self {
            CheckingAccountValidators::CheckingAccount => Ok(
                native_script_address(network, "checking_account_validator.spend"),
            ),
            CheckingAccountValidators::Pull => Ok(
                native_script_address(network, "pull_validator.spend"),
            ),
        }
    }
}

/// The minting policies of the checking account.
#[derive(Debug, PartialEq, Eq)]
pub enum CheckingAccountPolicies {
    /// Mints the token that names an account, once.
    OneShot(OneShotPolicy),
    /// Mints the tokens that the allowances of an account carry.
    SpendToken(SpendTokenPolicy),
}

impl MintingPolicy<()> for CheckingAccountPolicies {
    open spec fn permits(&self, redeemer: (), ctx: TxContextView) -> bool {
        match self {
            CheckingAccountPolicies::OneShot(policy) => spends(
                ctx.inputs,
                policy.output_reference@,
            ),
            CheckingAccountPolicies::SpendToken(policy) => ctx.signer == policy.owner@,
        }
    }

    open spec fn refuses(&self, redeemer: (), ctx: TxContextView, fault: ScriptFault) -> bool {
        match self {
            CheckingAccountPolicies::OneShot(_) => fault == ScriptFault::FailedToExecute(
                "The output that permits the minting is not spent"@,
            ),
            CheckingAccountPolicies::SpendToken(_) => fault == ScriptFault::FailedToExecute(
                "Only the owner of the account can mint spend tokens"@,
            ),
        }
    }

    fn execute(&self, redeemer: &(), ctx: &TxContext) -> (r: ScriptResult<()>)
        ensures
            r matches Err(e) ==> e is FailedToExecute,
    {
        match self {
            CheckingAccountPolicies::OneShot(policy) => policy.run(ctx),
            CheckingAccountPolicies::SpendToken(policy) => policy.run(ctx),
        }
    }

    open spec fn policy_id(&self) -> Seq<char> {
        match self {
            CheckingAccountPolicies::OneShot(policy) => hex_encoding(
                one_shot_code(policy.output_reference@),
            ),
            CheckingAccountPolicies::SpendToken(policy) => hex_encoding(
                spend_token_code(policy.nft@, policy.owner@),
            ),
        }
    }

    fn id(&self) -> (r: String) {
        match self {
            CheckingAccountPolicies::OneShot(policy) => policy.hex_id(),
            CheckingAccountPolicies::SpendToken(policy) => policy.hex_id(),
        }
    }
}

} // verus!
