//! Actions, and the unbuilt transaction that they amount to.
use crate::address::Address;
use crate::error::Error;
use crate::output::{Output, UnbuiltOutput};
use crate::values::Values;
use vstd::prelude::*;

verus! {

/// The generation of scripts that a transaction is meant for.
#[derive(Debug, Clone, Copy, PartialEq, Eq, Structural)]
pub enum TransactionVersion {
    V1,
    V2,
}

/// One thing that a transaction is to do.
#[derive(Debug, PartialEq, Eq)]
pub enum Action<Datum, Redeemer, Validator, Policy> {
    /// Create an output at the script address, with the datum.
    InitScript { datum: Datum, values: Values, address: Address },
    /// Spend the output, which the script guards, with the redeemer.
    RedeemScriptOutput { output: Output<Datum>, redeemer: Redeemer, script: Validator },
    /// Mint `amount` of the asset `asset_name` of the policy, with the redeemer.
    MintTokens { amount: u64, asset_name: Option<String>, redeemer: Redeemer, policy: Policy },
    /// Spend this output of the signer's wallet.
    SpecificInput { input: Output<Datum> },
    /// Be valid from `lower` on and before `upper`.
    ValidRange { lower: Option<i64>, upper: Option<i64> },
}

/// What spending a script output takes: the output, the redeemer and the
/// script.
pub type RedemptionDetails<Datum, Redeemer, Validator> = (Output<Datum>, Redeemer, Validator);

/// What a minting takes: the amount, the asset name, the redeemer and the
/// policy.
pub type MintDetails<Redeemer, Policy> = (u64, Option<String>, Redeemer, Policy);

/// What a sequence of actions amounts to.
pub struct Parts<Datum, Redeemer, Validator, Policy> {
    pub script_inputs: Seq<RedemptionDetails<Datum, Redeemer, Validator>>,
    pub unbuilt_outputs: Seq<UnbuiltOutput<Datum>>,
    pub minting: Seq<MintDetails<Redeemer, Policy>>,
    pub specific_wallet_inputs: Seq<Output<Datum>>,
    pub valid_range: (Option<i64>, Option<i64>),
}

impl<Datum, Redeemer, Validator, Policy> Parts<Datum, Redeemer, Validator, Policy> {
    /// Nothing to do, at any time.
    pub open spec fn none() -> Self {
        Parts {
            script_inputs: Seq::empty(),
            unbuilt_outputs: Seq::empty(),
            minting: Seq::empty(),
            specific_wallet_inputs: Seq::empty(),
            valid_range: (None, None),
        }
    }

    /// The parts with one more action. Each action joins those of its kind
    /// behind the earlier ones; a valid range takes the place of an earlier one.
    pub open spec fn with(self, action: Action<Datum, Redeemer, Validator, Policy>) -> Self {
        match action {
            Action::InitScript { datum, values, address } => Parts {
                unbuilt_outputs: self.unbuilt_outputs.push(
                    UnbuiltOutput::Validator { script_address: address, values, datum },
                ),
                ..self
            },
            Action::RedeemScriptOutput { output, redeemer, script } => Parts {
                script_inputs: self.script_inputs.push((output, redeemer, script)),
                ..self
            },
            Action::MintTokens { amount, asset_name, redeemer, policy } => Parts {
                minting: self.minting.push((amount, asset_name, redeemer, policy)),
                ..self
            },
            Action::SpecificInput { input } => Parts {
                specific_wallet_inputs: self.specific_wallet_inputs.push(input),
                ..self
            },
            Action::ValidRange { lower, upper } => Parts { valid_range: (lower, upper), ..self },
        }
    }

    /// The parts with the given actions, one after the other.
    pub open spec fn with_all(
        self,
        actions: Seq<Action<Datum, Redeemer, Validator, Policy>>,
    ) -> Self
        decreases actions.len(),
    {
        if actions.len() == 0 {
            self
        } else {
            self.with(actions[0]).with_all(actions.drop_first())
        }
    }
}

/// The actions that a transaction is to take, in the order in which they were
/// asked for.
#[derive(Debug, PartialEq, Eq)]
pub struct TxActions<Datum, Redeemer, Validator, Policy> {
    pub script_version: TransactionVersion,
    pub actions: Vec<Action<Datum, Redeemer, Validator, Policy>>,
}

impl<Datum, Redeemer, Validator, Policy> TxActions<Datum, Redeemer, Validator, Policy> {
    /// No actions, for scripts of the first generation.
    pub fn v1() -> (r: Self)
        ensures
            r.script_version == TransactionVersion::V1,
            r.actions@ == Seq::<Action<Datum, Redeemer, Validator, Policy>>::empty(),
    {
        TxActions { script_version: TransactionVersion::V1, actions: Vec::new() }
    }

    /// No actions, for scripts of the second generation.
    pub fn v2() -> (r: Self)
        ensures
            r.script_version == TransactionVersion::V2,
            r.actions@ == Seq::<Action<Datum, Redeemer, Validator, Policy>>::empty(),
    {
        TxActions { script_version: TransactionVersion::V2, actions: Vec::new() }
    }

    /// Adds: create an output at the script `address`, with `datum`.
    pub fn with_script_init(self, datum: Datum, values: Values, address: Address) -> (r: Self)
        ensures
            r.script_version == self.script_version,
            r.actions@ == self.actions@.push(Action::InitScript { datum, values, address }),
    {
        let mut this = self;
        this.actions.push(Action::InitScript { datum, values, address });
        this
    }

    /// Adds: spend `output`, which `script` guards, with `redeemer`.
    pub fn with_script_redeem(self, output: Output<Datum>, redeemer: Redeemer, script: Validator)
        -> (r: Self)
        ensures
            r.script_version == self.script_version,
            r.actions@ == self.actions@.push(
                Action::RedeemScriptOutput { output, redeemer, script },
            ),
    {
        let mut this = self;
        this.actions.push(Action::RedeemScriptOutput { output, redeemer, script });
        this
    }

    /// Adds: mint `amount` of the asset `asset_name` of `policy`, with
    /// `redeemer`.
    pub fn with_mint(
        self,
        amount: u64,
        asset_name: Option<String>,
        redeemer: Redeemer,
        policy: Policy,
    ) -> (r: Self)
        ensures
            r.script_version == self.script_version,
            r.actions@ == self.actions@.push(
                Action::MintTokens { amount, asset_name, redeemer, policy },
            ),
    {
        let mut this = self;
        this.actions.push(Action::MintTokens { amount, asset_name, redeemer, policy });
        this
    }

    /// Adds: spend `input`, an output of the signer's wallet.
    pub fn with_specific_input(self, input: Output<Datum>) -> (r: Self)
        ensures
            r.script_version == self.script_version,
            r.actions@ == self.actions@.push(Action::SpecificInput { input }),
    {
        let mut this = self;
        this.actions.push(Action::SpecificInput { input });
        this
    }

    /// Adds: be valid from `lower` on and before `upper`. Of several ranges
    /// the one that was added last counts.
    pub fn with_valid_range(self, lower: Option<i64>, upper: Option<i64>) -> (r: Self)
        ensures
            r.script_version == self.script_version,
            r.actions@ == self.actions@.push(Action::ValidRange { lower, upper }),
    {
        let mut this = self;
        this.actions.push(Action::ValidRange { lower, upper });
        this
    }

    /// Sorts the actions by their kind: the inputs that are asked for, the
    /// outputs to create, the mintings and the valid range. This never fails.
    pub fn to_unbuilt_tx(self) -> (r: Result<
        UnbuiltTransaction<Datum, Redeemer, Validator, Policy>,
        Error,
    >)
        ensures
            r matches Ok(tx) && tx.script_version == self.script_version && tx@ == Parts::<
                Datum,
                Redeemer,
                Validator,
                Policy,
            >::none().with_all(self.actions@),
    {
        let ghost all = self.actions@;
        let TxActions { script_version, actions } = self;
        let mut pending = actions;
        let mut tx = UnbuiltTransaction {
            script_version,
            script_inputs: Vec::new(),
            unbuilt_outputs: Vec::new(),
            minting: Vec::new(),
            specific_wallet_inputs: Vec::new(),
            valid_range: (None, None),
        };
        assert(tx@ =~= Parts::<Datum, Redeemer, Validator, Policy>::none());
        while pending.len() > 0
            invariant
                tx.script_version == script_version,
                Parts::<Datum, Redeemer, Validator, Policy>::none().with_all(all) == tx@.with_all(
                    pending@,
                ),
            decreases pending.len(),
        {
            let ghost before = pending@;
            let ghost parts = tx@;
            let action = pending.remove(0);
            assert(pending@ =~= before.drop_first());
            match action {
                Action::InitScript { datum, values, address } => {
                    tx.unbuilt_outputs.push(
                        UnbuiltOutput::Validator { script_address: address, values, datum },
                    );
                },
                Action::RedeemScriptOutput { output, redeemer, script } => {
                    tx.script_inputs.push((output, redeemer, script));
                },
                Action::MintTokens { amount, asset_name, redeemer, policy } => {
                    tx.minting.push((amount, asset_name, redeemer, policy));
                },
                Action::SpecificInput { input } => {
                    tx.specific_wallet_inputs.push(input);
                },
                Action::ValidRange { lower, upper } => {
                    tx.valid_range = (lower, upper);
                },
            }
            assert(tx@ == parts.with(action));
        }
        Ok(tx)
    }
}

/// What a transaction is to do, sorted by kind, before inputs are chosen from
/// the signer's wallet and the values are balanced.
#[derive(Debug, PartialEq, Eq)]
pub struct UnbuiltTransaction<Datum, Redeemer, Validator, Policy> {
    pub script_version: TransactionVersion,
    pub script_inputs: Vec<RedemptionDetails<Datum, Redeemer, Validator>>,
    pub unbuilt_outputs: Vec<UnbuiltOutput<Datum>>,
    pub minting: Vec<MintDetails<Redeemer, Policy>>,
    pub specific_wallet_inputs: Vec<Output<Datum>>,
    pub valid_range: (Option<i64>, Option<i64>),
}

impl<Datum, Redeemer, Validator, Policy> View for UnbuiltTransaction<
    Datum,
    Redeemer,
    Validator,
    Policy,
> {
    type V = Parts<Datum, Redeemer, Validator, Policy>;

    open spec fn view(&self) -> Parts<Datum, Redeemer, Validator, Policy> {
        Parts {
            script_inputs: self.script_inputs@,
            unbuilt_outputs: self.unbuilt_outputs@,
            minting: self.minting@,
            specific_wallet_inputs: self.specific_wallet_inputs@,
            valid_range: self.valid_range,
        }
    }
}

/// The name of a committed transaction.
#[derive(Debug, Eq)]
pub struct TxId(String);

impl View for TxId {
    type V = Seq<char>;

    closed spec fn view(&self) -> Seq<char> {
        self.0@
    }
}

impl Clone for TxId {
    fn clone(&self) -> (r: Self)
        ensures
            r@ == self@,
    {
        TxId(self.0.clone())
    }
}

impl PartialEq for TxId {
    fn eq(&self, other: &Self) -> (r: bool) {
        let r = self.0 == other.0;
        assert(r == (self@ == other@));
        r
    }
}

impl vstd::std_specs::cmp::PartialEqSpecImpl for TxId {
    open spec fn obeys_eq_spec() -> bool {
        true
    }

    open spec fn eq_spec(&self, other: &Self) -> bool {
        self@ == other@
    }
}

impl TxId {
    /// The name with the given text.
    pub fn new(id_str: &str) -> (r: Self)
        ensures
            r@ == id_str@,
    {
        TxId(id_str.to_owned())
    }

    /// The text of the name.
    pub fn as_str(&self) -> (r: &str)
        ensures
            r@ == self@,
    {
        self.0.as_str()
    }
}

} // verus!
