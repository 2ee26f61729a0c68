//! Scripts: what guards an output or a minting, and what they are shown.
pub mod context;
pub mod raw_policy_script;
pub mod raw_script;
pub mod raw_validator_script;

use crate::address::{Address, AddressView};
use crate::scripts::context::{TxContext, TxContextView};
use crate::scripts::raw_validator_script::plutus_data::{Outcome, PlutusData, outcome_of};
use vstd::prelude::*;
use vstd::string::*;

verus! {

/// Why a script could not be built or run, or its context not be encoded.
#[derive(Debug, PartialEq, Eq)]
pub enum ScriptError {
    /// The script rejected what it was shown; the text says why.
    FailedToExecute(String),
    /// The script could not be built; the text says why.
    FailedToConstruct(String),
    /// A term is not of the form that was expected; the text shows the term.
    DatumDeserialization(String),
    /// A policy id is not hexadecimal text; the text is the id.
    InvalidPolicyId(String),
    /// The library does not model what was asked for: a time range with an
    /// upper bound, or an integer beyond 64 bits with a sign.
    Unsupported,
}

/// The mathematical value of a [`ScriptError`].
pub enum ScriptFault {
    FailedToExecute(Seq<char>),
    FailedToConstruct(Seq<char>),
    DatumDeserialization(Seq<char>),
    InvalidPolicyId(Seq<char>),
    Unsupported,
}

impl View for ScriptError {
    type V = ScriptFault;

    open spec fn view(&self) -> ScriptFault {
        match self {
            ScriptError::FailedToExecute(text) => ScriptFault::FailedToExecute(text@),
            ScriptError::FailedToConstruct(text) => ScriptFault::FailedToConstruct(text@),
            ScriptError::DatumDeserialization(text) => ScriptFault::DatumDeserialization(text@),
            ScriptError::InvalidPolicyId(text) => ScriptFault::InvalidPolicyId(text@),
            ScriptError::Unsupported => ScriptFault::Unsupported,
        }
    }
}

impl Clone for ScriptError {
    fn clone(&self) -> (r: Self)
        ensures
            r@ == self@,
    {
        match self {
            ScriptError::FailedToExecute(text) => ScriptError::FailedToExecute(text.clone()),
            ScriptError::FailedToConstruct(text) => ScriptError::FailedToConstruct(text.clone()),
            ScriptError::DatumDeserialization(text) => ScriptError::DatumDeserialization(
                text.clone(),
            ),
            ScriptError::InvalidPolicyId(text) => ScriptError::InvalidPolicyId(text.clone()),
            ScriptError::Unsupported => ScriptError::Unsupported,
        }
    }
}

impl ScriptError {
    /// The text of the error.
    pub fn message(&self) -> (r: String)
        ensures
            r@ == Self::text_of(self@),
    {
        match self {
            ScriptError::FailedToExecute(text) => "Failed to execute: ".to_owned().concat(
                text.as_str(),
            ),
            ScriptError::FailedToConstruct(text) => "Failed to construct: ".to_owned().concat(
                text.as_str(),
            ),
            ScriptError::DatumDeserialization(text) => "Failed to deserialize Datum: ".to_owned()
                .concat(text.as_str()),
            ScriptError::InvalidPolicyId(text) => "Invalid Policy Id: ".to_owned().concat(
                text.as_str(),
            ),
            ScriptError::Unsupported => "Not supported".to_owned(),
        }
    }

    /// The text of an error.
    pub open spec fn text_of(fault: ScriptFault) -> Seq<char> {
        match fault {
            ScriptFault::FailedToExecute(text) => "Failed to execute: "@ + text,
            ScriptFault::FailedToConstruct(text) => "Failed to construct: "@ + text,
            ScriptFault::DatumDeserialization(text) => "Failed to deserialize Datum: "@ + text,
            ScriptFault::InvalidPolicyId(text) => "Invalid Policy Id: "@ + text,
            ScriptFault::Unsupported => "Not supported"@,
        }
    }
}

/// What a script returns.
pub type ScriptResult<T> = Result<T, ScriptError>;

/// What guards the outputs at its address: it permits or refuses that one of
/// them be spent. What it decides depends on nothing but the datum of the
/// output, the redeemer and the context that it is shown.
pub trait ValidatorCode<Datum, Redeemer> {
    /// Whether the script permits that an output with `datum` be spent with
    /// `redeemer` in the transaction that `ctx` shows.
    spec fn permits(&self, datum: Datum, redeemer: Redeemer, ctx: TxContextView) -> bool;

    /// Runs the script.
    fn execute(&self, datum: &Datum, redeemer: &Redeemer, ctx: &TxContext) -> (r: ScriptResult<()>)
        ensures
            r is Ok <==> self.permits(*datum, *redeemer, ctx@),
            r matches Err(e) ==> self.refuses(*datum, *redeemer, ctx@, e@),
    ;

    /// What the script says of the error with which it refuses a spending
    /// that it does not permit. A script that says nothing may refuse with
    /// any error.
    open spec fn refuses(
        &self,
        datum: Datum,
        redeemer: Redeemer,
        ctx: TxContextView,
        fault: ScriptFault,
    ) -> bool {
        true
    }

    /// The address of the script on `network`, where it has one. It follows
    /// from the code of the script alone.
    spec fn address_on(&self, network: u8) -> Option<AddressView>;

    /// The address of the script on `network`.
    fn address(&self, network: u8) -> (r: ScriptResult<Address>)
        ensures
            match r {
                Ok(address) => self.address_on(network) == Some(address@),
                Err(_) => self.address_on(network) is None,
            },
    ;
}

/// What guards the minting of the tokens under its id. What it decides
/// depends on nothing but the redeemer and the context that it is shown.
pub trait MintingPolicy<Redeemer> {
    /// Whether the policy permits the minting with `redeemer` in the
    /// transaction that `ctx` shows.
    spec fn permits(&self, redeemer: Redeemer, ctx: TxContextView) -> bool;

    /// Runs the policy.
    fn execute(&self, redeemer: &Redeemer, ctx: &TxContext) -> (r: ScriptResult<()>)
        ensures
            r is Ok <==> self.permits(*redeemer, ctx@),
            r matches Err(e) ==> self.refuses(*redeemer, ctx@, e@),
    ;

    /// What the policy says of the error with which it refuses a minting
    /// that it does not permit. A policy that says nothing may refuse with
    /// any error.
    open spec fn refuses(&self, redeemer: Redeemer, ctx: TxContextView, fault: ScriptFault)
        -> bool {
        true
    }

    /// The id of the policy: hexadecimal text that follows from its code
    /// alone.
    spec fn policy_id(&self) -> Seq<char>;

    /// The id of the policy.
    fn id(&self) -> (r: String)
        ensures
            r@ == self.policy_id(),
    ;
}

/// The policy of a contract that mints nothing: it permits no minting, and
/// says of every minting that it is not supported.
#[derive(Debug, Clone, Copy, PartialEq, Eq, Structural)]
pub struct NoPolicy;

impl<Redeemer> MintingPolicy<Redeemer> for NoPolicy {
    open spec fn permits(&self, redeemer: Redeemer, ctx: TxContextView) -> bool {
        false
    }

    fn execute(&self, redeemer: &Redeemer, ctx: &TxContext) -> (r: ScriptResult<()>)
        ensures
            r matches Err(e) && e@ == ScriptFault::Unsupported,
    {
        Err(ScriptError::Unsupported)
    }

    open spec fn refuses(&self, redeemer: Redeemer, ctx: TxContextView, fault: ScriptFault)
        -> bool {
        fault == ScriptFault::Unsupported
    }

    open spec fn policy_id(&self) -> Seq<char> {
        Seq::empty()
    }

    fn id(&self) -> (r: String) {
        String::new()
    }
}

/// The address on `network` of the script that is written in this library
/// under the name `label`: its hash is the bytes of the name.
pub fn native_script_address(network: u8, label: &str) -> (r: Address)
    ensures
        r@ == native_address(network, label@),
{
    Address::from_script_hash(network, crate::bytes::to_vec(label.as_bytes()))
}

/// The address on `network` of the script that is written in this library
/// under the name `label`.
pub open spec fn native_address(network: u8, label: Seq<char>) -> AddressView {
    AddressView {
        network,
        payment: crate::address::PaymentCredential::Script(vstd::utf8::encode_utf8(label)),
        delegation: crate::address::StakeCredential::Null,
    }
}

/// What can be shown to a script as a term: a datum or a redeemer.
pub trait ToPlutusData {
    /// The term that stands for the value, where it has one.
    spec fn term(&self) -> Outcome;

    /// The term that stands for the value.
    fn to_plutus_data(&self) -> (r: ScriptResult<PlutusData>)
        ensures
            outcome_of(r) == self.term(),
    ;
}

impl ToPlutusData for () {
    open spec fn term(&self) -> Outcome {
        Ok(crate::scripts::raw_validator_script::plutus_data::Term::Constr(0, Seq::empty()))
    }

    fn to_plutus_data(&self) -> (r: ScriptResult<PlutusData>) {
        Ok(PlutusData::unit())
    }
}

} // verus!
