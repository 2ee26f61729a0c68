//! Outputs: what a transaction asks for, and what the ledger holds.
use crate::address::{Address, AddressView, AssetId};
use crate::bytes::{bytes_eq, clone_bytes};
use crate::values::Values;
use vstd::prelude::*;
use vstd::string::*;
use vstd::std_specs::cmp::PartialEqSpecImpl;

verus! {

/// An output that a transaction is to create. It has no identity yet.
#[derive(Debug, PartialEq, Eq)]
pub enum UnbuiltOutput<Datum> {
    Wallet { owner: Address, values: Values },
    Validator { script_address: Address, values: Values, datum: Datum },
}

/// The mathematical value of an [`UnbuiltOutput`].
pub struct UnbuiltOutputView<Datum> {
    pub owner: AddressView,
    pub values: Map<AssetId, u64>,
    pub datum: Option<Datum>,
}

impl<Datum> View for UnbuiltOutput<Datum> {
    type V = UnbuiltOutputView<Datum>;

    open spec fn view(&self) -> UnbuiltOutputView<Datum> {
        match self {
            UnbuiltOutput::Wallet { owner, values } => UnbuiltOutputView {
                owner: owner@,
                values: values@,
                datum: None,
            },
            UnbuiltOutput::Validator { script_address, values, datum } => UnbuiltOutputView {
                owner: script_address@,
                values: values@,
                datum: Some(*datum),
            },
        }
    }
}

impl<Datum> UnbuiltOutput<Datum> {
    /// The value that the output is to hold.
    pub open spec fn held(self) -> Values {
        match self {
            UnbuiltOutput::Wallet { values, .. } => values,
            UnbuiltOutput::Validator { values, .. } => values,
        }
    }

    /// An output for the wallet of `owner`.
    pub fn new_wallet(owner: Address, values: Values) -> (r: Self)
        ensures
            r@ == (UnbuiltOutputView::<Datum> { owner: owner@, values: values@, datum: None }),
            r.held() == values,
    {
        UnbuiltOutput::Wallet { owner, values }
    }

    /// An output locked under the script at `script_address`.
    pub fn new_validator(script_address: Address, values: Values, datum: Datum) -> (r: Self)
        ensures
            r@ == (UnbuiltOutputView {
                owner: script_address@,
                values: values@,
                datum: Some(datum),
            }),
            r.held() == values,
    {
        UnbuiltOutput::Validator { script_address, values, datum }
    }

    /// The address that is to hold the output.
    pub fn owner(&self) -> (r: &Address)
        ensures
            r@ == self@.owner,
    {
        match self {
            UnbuiltOutput::Wallet { owner, .. } => owner,
            UnbuiltOutput::Validator { script_address, .. } => script_address,
        }
    }

    /// The value of the output.
    pub fn values(&self) -> (r: &Values)
        ensures
            r@ == self@.values,
            *r == self.held(),
    {
        match self {
            UnbuiltOutput::Wallet { values, .. } => values,
            UnbuiltOutput::Validator { values, .. } => values,
        }
    }

    /// The datum of a script output; a wallet output has none.
    pub fn datum(&self) -> (r: Option<&Datum>)
        ensures
            match r {
                Some(datum) => self@.datum == Some(*datum),
                None => self@.datum is None,
            },
    {
        match self {
            UnbuiltOutput::Wallet { .. } => None,
            UnbuiltOutput::Validator { datum, .. } => Some(datum),
        }
    }
}

/// Names an output of a committed transaction: the hash of the transaction and
/// the place of the output among those it created.
#[derive(Debug, Eq)]
pub struct OutputId {
    tx_hash: Vec<u8>,
    index: u64,
}

/// The mathematical value of an [`OutputId`].
pub struct OutputIdView {
    pub tx_hash: Seq<u8>,
    pub index: u64,
}

impl View for OutputId {
    type V = OutputIdView;

    closed spec fn view(&self) -> OutputIdView {
        OutputIdView { tx_hash: self.tx_hash@, index: self.index }
    }
}

impl Clone for OutputId {
    fn clone(&self) -> (r: Self)
        ensures
            r@ == self@,
    {
        OutputId { tx_hash: clone_bytes(&self.tx_hash), index: self.index }
    }
}

impl PartialEq for OutputId {
    fn eq(&self, other: &Self) -> (r: bool) {
        self.index == other.index && bytes_eq(&self.tx_hash, &other.tx_hash)
    }
}

impl PartialEqSpecImpl for OutputId {
    open spec fn obeys_eq_spec() -> bool {
        true
    }

    open spec fn eq_spec(&self, other: &Self) -> bool {
        self@ == other@
    }
}

impl OutputId {
    /// The name of output `index` of the transaction with hash `tx_hash`.
    pub fn new(tx_hash: Vec<u8>, index: u64) -> (r: Self)
        ensures
            r@ == (OutputIdView { tx_hash: tx_hash@, index }),
    {
        OutputId { tx_hash, index }
    }

    /// The hash of the transaction that created the output.
    pub fn tx_hash(&self) -> (r: &[u8])
        ensures
            r@ == self@.tx_hash,
    {
        self.tx_hash.as_slice()
    }

    /// The place of the output among those of its transaction.
    pub fn index(&self) -> (r: u64)
        ensures
            r == self@.index,
    {
        self.index
    }

    /// A name as text: the hash of the transaction in hexadecimal digits, `#`,
    /// and the place of the output in decimal digits.
    pub open spec fn text_of(id: OutputIdView) -> Seq<char> {
        crate::hex::hex_encoding(id.tx_hash) + "#"@ + crate::text::decimal(id.index as nat)
    }

    /// The name as text.
    pub fn text(&self) -> (r: String)
        ensures
            r@ == Self::text_of(self@),
    {
        crate::hex::encode(&self.tx_hash).concat("#").concat(
            crate::text::decimal_text(self.index).as_str(),
        )
    }
}

/// An output of a committed transaction, as the ledger holds it until it is
/// spent.
#[derive(Debug, PartialEq, Eq)]
pub enum Output<Datum> {
    Wallet { id: OutputId, owner: Address, values: Values },
    Validator { id: OutputId, owner: Address, values: Values, datum: Datum },
}

/// The mathematical value of an [`Output`].
pub struct OutputView<Datum> {
    pub id: OutputIdView,
    pub owner: AddressView,
    pub values: Map<AssetId, u64>,
    pub datum: Option<Datum>,
}

impl<Datum> OutputView<Datum> {
    /// Whether `self` is what cloning `source` may give: the same but for the
    /// datum, which is a clone of that of `source`.
    pub open spec fn is_clone_of(self, source: OutputView<Datum>) -> bool where Datum: Clone {
        &&& self.id == source.id
        &&& self.owner == source.owner
        &&& self.values == source.values
        &&& match (source.datum, self.datum) {
            (Some(theirs), Some(ours)) => cloned::<Datum>(theirs, ours),
            (None, None) => true,
            _ => false,
        }
    }
}

impl<Datum> View for Output<Datum> {
    type V = OutputView<Datum>;

    open spec fn view(&self) -> OutputView<Datum> {
        match self {
            Output::Wallet { id, owner, values } => OutputView {
                id: id@,
                owner: owner@,
                values: values@,
                datum: None,
            },
            Output::Validator { id, owner, values, datum } => OutputView {
                id: id@,
                owner: owner@,
                values: values@,
                datum: Some(*datum),
            },
        }
    }
}

impl<Datum: Clone> Clone for Output<Datum> {
    fn clone(&self) -> (r: Self)
        ensures
            r@.is_clone_of(self@),
    {
        match self {
            Output::Wallet { id, owner, values } => Output::Wallet {
                id: id.clone(),
                owner: owner.clone(),
                values: values.clone(),
            },
            Output::Validator { id, owner, values, datum } => Output::Validator {
                id: id.clone(),
                owner: owner.clone(),
                values: values.clone(),
                datum: datum.clone(),
            },
        }
    }
}

impl<Datum> Output<Datum> {
    /// The value that the output holds.
    pub open spec fn held(self) -> Values {
        match self {
            Output::Wallet { values, .. } => values,
            Output::Validator { values, .. } => values,
        }
    }

    /// Output `index` of the transaction with hash `tx_hash`, held by the
    /// wallet of `owner`.
    pub fn new_wallet(tx_hash: Vec<u8>, index: u64, owner: Address, values: Values) -> (r: Self)
        ensures
            r@ == (OutputView::<Datum> {
                id: OutputIdView { tx_hash: tx_hash@, index },
                owner: owner@,
                values: values@,
                datum: None,
            }),
            r.held() == values,
    {
        let id = OutputId::new(tx_hash, index);
        Output::Wallet { id, owner, values }
    }

    /// Output `index` of the transaction with hash `tx_hash`, locked under the
    /// script at `owner`.
    pub fn new_validator(
        tx_hash: Vec<u8>,
        index: u64,
        owner: Address,
        values: Values,
        datum: Datum,
    ) -> (r: Self)
        ensures
            r@ == (OutputView {
                id: OutputIdView { tx_hash: tx_hash@, index },
                owner: owner@,
                values: values@,
                datum: Some(datum),
            }),
            r.held() == values,
    {
        let id = OutputId::new(tx_hash, index);
        Output::Validator { id, owner, values, datum }
    }

    /// The name of the output.
    pub fn id(&self) -> (r: &OutputId)
        ensures
            r@ == self@.id,
    {
        match self {
            Output::Wallet { id, .. } => id,
            Output::Validator { id, .. } => id,
        }
    }

    /// The address that holds the output.
    pub fn owner(&self) -> (r: &Address)
        ensures
            r@ == self@.owner,
    {
        match self {
            Output::Wallet { owner, .. } => owner,
            Output::Validator { owner, .. } => owner,
        }
    }

    /// The value of the output.
    pub fn values(&self) -> (r: &Values)
        ensures
            r@ == self@.values,
            *r == self.held(),
    {
        match self {
            Output::Wallet { values, .. } => values,
            Output::Validator { values, .. } => values,
        }
    }

    /// The datum of a script output; a wallet output has none.
    pub fn datum(&self) -> (r: Option<&Datum>)
        ensures
            match r {
                Some(datum) => self@.datum == Some(*datum),
                None => self@.datum is None,
            },
    {
        match self {
            Output::Wallet { .. } => None,
            Output::Validator { datum, .. } => Some(datum),
        }
    }
}

} // verus!
