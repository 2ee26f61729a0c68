//! Asset identifiers and ledger addresses.
use crate::bytes::{bytes_eq, clone_bytes, clone_opt_string, opt_string_eq, opt_text};
use vstd::prelude::*;
use vstd::std_specs::cmp::PartialEqSpecImpl;
use vstd::string::*;

verus! {

/// Names an asset: the base currency, or a native token given by the id of its
/// minting policy and, optionally, an asset name.
#[derive(Debug, Eq, Hash)]
pub enum PolicyId {
    Lovelace,
    NativeToken(String, Option<String>),
}

/// The mathematical value of a [`PolicyId`].
pub enum AssetId {
    Lovelace,
    NativeToken(Seq<char>, Option<Seq<char>>),
}

impl View for PolicyId {
    type V = AssetId;

    open spec fn view(&self) -> AssetId {
        match self {
            PolicyId::Lovelace => AssetId::Lovelace,
            PolicyId::NativeToken(id, asset) => AssetId::NativeToken(id@, opt_text(*asset)),
        }
    }
}

impl Clone for PolicyId {
    fn clone(&self) -> (r: Self)
        ensures
            r@ == self@,
    {
        match self {
            PolicyId::Lovelace => PolicyId::Lovelace,
            PolicyId::NativeToken(id, asset) => PolicyId::NativeToken(
                id.clone(),
                clone_opt_string(asset),
            ),
        }
    }
}

impl PartialEq for PolicyId {
    fn eq(&self, other: &Self) -> (r: bool) {
        match self {
            PolicyId::Lovelace => match other {
                PolicyId::Lovelace => true,
                _ => false,
            },
            PolicyId::NativeToken(id, asset) => match other {
                PolicyId::NativeToken(other_id, other_asset) => {
                    let same_id = *id == *other_id;
                    assert(same_id == (id@ == other_id@));
                    same_id && opt_string_eq(asset, other_asset)
                },
                _ => false,
            },
        }
    }
}

impl PartialEqSpecImpl for PolicyId {
    open spec fn obeys_eq_spec() -> bool {
        true
    }

    open spec fn eq_spec(&self, other: &Self) -> bool {
        self@ == other@
    }
}

impl PolicyId {
    /// The base currency.
    pub fn ada() -> (r: PolicyId)
        ensures
            r@ == AssetId::Lovelace,
    {
        PolicyId::Lovelace
    }

    /// The native token of policy `id` with the given asset name.
    pub fn native_token(id: &str, asset: &Option<String>) -> (r: PolicyId)
        ensures
            r@ == AssetId::NativeToken(id@, opt_text(*asset)),
    {
        PolicyId::NativeToken(id.to_owned(), clone_opt_string(asset))
    }

    /// The text form of a native token: the policy id, followed by a hyphen and
    /// the asset name where there is one. The base currency has none.
    pub fn to_str(&self) -> (r: Option<String>)
        ensures
            opt_text(r) == Self::text_of(self@),
    {
        match self {
            PolicyId::Lovelace => None,
            PolicyId::NativeToken(id, maybe_asset) => {
                match maybe_asset {
                    Some(asset) => {
                        let text = id.clone().concat("-").concat(asset.as_str());
                        Some(text)
                    },
                    None => Some(id.clone()),
                }
            },
        }
    }

    /// What [`PolicyId::to_str`] returns.
    pub open spec fn text_of(asset: AssetId) -> Option<Seq<char>> {
        match asset {
            AssetId::Lovelace => None,
            AssetId::NativeToken(id, Some(name)) => Some(id + "-"@ + name),
            AssetId::NativeToken(id, None) => Some(id),
        }
    }

    /// The asset name of a native token, if it has one.
    pub fn asset_name(&self) -> (r: Option<String>)
        ensures
            opt_text(r) == match self@ {
                AssetId::Lovelace => None,
                AssetId::NativeToken(_, name) => name,
            },
    {
        match self {
            PolicyId::Lovelace => None,
            PolicyId::NativeToken(_, asset_name) => clone_opt_string(asset_name),
        }
    }
}

/// Who may spend from an address: the holder of a key, or a script.
#[derive(Debug, Eq)]
pub enum PaymentPart {
    Key(Vec<u8>),
    Script(Vec<u8>),
}

/// The mathematical value of a [`PaymentPart`].
pub enum PaymentCredential {
    Key(Seq<u8>),
    Script(Seq<u8>),
}

impl View for PaymentPart {
    type V = PaymentCredential;

    open spec fn view(&self) -> PaymentCredential {
        match self {
            PaymentPart::Key(hash) => PaymentCredential::Key(hash@),
            PaymentPart::Script(hash) => PaymentCredential::Script(hash@),
        }
    }
}

impl Clone for PaymentPart {
    fn clone(&self) -> (r: Self)
        ensures
            r@ == self@,
    {
        match self {
            PaymentPart::Key(hash) => PaymentPart::Key(clone_bytes(hash)),
            PaymentPart::Script(hash) => PaymentPart::Script(clone_bytes(hash)),
        }
    }
}

impl PartialEq for PaymentPart {
    fn eq(&self, other: &Self) -> (r: bool) {
        match self {
            PaymentPart::Key(hash) => match other {
                PaymentPart::Key(other_hash) => bytes_eq(hash, other_hash),
                _ => false,
            },
            PaymentPart::Script(hash) => match other {
                PaymentPart::Script(other_hash) => bytes_eq(hash, other_hash),
                _ => false,
            },
        }
    }
}

impl PartialEqSpecImpl for PaymentPart {
    open spec fn obeys_eq_spec() -> bool {
        true
    }

    open spec fn eq_spec(&self, other: &Self) -> bool {
        self@ == other@
    }
}

/// To whom the stake of an address is delegated.
#[derive(Debug, Eq)]
pub enum DelegationPart {
    Key(Vec<u8>),
    Script(Vec<u8>),
    Pointer { slot: u64, tx_idx: u64, cert_idx: u64 },
    Null,
}

/// The mathematical value of a [`DelegationPart`].
pub enum StakeCredential {
    Key(Seq<u8>),
    Script(Seq<u8>),
    Pointer { slot: u64, tx_idx: u64, cert_idx: u64 },
    Null,
}

impl View for DelegationPart {
    type V = StakeCredential;

    open spec fn view(&self) -> StakeCredential {
        match self {
            DelegationPart::Key(hash) => StakeCredential::Key(hash@),
            DelegationPart::Script(hash) => StakeCredential::Script(hash@),
            DelegationPart::Pointer { slot, tx_idx, cert_idx } => StakeCredential::Pointer {
                slot: *slot,
                tx_idx: *tx_idx,
                cert_idx: *cert_idx,
            },
            DelegationPart::Null => StakeCredential::Null,
        }
    }
}

impl Clone for DelegationPart {
    fn clone(&self) -> (r: Self)
        ensures
            r@ == self@,
    {
        match self {
            DelegationPart::Key(hash) => DelegationPart::Key(clone_bytes(hash)),
            DelegationPart::Script(hash) => DelegationPart::Script(clone_bytes(hash)),
            DelegationPart::Pointer { slot, tx_idx, cert_idx } => DelegationPart::Pointer {
                slot: *slot,
                tx_idx: *tx_idx,
                cert_idx: *cert_idx,
            },
            DelegationPart::Null => DelegationPart::Null,
        }
    }
}

impl PartialEq for DelegationPart {
    fn eq(&self, other: &Self) -> (r: bool) {
        match self {
            DelegationPart::Key(hash) => match other {
                DelegationPart::Key(other_hash) => bytes_eq(hash, other_hash),
                _ => false,
            },
            DelegationPart::Script(hash) => match other {
                DelegationPart::Script(other_hash) => bytes_eq(hash, other_hash),
                _ => false,
            },
            DelegationPart::Pointer { slot, tx_idx, cert_idx } => match other {
                DelegationPart::Pointer { slot: s, tx_idx: t, cert_idx: c } => *slot == *s
                    && *tx_idx == *t && *cert_idx == *c,
                _ => false,
            },
            DelegationPart::Null => match other {
                DelegationPart::Null => true,
                _ => false,
            },
        }
    }
}

impl PartialEqSpecImpl for DelegationPart {
    open spec fn obeys_eq_spec() -> bool {
        true
    }

    open spec fn eq_spec(&self, other: &Self) -> bool {
        self@ == other@
    }
}

/// A ledger address: a network tag, a payment part and a delegation part.
#[derive(Debug, Eq)]
pub struct Address {
    pub network: u8,
    pub payment: PaymentPart,
    pub delegation: DelegationPart,
}

/// The mathematical value of an [`Address`].
pub struct AddressView {
    pub network: u8,
    pub payment: PaymentCredential,
    pub delegation: StakeCredential,
}

impl View for Address {
    type V = AddressView;

    open spec fn view(&self) -> AddressView {
        AddressView {
            network: self.network,
            payment: self.payment@,
            delegation: self.delegation@,
        }
    }
}

impl Clone for Address {
    fn clone(&self) -> (r: Self)
        ensures
            r@ == self@,
    {
        Address {
            network: self.network,
            payment: self.payment.clone(),
            delegation: self.delegation.clone(),
        }
    }
}

impl PartialEq for Address {
    fn eq(&self, other: &Self) -> (r: bool) {
        self.network == other.network && self.payment == other.payment && self.delegation
            == other.delegation
    }
}

impl PartialEqSpecImpl for Address {
    open spec fn obeys_eq_spec() -> bool {
        true
    }

    open spec fn eq_spec(&self, other: &Self) -> bool {
        self@ == other@
    }
}

impl AddressView {
    /// Whether a script guards what is held at the address.
    pub open spec fn is_script(self) -> bool {
        self.payment is Script
    }
}

impl Address {
    /// The address of the holder of the key with the given hash, without
    /// delegation.
    pub fn from_key_hash(network: u8, key_hash: Vec<u8>) -> (r: Address)
        ensures
            r@ == (AddressView {
                network,
                payment: PaymentCredential::Key(key_hash@),
                delegation: StakeCredential::Null,
            }),
    {
        Address { network, payment: PaymentPart::Key(key_hash), delegation: DelegationPart::Null }
    }

    /// The address of the script with the given hash, without delegation.
    pub fn from_script_hash(network: u8, script_hash: Vec<u8>) -> (r: Address)
        ensures
            r@ == (AddressView {
                network,
                payment: PaymentCredential::Script(script_hash@),
                delegation: StakeCredential::Null,
            }),
    {
        Address {
            network,
            payment: PaymentPart::Script(script_hash),
            delegation: DelegationPart::Null,
        }
    }

    /// Whether a script guards what is held at the address.
    pub fn is_script(&self) -> (r: bool)
        ensures
            r == self@.is_script(),
    {
        match &self.payment {
            PaymentPart::Script(_) => true,
            PaymentPart::Key(_) => false,
        }
    }
}

impl Address {
    /// An address as text: the network, the payment part and the delegation
    /// part, each hash in hexadecimal digits and each number in decimal
    /// digits.
    pub open spec fn text_of(address: AddressView) -> Seq<char> {
        "network "@ + crate::text::decimal(address.network as nat) + match address.payment {
            PaymentCredential::Key(hash) => ", key "@ + crate::hex::hex_encoding(hash),
            PaymentCredential::Script(hash) => ", script "@ + crate::hex::hex_encoding(hash),
        } + match address.delegation {
            StakeCredential::Key(hash) => ", stake key "@ + crate::hex::hex_encoding(hash),
            StakeCredential::Script(hash) => ", stake script "@ + crate::hex::hex_encoding(hash),
            StakeCredential::Pointer { slot, tx_idx, cert_idx } => ", pointer "@
                + crate::text::decimal(slot as nat) + " "@ + crate::text::decimal(tx_idx as nat)
                + " "@ + crate::text::decimal(cert_idx as nat),
            StakeCredential::Null => ", no stake"@,
        }
    }

    /// The address as text.
    pub fn text(&self) -> (r: String)
        ensures
            r@ == Self::text_of(self@),
    {
        let network = "network ".to_owned().concat(
            crate::text::decimal_text(self.network as u64).as_str(),
        );
        let payment = match &self.payment {
            PaymentPart::Key(hash) => ", key ".to_owned().concat(
                crate::hex::encode(hash).as_str(),
            ),
            PaymentPart::Script(hash) => ", script ".to_owned().concat(
                crate::hex::encode(hash).as_str(),
            ),
        };
        let delegation = match &self.delegation {
            DelegationPart::Key(hash) => ", stake key ".to_owned().concat(
                crate::hex::encode(hash).as_str(),
            ),
            DelegationPart::Script(hash) => ", stake script ".to_owned().concat(
                crate::hex::encode(hash).as_str(),
            ),
            DelegationPart::Pointer { slot, tx_idx, cert_idx } => ", pointer ".to_owned().concat(
                crate::text::decimal_text(*slot).as_str(),
            ).concat(" ").concat(crate::text::decimal_text(*tx_idx).as_str()).concat(" ").concat(
                crate::text::decimal_text(*cert_idx).as_str(),
            ),
            DelegationPart::Null => ", no stake".to_owned(),
        };
        network.concat(payment.as_str()).concat(delegation.as_str())
    }
}

} // verus!
