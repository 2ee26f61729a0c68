//! The validation context: what a script is shown of the transaction that it
//! is asked to permit.
use crate::address::{Address, AddressView, PaymentPart};
use crate::bytes::{bytes_eq, clone_bytes, clone_opt_bytes, opt_bytes, to_vec};
use crate::model::{lemma_views_push, views};
use crate::scripts::raw_validator_script::plutus_data::{PlutusData, Term};
use vstd::prelude::*;
use vstd::std_specs::cmp::PartialEqSpecImpl;

verus! {

/// The hash of a public key.
#[derive(Debug, Eq)]
pub struct PubKeyHash(Vec<u8>);

impl View for PubKeyHash {
    type V = Seq<u8>;

    closed spec fn view(&self) -> Seq<u8> {
        self.0@
    }
}

impl Clone for PubKeyHash {
    fn clone(&self) -> (r: Self)
        ensures
            r@ == self@,
    {
        PubKeyHash(clone_bytes(&self.0))
    }
}

impl PartialEq for PubKeyHash {
    fn eq(&self, other: &Self) -> (r: bool) {
        bytes_eq(&self.0, &other.0)
    }
}

impl PartialEqSpecImpl for PubKeyHash {
    open spec fn obeys_eq_spec() -> bool {
        true
    }

    open spec fn eq_spec(&self, other: &Self) -> bool {
        self@ == other@
    }
}

impl PubKeyHash {
    /// The hash with the given bytes.
    pub fn new(inner: &[u8]) -> (r: Self)
        ensures
            r@ == inner@,
    {
        PubKeyHash(to_vec(inner))
    }

    /// The bytes of the hash.
    pub fn bytes(&self) -> (r: Vec<u8>)
        ensures
            r@ == self@,
    {
        clone_bytes(&self.0)
    }
}

/// The hash of the key that spends from `address`; an address that a script
/// guards has none.
pub fn pub_key_hash_from_address_if_available(address: &Address) -> (r: Option<PubKeyHash>)
    ensures
        match r {
            Some(hash) => address@.payment == crate::address::PaymentCredential::Key(hash@),
            None => address@.payment is Script,
        },
{
    match &address.payment {
        PaymentPart::Key(hash) => Some(PubKeyHash(clone_bytes(hash))),
        PaymentPart::Script(_) => None,
    }
}

/// The time range in which a transaction is valid. Each bound carries a flag
/// that says whether the bound itself belongs to the range.
#[derive(Debug, Clone, Copy, Eq)]
pub struct ValidRange {
    pub lower: Option<(i64, bool)>,
    pub upper: Option<(i64, bool)>,
}

/// Compares two bounds.
pub fn bound_eq(a: Option<(i64, bool)>, b: Option<(i64, bool)>) -> (r: bool)
    ensures
        r == (a == b),
{
    match a {
        Some((time, inclusive)) => match b {
            Some((other_time, other_inclusive)) => time == other_time && inclusive
                == other_inclusive,
            None => false,
        },
        None => b.is_none(),
    }
}

impl PartialEq for ValidRange {
    fn eq(&self, other: &Self) -> (r: bool) {
        bound_eq(self.lower, other.lower) && bound_eq(self.upper, other.upper)
    }
}

impl PartialEqSpecImpl for ValidRange {
    open spec fn obeys_eq_spec() -> bool {
        true
    }

    open spec fn eq_spec(&self, other: &Self) -> bool {
        *self == *other
    }
}

/// Names an output by the transaction that created it and its place in it.
#[derive(Debug, Eq)]
pub struct CtxOutputReference {
    pub transaction_id: Vec<u8>,
    pub output_index: u64,
}

/// The mathematical value of a [`CtxOutputReference`].
pub struct OutputRef {
    pub transaction_id: Seq<u8>,
    pub output_index: u64,
}

impl View for CtxOutputReference {
    type V = OutputRef;

    open spec fn view(&self) -> OutputRef {
        OutputRef { transaction_id: self.transaction_id@, output_index: self.output_index }
    }
}

impl Clone for CtxOutputReference {
    fn clone(&self) -> (r: Self)
        ensures
            r@ == self@,
    {
        CtxOutputReference {
            transaction_id: clone_bytes(&self.transaction_id),
            output_index: self.output_index,
        }
    }
}

impl PartialEq for CtxOutputReference {
    fn eq(&self, other: &Self) -> (r: bool) {
        self.output_index == other.output_index && bytes_eq(
            &self.transaction_id,
            &other.transaction_id,
        )
    }
}

impl PartialEqSpecImpl for CtxOutputReference {
    open spec fn obeys_eq_spec() -> bool {
        true
    }

    open spec fn eq_spec(&self, other: &Self) -> bool {
        self@ == other@
    }
}

/// Why a script is run: to permit spending an output, or minting under a
/// policy.
#[derive(Debug, Eq)]
pub enum CtxScriptPurpose {
    Mint(Vec<u8>),
    Spend(CtxOutputReference),
}

/// The mathematical value of a [`CtxScriptPurpose`].
pub enum Purpose {
    Mint(Seq<u8>),
    Spend(OutputRef),
}

impl View for CtxScriptPurpose {
    type V = Purpose;

    open spec fn view(&self) -> Purpose {
        match self {
            CtxScriptPurpose::Mint(policy) => Purpose::Mint(policy@),
            CtxScriptPurpose::Spend(reference) => Purpose::Spend(reference@),
        }
    }
}

impl Clone for CtxScriptPurpose {
    fn clone(&self) -> (r: Self)
        ensures
            r@ == self@,
    {
        match self {
            CtxScriptPurpose::Mint(policy) => CtxScriptPurpose::Mint(clone_bytes(policy)),
            CtxScriptPurpose::Spend(reference) => CtxScriptPurpose::Spend(reference.clone()),
        }
    }
}

impl PartialEq for CtxScriptPurpose {
    fn eq(&self, other: &Self) -> (r: bool) {
        match self {
            CtxScriptPurpose::Mint(policy) => match other {
                CtxScriptPurpose::Mint(other_policy) => bytes_eq(policy, other_policy),
                _ => false,
            },
            CtxScriptPurpose::Spend(reference) => match other {
                CtxScriptPurpose::Spend(other_reference) => *reference == *other_reference,
                _ => false,
            },
        }
    }
}

impl PartialEqSpecImpl for CtxScriptPurpose {
    open spec fn obeys_eq_spec() -> bool {
        true
    }

    open spec fn eq_spec(&self, other: &Self) -> bool {
        self@ == other@
    }
}

/// The datum of an output as a script sees it.
#[derive(Debug, PartialEq, Eq)]
pub enum CtxDatum {
    NoDatum,
    DatumHash(Vec<u8>),
    InlineDatum(PlutusData),
}

/// The mathematical value of a [`CtxDatum`].
pub enum DatumView {
    NoDatum,
    DatumHash(Seq<u8>),
    InlineDatum(Term),
}

impl View for CtxDatum {
    type V = DatumView;

    open spec fn view(&self) -> DatumView {
        match self {
            CtxDatum::NoDatum => DatumView::NoDatum,
            CtxDatum::DatumHash(hash) => DatumView::DatumHash(hash@),
            CtxDatum::InlineDatum(data) => DatumView::InlineDatum(data@),
        }
    }
}

impl Clone for CtxDatum {
    fn clone(&self) -> (r: Self)
        ensures
            r@ == self@,
    {
        match self {
            CtxDatum::NoDatum => CtxDatum::NoDatum,
            CtxDatum::DatumHash(hash) => CtxDatum::DatumHash(clone_bytes(hash)),
            CtxDatum::InlineDatum(data) => CtxDatum::InlineDatum(data.clone()),
        }
    }
}

/// The quantities of one policy: for each asset name an amount.
pub type AssetAmounts = Seq<(Seq<char>, u64)>;

/// The mathematical value of a [`CtxValue`]: for each policy id, in the order
/// in which the policies were first named, the amounts of its assets.
pub type ValueView = Seq<(Seq<char>, AssetAmounts)>;

/// The amounts of a list of assets, each name by its characters.
pub open spec fn assets_view(assets: Seq<(String, u64)>) -> AssetAmounts {
    Seq::new(assets.len(), |i: int| (assets[i].0@, assets[i].1))
}

/// The place of the first entry for `name`, or the length where there is none.
pub open spec fn asset_index(assets: AssetAmounts, name: Seq<char>) -> int
    decreases assets.len(),
{
    if assets.len() == 0 {
        0
    } else if assets[0].0 == name {
        0
    } else {
        1 + asset_index(assets.drop_first(), name)
    }
}

/// The place of the first entry for `policy`, or the length where there is
/// none.
pub open spec fn policy_index(value: ValueView, policy: Seq<char>) -> int
    decreases value.len(),
{
    if value.len() == 0 {
        0
    } else if value[0].0 == policy {
        0
    } else {
        1 + policy_index(value.drop_first(), policy)
    }
}

/// The amount that `value` holds of the asset `name` of `policy`.
pub open spec fn held(value: ValueView, policy: Seq<char>, name: Seq<char>) -> nat {
    let p = policy_index(value, policy);
    if p < value.len() {
        let a = asset_index(value[p].1, name);
        if a < value[p].1.len() {
            value[p].1[a].1 as nat
        } else {
            0
        }
    } else {
        0
    }
}

/// `assets` with `amount` more of the asset `name`.
pub open spec fn with_asset(assets: AssetAmounts, name: Seq<char>, amount: u64) -> AssetAmounts {
    let a = asset_index(assets, name);
    if a < assets.len() {
        assets.update(a, (name, (assets[a].1 + amount) as u64))
    } else {
        assets.push((name, amount))
    }
}

/// `value` with `amount` more of the asset `name` of `policy`.
pub open spec fn with_amount(value: ValueView, policy: Seq<char>, name: Seq<char>, amount: u64)
    -> ValueView {
    let p = policy_index(value, policy);
    if p < value.len() {
        value.update(p, (policy, with_asset(value[p].1, name, amount)))
    } else {
        value.push((policy, seq![(name, amount)]))
    }
}

/// The first place with the given name is within the sequence or just behind
/// it, and no earlier entry has the name.
pub proof fn lemma_asset_index(assets: AssetAmounts, name: Seq<char>)
    ensures
        0 <= asset_index(assets, name) <= assets.len(),
        asset_index(assets, name) < assets.len() ==> assets[asset_index(assets, name)].0 == name,
        forall|i: int| 0 <= i < asset_index(assets, name) ==> (#[trigger] assets[i]).0 != name,
    decreases assets.len(),
{
    if assets.len() > 0 && assets[0].0 != name {
        let rest = assets.drop_first();
        lemma_asset_index(rest, name);
        assert forall|i: int| 0 <= i < asset_index(assets, name) implies (#[trigger] assets[i]).0
            != name by {
            if i > 0 {
                assert(rest[i - 1] == assets[i]);
            }
        }
    }
}

/// The first place with the given policy is within the sequence or just
/// behind it, and no earlier entry has the policy.
pub proof fn lemma_policy_index(value: ValueView, policy: Seq<char>)
    ensures
        0 <= policy_index(value, policy) <= value.len(),
        policy_index(value, policy) < value.len() ==> value[policy_index(value, policy)].0
            == policy,
        forall|i: int| 0 <= i < policy_index(value, policy) ==> (#[trigger] value[i]).0 != policy,
    decreases value.len(),
{
    if value.len() > 0 && value[0].0 != policy {
        let rest = value.drop_first();
        lemma_policy_index(rest, policy);
        assert forall|i: int| 0 <= i < policy_index(value, policy) implies (#[trigger] value[i]).0
            != policy by {
            if i > 0 {
                assert(rest[i - 1] == value[i]);
            }
        }
    }
}

/// A place that holds the name, with none before it, is the first.
pub proof fn lemma_asset_index_is(assets: AssetAmounts, name: Seq<char>, at: int)
    requires
        0 <= at <= assets.len(),
        at < assets.len() ==> assets[at].0 == name,
        forall|i: int| 0 <= i < at ==> (#[trigger] assets[i]).0 != name,
    ensures
        asset_index(assets, name) == at,
{
    lemma_asset_index(assets, name);
    let found = asset_index(assets, name);
    if found < at {
        assert(assets[found].0 != name);
    }
    if at < found {
        assert(assets[at].0 != name);
    }
}

/// A place that holds the policy, with none before it, is the first.
pub proof fn lemma_policy_index_is(value: ValueView, policy: Seq<char>, at: int)
    requires
        0 <= at <= value.len(),
        at < value.len() ==> value[at].0 == policy,
        forall|i: int| 0 <= i < at ==> (#[trigger] value[i]).0 != policy,
    ensures
        policy_index(value, policy) == at,
{
    lemma_policy_index(value, policy);
    let found = policy_index(value, policy);
    if found < at {
        assert(value[found].0 != policy);
    }
    if at < found {
        assert(value[at].0 != policy);
    }
}

/// A value as a script sees it: for each policy id the amounts of its assets.
/// The base currency stands under the empty policy id and the empty name.
#[derive(Debug, PartialEq, Eq)]
pub struct CtxValue {
    pub inner: Vec<(String, Vec<(String, u64)>)>,
}

impl View for CtxValue {
    type V = ValueView;

    open spec fn view(&self) -> ValueView {
        Seq::new(self.inner@.len(), |i: int| (self.inner@[i].0@, assets_view(self.inner@[i].1@)))
    }
}

/// A copy of a list of asset amounts.
pub fn clone_assets(assets: &Vec<(String, u64)>) -> (r: Vec<(String, u64)>)
    ensures
        assets_view(r@) == assets_view(assets@),
{
    let mut out: Vec<(String, u64)> = Vec::new();
    let mut i: usize = 0;
    while i < assets.len()
        invariant
            i <= assets.len(),
            out.len() == i,
            forall|j: int| 0 <= j < i ==> out[j].0@ == assets[j].0@ && out[j].1 == assets[j].1,
        decreases assets.len() - i,
    {
        out.push((assets[i].0.clone(), assets[i].1));
        i += 1;
    }
    assert(assets_view(out@) =~= assets_view(assets@));
    out
}

impl Clone for CtxValue {
    fn clone(&self) -> (r: Self)
        ensures
            r@ == self@,
    {
        let mut inner: Vec<(String, Vec<(String, u64)>)> = Vec::new();
        let mut i: usize = 0;
        while i < self.inner.len()
            invariant
                i <= self.inner.len(),
                inner.len() == i,
                forall|j: int|
                    0 <= j < i ==> inner[j].0@ == self.inner[j].0@ && assets_view(inner[j].1@)
                        == assets_view(self.inner[j].1@),
            decreases self.inner.len() - i,
        {
            inner.push((self.inner[i].0.clone(), clone_assets(&self.inner[i].1)));
            i += 1;
        }
        let r = CtxValue { inner };
        assert(r@ =~= self@);
        r
    }
}

impl CtxValue {
    /// The value without any asset.
    pub fn new() -> (r: CtxValue)
        ensures
            r@ == Seq::<(Seq<char>, AssetAmounts)>::empty(),
    {
        let r = CtxValue { inner: Vec::new() };
        assert(r@ =~= Seq::<(Seq<char>, AssetAmounts)>::empty());
        r
    }

    /// The amount held of the asset `asset_name` of `policy_id`.
    pub fn amount_of(&self, policy_id: &str, asset_name: &str) -> (r: u64)
        ensures
            r == held(self@, policy_id@, asset_name@),
    {
        let p = self.find_policy(policy_id);
        if p < self.inner.len() {
            let a = Self::find_asset(&self.inner[p].1, asset_name);
            if a < self.inner[p].1.len() {
                self.inner[p].1[a].1
            } else {
                0
            }
        } else {
            0
        }
    }

    fn find_policy(&self, policy_id: &str) -> (r: usize)
        ensures
            r == policy_index(self@, policy_id@),
            r <= self.inner.len(),
    {
        let wanted = policy_id.to_owned();
        let mut i: usize = 0;
        while i < self.inner.len()
            invariant
                i <= self.inner.len(),
                wanted@ == policy_id@,
                forall|j: int| 0 <= j < i ==> (#[trigger] self@[j]).0 != policy_id@,
            decreases self.inner.len() - i,
        {
            let same = self.inner[i].0 == wanted;
            assert(same == (self@[i as int].0 == policy_id@));
            if same {
                proof {
                    lemma_policy_index_is(self@, policy_id@, i as int);
                }
                return i;
            }
            i += 1;
        }
        proof {
            lemma_policy_index_is(self@, policy_id@, i as int);
        }
        i
    }

    fn find_asset(assets: &Vec<(String, u64)>, asset_name: &str) -> (r: usize)
        ensures
            r == asset_index(assets_view(assets@), asset_name@),
            r <= assets.len(),
    {
        let wanted = asset_name.to_owned();
        let mut i: usize = 0;
        while i < assets.len()
            invariant
                i <= assets.len(),
                wanted@ == asset_name@,
                forall|j: int| 0 <= j < i ==> (#[trigger] assets_view(assets@)[j]).0 != asset_name@,
            decreases assets.len() - i,
        {
            let same = assets[i].0 == wanted;
            assert(same == (assets_view(assets@)[i as int].0 == asset_name@));
            if same {
                proof {
                    lemma_asset_index_is(assets_view(assets@), asset_name@, i as int);
                }
                return i;
            }
            i += 1;
        }
        proof {
            lemma_asset_index_is(assets_view(assets@), asset_name@, i as int);
        }
        i
    }

    /// Adds `amount` of the asset `asset_name` of `policy_id`, to the amount
    /// already held of it where there is one.
    pub fn add(&mut self, policy_id: &str, asset_name: &str, amount: u64)
        requires
            held(old(self)@, policy_id@, asset_name@) + amount <= u64::MAX,
        ensures
            final(self)@ == with_amount(old(self)@, policy_id@, asset_name@, amount),
    {
        let ghost before = self@;
        let p = self.find_policy(policy_id);
        if p < self.inner.len() {
            let a = Self::find_asset(&self.inner[p].1, asset_name);
            let mut assets = clone_assets(&self.inner[p].1);
            if a < assets.len() {
                let total: u64 = assets[a].1 + amount;
                assets.set(a, (asset_name.to_owned(), total));
            } else {
                assets.push((asset_name.to_owned(), amount));
            }
            assert(assets_view(assets@) =~= with_asset(before[p as int].1, asset_name@, amount));
            self.inner.set(p, (policy_id.to_owned(), assets));
            assert(self@ =~= with_amount(before, policy_id@, asset_name@, amount));
        } else {
            let mut assets: Vec<(String, u64)> = Vec::new();
            assets.push((asset_name.to_owned(), amount));
            assert(assets_view(assets@) =~= seq![(asset_name@, amount)]);
            self.inner.push((policy_id.to_owned(), assets));
            assert(self@ =~= with_amount(before, policy_id@, asset_name@, amount));
        }
    }
}

impl CtxValue {
    /// Adds `amount` of the asset `asset_name` of `policy_id` where the sum is
    /// an amount, and says whether it is. Where it is not, nothing changes.
    pub fn try_add(&mut self, policy_id: &str, asset_name: &str, amount: u64) -> (r: bool)
        ensures
            r == (held(old(self)@, policy_id@, asset_name@) + amount <= u64::MAX),
            r ==> final(self)@ == with_amount(old(self)@, policy_id@, asset_name@, amount),
            !r ==> final(self)@ == old(self)@,
    {
        let already = self.amount_of(policy_id, asset_name);
        if amount > u64::MAX - already {
            false
        } else {
            self.add(policy_id, asset_name, amount);
            true
        }
    }
}

/// An output as a script sees it.
#[derive(Debug, PartialEq, Eq)]
pub struct CtxOutput {
    pub address: Address,
    pub value: CtxValue,
    pub datum: CtxDatum,
    pub reference_script: Option<Vec<u8>>,
}

/// The mathematical value of a [`CtxOutput`].
pub struct CtxOutputView {
    pub address: AddressView,
    pub value: ValueView,
    pub datum: DatumView,
    pub reference_script: Option<Seq<u8>>,
}

impl View for CtxOutput {
    type V = CtxOutputView;

    open spec fn view(&self) -> CtxOutputView {
        CtxOutputView {
            address: self.address@,
            value: self.value@,
            datum: self.datum@,
            reference_script: opt_bytes(self.reference_script),
        }
    }
}

impl Clone for CtxOutput {
    fn clone(&self) -> (r: Self)
        ensures
            r@ == self@,
    {
        CtxOutput {
            address: self.address.clone(),
            value: self.value.clone(),
            datum: self.datum.clone(),
            reference_script: clone_opt_bytes(&self.reference_script),
        }
    }
}

/// An input as a script sees it: the output that is spent, and its name.
#[derive(Debug, PartialEq, Eq)]
pub struct Input {
    pub transaction_id: Vec<u8>,
    pub output_index: u64,
    pub address: Address,
    pub value: CtxValue,
    pub datum: CtxDatum,
    pub reference_script: Option<Vec<u8>>,
}

/// The mathematical value of an [`Input`].
pub struct InputView {
    pub reference: OutputRef,
    pub output: CtxOutputView,
}

impl View for Input {
    type V = InputView;

    open spec fn view(&self) -> InputView {
        InputView {
            reference: OutputRef {
                transaction_id: self.transaction_id@,
                output_index: self.output_index,
            },
            output: CtxOutputView {
                address: self.address@,
                value: self.value@,
                datum: self.datum@,
                reference_script: opt_bytes(self.reference_script),
            },
        }
    }
}

impl Clone for Input {
    fn clone(&self) -> (r: Self)
        ensures
            r@ == self@,
    {
        Input {
            transaction_id: clone_bytes(&self.transaction_id),
            output_index: self.output_index,
            address: self.address.clone(),
            value: self.value.clone(),
            datum: self.datum.clone(),
            reference_script: clone_opt_bytes(&self.reference_script),
        }
    }
}

/// The values of a list of datums by their hashes.
pub open spec fn datums_view(datums: Seq<(Vec<u8>, PlutusData)>) -> Seq<(Seq<u8>, Term)> {
    Seq::new(datums.len(), |i: int| (datums[i].0@, datums[i].1@))
}

/// What a script is shown of a transaction.
#[derive(Debug, PartialEq, Eq)]
pub struct TxContext {
    pub purpose: CtxScriptPurpose,
    pub signer: PubKeyHash,
    pub range: ValidRange,
    pub inputs: Vec<Input>,
    pub outputs: Vec<CtxOutput>,
    pub extra_signatories: Vec<PubKeyHash>,
    pub datums: Vec<(Vec<u8>, PlutusData)>,
}

/// The mathematical value of a [`TxContext`].
pub struct TxContextView {
    pub purpose: Purpose,
    pub signer: Seq<u8>,
    pub range: ValidRange,
    pub inputs: Seq<InputView>,
    pub outputs: Seq<CtxOutputView>,
    pub extra_signatories: Seq<Seq<u8>>,
    pub datums: Seq<(Seq<u8>, Term)>,
}

impl View for TxContext {
    type V = TxContextView;

    open spec fn view(&self) -> TxContextView {
        TxContextView {
            purpose: self.purpose@,
            signer: self.signer@,
            range: self.range,
            inputs: views(self.inputs@),
            outputs: views(self.outputs@),
            extra_signatories: views(self.extra_signatories@),
            datums: datums_view(self.datums@),
        }
    }
}

/// Collects what a script is to be shown, piece by piece.
#[derive(Debug, PartialEq, Eq)]
pub struct ContextBuilder {
    pub signer: PubKeyHash,
    pub range: Option<ValidRange>,
    pub inputs: Vec<Input>,
    pub outputs: Vec<CtxOutput>,
    pub extra_signatories: Vec<PubKeyHash>,
    pub datums: Vec<(Vec<u8>, PlutusData)>,
}

/// The mathematical value of a [`ContextBuilder`]: the context that it has
/// collected so far, short of the purpose.
pub struct ContextBuilderView {
    pub signer: Seq<u8>,
    pub range: ValidRange,
    pub inputs: Seq<InputView>,
    pub outputs: Seq<CtxOutputView>,
    pub extra_signatories: Seq<Seq<u8>>,
    pub datums: Seq<(Seq<u8>, Term)>,
}

impl ContextBuilderView {
    /// The context for the given purpose.
    pub open spec fn with_purpose(self, purpose: Purpose) -> TxContextView {
        TxContextView {
            purpose,
            signer: self.signer,
            range: self.range,
            inputs: self.inputs,
            outputs: self.outputs,
            extra_signatories: self.extra_signatories,
            datums: self.datums,
        }
    }
}

/// The range without bounds.
pub open spec fn unbounded() -> ValidRange {
    ValidRange { lower: None, upper: None }
}

impl View for ContextBuilder {
    type V = ContextBuilderView;

    open spec fn view(&self) -> ContextBuilderView {
        ContextBuilderView {
            signer: self.signer@,
            range: match self.range {
                Some(range) => range,
                None => unbounded(),
            },
            inputs: views(self.inputs@),
            outputs: views(self.outputs@),
            extra_signatories: views(self.extra_signatories@),
            datums: datums_view(self.datums@),
        }
    }
}

impl Clone for ContextBuilder {
    fn clone(&self) -> (r: Self)
        ensures
            r@ == self@,
    {
        let mut inputs: Vec<Input> = Vec::new();
        let mut i: usize = 0;
        while i < self.inputs.len()
            invariant
                i <= self.inputs.len(),
                inputs.len() == i,
                forall|j: int| 0 <= j < i ==> inputs[j]@ == self.inputs[j]@,
            decreases self.inputs.len() - i,
        {
            inputs.push(self.inputs[i].clone());
            i += 1;
        }
        let mut outputs: Vec<CtxOutput> = Vec::new();
        let mut i: usize = 0;
        while i < self.outputs.len()
            invariant
                i <= self.outputs.len(),
                outputs.len() == i,
                forall|j: int| 0 <= j < i ==> outputs[j]@ == self.outputs[j]@,
            decreases self.outputs.len() - i,
        {
            outputs.push(self.outputs[i].clone());
            i += 1;
        }
        let mut extra_signatories: Vec<PubKeyHash> = Vec::new();
        let mut i: usize = 0;
        while i < self.extra_signatories.len()
            invariant
                i <= self.extra_signatories.len(),
                extra_signatories.len() == i,
                forall|j: int| 0 <= j < i ==> extra_signatories[j]@ == self.extra_signatories[j]@,
            decreases self.extra_signatories.len() - i,
        {
            extra_signatories.push(self.extra_signatories[i].clone());
            i += 1;
        }
        let mut datums: Vec<(Vec<u8>, PlutusData)> = Vec::new();
        let mut i: usize = 0;
        while i < self.datums.len()
            invariant
                i <= self.datums.len(),
                datums.len() == i,
                forall|j: int|
                    0 <= j < i ==> datums[j].0@ == self.datums[j].0@ && datums[j].1@
                        == self.datums[j].1@,
            decreases self.datums.len() - i,
        {
            datums.push((clone_bytes(&self.datums[i].0), self.datums[i].1.clone()));
            i += 1;
        }
        let r = ContextBuilder {
            signer: self.signer.clone(),
            range: self.range,
            inputs,
            outputs,
            extra_signatories,
            datums,
        };
        assert(r@.inputs =~= self@.inputs);
        assert(r@.outputs =~= self@.outputs);
        assert(r@.extra_signatories =~= self@.extra_signatories);
        assert(r@.datums =~= self@.datums);
        r
    }
}

impl ContextBuilder {
    /// A builder for a transaction that `signer` signs, with no inputs, no
    /// outputs and no bound on its time.
    pub fn new(signer: PubKeyHash) -> (r: Self)
        ensures
            r@ == (ContextBuilderView {
                signer: signer@,
                range: unbounded(),
                inputs: Seq::empty(),
                outputs: Seq::empty(),
                extra_signatories: Seq::empty(),
                datums: Seq::empty(),
            }),
    {
        let r = ContextBuilder {
            signer,
            range: None,
            inputs: Vec::new(),
            outputs: Vec::new(),
            extra_signatories: Vec::new(),
            datums: Vec::new(),
        };
        assert(r@.inputs =~= Seq::empty());
        assert(r@.outputs =~= Seq::empty());
        assert(r@.extra_signatories =~= Seq::empty());
        assert(r@.datums =~= Seq::empty());
        r
    }

    /// Sets the range in which the transaction is valid.
    pub fn with_range(self, lower: Option<(i64, bool)>, upper: Option<(i64, bool)>) -> (r: Self)
        ensures
            r@ == (ContextBuilderView { range: ValidRange { lower, upper }, ..self@ }),
    {
        let mut this = self;
        this.range = Some(ValidRange { lower, upper });
        this
    }

    /// Starts an input: the output `output_index` of transaction
    /// `transaction_id`, held at `address`, so far without value or datum.
    pub fn with_input(self, transaction_id: &[u8], output_index: u64, address: &Address) -> (r:
        CtxInputBuilder)
        ensures
            r.outer@ == self@,
            r.input@ == (InputView {
                reference: OutputRef { transaction_id: transaction_id@, output_index },
                output: CtxOutputView {
                    address: address@,
                    value: Seq::empty(),
                    datum: DatumView::NoDatum,
                    reference_script: None,
                },
            }),
    {
        CtxInputBuilder {
            outer: self,
            input: Input {
                transaction_id: to_vec(transaction_id),
                output_index,
                address: address.clone(),
                value: CtxValue::new(),
                datum: CtxDatum::NoDatum,
                reference_script: None,
            },
        }
    }

    /// Adds a finished input.
    pub fn add_specific_input(self, input: Input) -> (r: Self)
        ensures
            r@ == (ContextBuilderView { inputs: self@.inputs.push(input@), ..self@ }),
    {
        let mut this = self;
        proof {
            lemma_views_push(this.inputs@, input);
        }
        this.inputs.push(input);
        this
    }

    /// Starts an output at `address`, so far without value or datum.
    pub fn with_output(self, address: &Address) -> (r: CtxOutputBuilder)
        ensures
            r.outer@ == self@,
            r.output@ == (CtxOutputView {
                address: address@,
                value: Seq::empty(),
                datum: DatumView::NoDatum,
                reference_script: None,
            }),
    {
        CtxOutputBuilder {
            outer: self,
            output: CtxOutput {
                address: address.clone(),
                value: CtxValue::new(),
                datum: CtxDatum::NoDatum,
                reference_script: None,
            },
        }
    }

    /// Adds a finished output.
    pub fn add_specific_output(self, output: CtxOutput) -> (r: Self)
        ensures
            r@ == (ContextBuilderView { outputs: self@.outputs.push(output@), ..self@ }),
    {
        let mut this = self;
        proof {
            lemma_views_push(this.outputs@, output);
        }
        this.outputs.push(output);
        this
    }

    /// Adds one who signs beside the signer.
    pub fn add_signatory(self, signer: PubKeyHash) -> (r: Self)
        ensures
            r@ == (ContextBuilderView {
                extra_signatories: self@.extra_signatories.push(signer@),
                ..self@
            }),
    {
        let mut this = self;
        proof {
            lemma_views_push(this.extra_signatories@, signer);
        }
        this.extra_signatories.push(signer);
        this
    }

    /// Adds a datum under its hash.
    pub fn add_specific_datum(self, hash: Vec<u8>, datum: PlutusData) -> (r: Self)
        ensures
            r@ == (ContextBuilderView { datums: self@.datums.push((hash@, datum@)), ..self@ }),
    {
        let mut this = self;
        let ghost before = this.datums@;
        this.datums.push((hash, datum));
        assert(datums_view(this.datums@) =~= datums_view(before).push((hash@, datum@)));
        this
    }

    /// The context of a script that is to permit spending the output
    /// `output_index` of transaction `transaction_id`.
    pub fn build_spend(self, transaction_id: &[u8], output_index: u64) -> (r: TxContext)
        ensures
            r@ == self@.with_purpose(
                Purpose::Spend(OutputRef { transaction_id: transaction_id@, output_index }),
            ),
    {
        let range = match self.range {
            Some(range) => range,
            None => ValidRange { lower: None, upper: None },
        };
        TxContext {
            purpose: CtxScriptPurpose::Spend(
                CtxOutputReference { transaction_id: to_vec(transaction_id), output_index },
            ),
            signer: self.signer,
            range,
            inputs: self.inputs,
            outputs: self.outputs,
            extra_signatories: self.extra_signatories,
            datums: self.datums,
        }
    }

    /// The context of a script that is to permit minting under the policy with
    /// id `policy_id`.
    pub fn build_mint(self, policy_id: &[u8]) -> (r: TxContext)
        ensures
            r@ == self@.with_purpose(Purpose::Mint(policy_id@)),
    {
        let range = match self.range {
            Some(range) => range,
            None => ValidRange { lower: None, upper: None },
        };
        TxContext {
            purpose: CtxScriptPurpose::Mint(to_vec(policy_id)),
            signer: self.signer,
            range,
            inputs: self.inputs,
            outputs: self.outputs,
            extra_signatories: self.extra_signatories,
            datums: self.datums,
        }
    }
}

/// Collects one input of a context.
#[derive(Debug, PartialEq, Eq)]
pub struct CtxInputBuilder {
    pub outer: ContextBuilder,
    pub input: Input,
}

impl CtxInputBuilder {
    /// Adds `amount` of the asset `asset_name` of `policy_id` to the value of
    /// the input.
    pub fn with_value(self, policy_id: &str, asset_name: &str, amount: u64) -> (r: Self)
        requires
            held(self.input@.output.value, policy_id@, asset_name@) + amount <= u64::MAX,
        ensures
            r.outer@ == self.outer@,
            r.input@ == (InputView {
                output: CtxOutputView {
                    value: with_amount(self.input@.output.value, policy_id@, asset_name@, amount),
                    ..self.input@.output
                },
                ..self.input@
            }),
    {
        let mut this = self;
        this.input.value.add(policy_id, asset_name, amount);
        this
    }

    /// Gives the input the datum itself.
    pub fn with_inline_datum(self, datum: PlutusData) -> (r: Self)
        ensures
            r.outer@ == self.outer@,
            r.input@ == (InputView {
                output: CtxOutputView {
                    datum: DatumView::InlineDatum(datum@),
                    ..self.input@.output
                },
                ..self.input@
            }),
    {
        let mut this = self;
        this.input.datum = CtxDatum::InlineDatum(datum);
        this
    }

    /// Gives the input the hash of its datum.
    pub fn with_datum_hash(self, datum_hash: Vec<u8>) -> (r: Self)
        ensures
            r.outer@ == self.outer@,
            r.input@ == (InputView {
                output: CtxOutputView {
                    datum: DatumView::DatumHash(datum_hash@),
                    ..self.input@.output
                },
                ..self.input@
            }),
    {
        let mut this = self;
        this.input.datum = CtxDatum::DatumHash(datum_hash);
        this
    }

    /// Adds the input to the context.
    pub fn finish_input(self) -> (r: ContextBuilder)
        ensures
            r@ == (ContextBuilderView {
                inputs: self.outer@.inputs.push(self.input@),
                ..self.outer@
            }),
    {
        self.outer.add_specific_input(self.input)
    }
}

/// Collects one output of a context.
#[derive(Debug, PartialEq, Eq)]
pub struct CtxOutputBuilder {
    pub outer: ContextBuilder,
    pub output: CtxOutput,
}

impl CtxOutputBuilder {
    /// Adds `amount` of the asset `asset_name` of `policy_id` to the value of
    /// the output.
    pub fn with_value(self, policy_id: &str, asset_name: &str, amount: u64) -> (r: Self)
        requires
            held(self.output@.value, policy_id@, asset_name@) + amount <= u64::MAX,
        ensures
            r.outer@ == self.outer@,
            r.output@ == (CtxOutputView {
                value: with_amount(self.output@.value, policy_id@, asset_name@, amount),
                ..self.output@
            }),
    {
        let mut this = self;
        this.output.value.add(policy_id, asset_name, amount);
        this
    }

    /// Gives the output the datum itself.
    pub fn with_inline_datum(self, datum: PlutusData) -> (r: Self)
        ensures
            r.outer@ == self.outer@,
            r.output@ == (CtxOutputView { datum: DatumView::InlineDatum(datum@), ..self.output@ }),
    {
        let mut this = self;
        this.output.datum = CtxDatum::InlineDatum(datum);
        this
    }

    /// Gives the output the hash of its datum.
    pub fn with_datum_hash(self, datum_hash: Vec<u8>) -> (r: Self)
        ensures
            r.outer@ == self.outer@,
            r.output@ == (CtxOutputView {
                datum: DatumView::DatumHash(datum_hash@),
                ..self.output@
            }),
    {
        let mut this = self;
        this.output.datum = CtxDatum::DatumHash(datum_hash);
        this
    }

    /// Adds the output to the context.
    pub fn finish_output(self) -> (r: ContextBuilder)
        ensures
            r@ == (ContextBuilderView {
                outputs: self.outer@.outputs.push(self.output@),
                ..self.outer@
            }),
    {
        self.outer.add_specific_output(self.output)
    }
}

} // verus!
