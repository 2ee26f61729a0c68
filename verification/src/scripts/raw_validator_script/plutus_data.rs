//! The term tree that scripts read, and the encoding of a validation context
//! in it.
use crate::address::{Address, AddressView, DelegationPart, PaymentCredential, PaymentPart, StakeCredential};
use crate::bytes::{bytes_eq, clone_bytes, opt_bytes};
use crate::hex::hex_decoding;
use crate::scripts::context::{
    AssetAmounts, CtxDatum, CtxOutput, CtxOutputReference, CtxOutputView, CtxScriptPurpose,
    CtxValue, DatumView, Input, InputView, OutputRef, PubKeyHash, Purpose, TxContext,
    TxContextView, ValidRange, ValueView, assets_view, datums_view,
};
use crate::model::views;
use crate::scripts::{ScriptError, ScriptFault};
use vstd::prelude::*;
use vstd::utf8::encode_utf8;
use vstd::std_specs::cmp::PartialEqSpecImpl;
use vstd::std_specs::convert::FromSpecImpl;

verus! {

/// A term: a constructor applied to terms, a list of pairs of terms, an
/// integer, a byte string or a list of terms.
#[derive(Debug, Eq)]
pub enum PlutusData {
    Constr(Constr<PlutusData>),
    Mapping(Vec<(PlutusData, PlutusData)>),
    BigInt(BigInt),
    BoundedBytes(Vec<u8>),
    Array(Vec<PlutusData>),
}

/// A constructor, given by its index, with its fields.
#[derive(Debug, PartialEq, Eq)]
pub struct Constr<T> {
    pub constr: u64,
    pub fields: Vec<T>,
}

/// An integer: one of 64 bits with its sign, or the bytes of a larger one.
#[derive(Debug, Eq)]
pub enum BigInt {
    Int { neg: bool, val: u64 },
    BigUInt(Vec<u8>),
    BigNInt(Vec<u8>),
}

/// The mathematical value of a [`BigInt`].
pub enum Number {
    Int { neg: bool, val: u64 },
    BigUInt(Seq<u8>),
    BigNInt(Seq<u8>),
}

/// The mathematical value of a [`PlutusData`].
pub enum Term {
    Constr(u64, Seq<Term>),
    Mapping(Seq<(Term, Term)>),
    Integer(Number),
    Bytes(Seq<u8>),
    Array(Seq<Term>),
}

impl View for BigInt {
    type V = Number;

    open spec fn view(&self) -> Number {
        match self {
            BigInt::Int { neg, val } => Number::Int { neg: *neg, val: *val },
            BigInt::BigUInt(bytes) => Number::BigUInt(bytes@),
            BigInt::BigNInt(bytes) => Number::BigNInt(bytes@),
        }
    }
}

impl Clone for BigInt {
    fn clone(&self) -> (r: Self)
        ensures
            r@ == self@,
    {
        match self {
            BigInt::Int { neg, val } => BigInt::Int { neg: *neg, val: *val },
            BigInt::BigUInt(bytes) => BigInt::BigUInt(clone_bytes(bytes)),
            BigInt::BigNInt(bytes) => BigInt::BigNInt(clone_bytes(bytes)),
        }
    }
}

impl PartialEq for BigInt {
    fn eq(&self, other: &Self) -> (r: bool) {
        match self {
            BigInt::Int { neg, val } => match other {
                BigInt::Int { neg: other_neg, val: other_val } => *neg == *other_neg && *val
                    == *other_val,
                _ => false,
            },
            BigInt::BigUInt(bytes) => match other {
                BigInt::BigUInt(other_bytes) => bytes_eq(bytes, other_bytes),
                _ => false,
            },
            BigInt::BigNInt(bytes) => match other {
                BigInt::BigNInt(other_bytes) => bytes_eq(bytes, other_bytes),
                _ => false,
            },
        }
    }
}

impl PartialEqSpecImpl for BigInt {
    open spec fn obeys_eq_spec() -> bool {
        true
    }

    open spec fn eq_spec(&self, other: &Self) -> bool {
        self@ == other@
    }
}

/// The integer `n` as a sign and a magnitude. Zero has no sign.
pub open spec fn number_of(n: i64) -> Number {
    Number::Int { neg: n < 0, val: (if n < 0 { -n } else { n as int }) as u64 }
}

impl From<i64> for BigInt {
    fn from(num: i64) -> (r: Self) {
        let neg = num < 0;
        let val: u64 = if num >= 0 {
            num as u64
        } else if num == i64::MIN {
            0x8000_0000_0000_0000u64
        } else {
            (-num) as u64
        };
        BigInt::Int { neg, val }
    }
}

impl FromSpecImpl<i64> for BigInt {
    open spec fn obeys_from_spec() -> bool {
        true
    }

    open spec fn from_spec(num: i64) -> Self {
        BigInt::Int { neg: num < 0, val: (if num < 0 { -num } else { num as int }) as u64 }
    }
}

/// The value of a term.
pub open spec fn term_of(data: PlutusData) -> Term
    decreases data,
{
    match data {
        PlutusData::Constr(c) => Term::Constr(c.constr, terms_of(c.fields@)),
        PlutusData::Mapping(entries) => Term::Mapping(entries_of(entries@)),
        PlutusData::BigInt(n) => Term::Integer(n@),
        PlutusData::BoundedBytes(bytes) => Term::Bytes(bytes@),
        PlutusData::Array(items) => Term::Array(terms_of(items@)),
    }
}

/// The values of a list of terms.
pub open spec fn terms_of(list: Seq<PlutusData>) -> Seq<Term>
    decreases list,
{
    if list.len() == 0 {
        Seq::empty()
    } else {
        terms_of(list.drop_last()).push(term_of(list.last()))
    }
}

/// The values of a list of pairs of terms.
pub open spec fn entries_of(list: Seq<(PlutusData, PlutusData)>) -> Seq<(Term, Term)>
    decreases list,
{
    if list.len() == 0 {
        Seq::empty()
    } else {
        entries_of(list.drop_last()).push((term_of(list.last().0), term_of(list.last().1)))
    }
}

impl View for PlutusData {
    type V = Term;

    open spec fn view(&self) -> Term {
        term_of(*self)
    }
}

/// The values of a list are the values of its items, in order.
pub proof fn lemma_terms_of(list: Seq<PlutusData>)
    ensures
        terms_of(list).len() == list.len(),
        forall|i: int| 0 <= i < list.len() ==> (#[trigger] terms_of(list)[i]) == term_of(list[i]),
    decreases list.len(),
{
    if list.len() > 0 {
        lemma_terms_of(list.drop_last());
    }
}

/// The values of a list of pairs are the values of its pairs, in order.
pub proof fn lemma_entries_of(list: Seq<(PlutusData, PlutusData)>)
    ensures
        entries_of(list).len() == list.len(),
        forall|i: int|
            0 <= i < list.len() ==> (#[trigger] entries_of(list)[i]) == (
                term_of(list[i].0),
                term_of(list[i].1),
            ),
    decreases list.len(),
{
    if list.len() > 0 {
        lemma_entries_of(list.drop_last());
    }
}

/// Adding an item to a list adds its value to the values.
pub proof fn lemma_terms_of_push(list: Seq<PlutusData>, item: PlutusData)
    ensures
        terms_of(list.push(item)) == terms_of(list).push(term_of(item)),
{
    assert(list.push(item).drop_last() =~= list);
}

impl PlutusData {
    /// Whether two terms have the same value.
    pub fn same_as(&self, other: &PlutusData) -> (r: bool)
        ensures
            r == (self@ == other@),
        decreases self,
    {
        match self {
            PlutusData::Constr(c) => match other {
                PlutusData::Constr(d) => {
                    assert(*self matches PlutusData::Constr(x) && x == *c);
                    c.constr == d.constr && Self::same_list(&c.fields, &d.fields)
                },
                _ => false,
            },
            PlutusData::Mapping(entries) => match other {
                PlutusData::Mapping(other_entries) => {
                    proof {
                        lemma_entries_of(entries@);
                        lemma_entries_of(other_entries@);
                    }
                    if entries.len() != other_entries.len() {
                        return false;
                    }
                    let mut i: usize = 0;
                    while i < entries.len()
                        invariant
                            i <= entries.len(),
                            entries.len() == other_entries.len(),
                            *self == PlutusData::Mapping(*entries),
                            *other == PlutusData::Mapping(*other_entries),
                            forall|j: int|
                                0 <= j < i ==> term_of(entries[j].0) == term_of(other_entries[j].0)
                                    && term_of(entries[j].1) == term_of(other_entries[j].1),
                        decreases entries.len() - i,
                    {
                        assert(*self matches PlutusData::Mapping(x) && x == *entries);
                        let same = entries[i].0.same_as(&other_entries[i].0)
                            && entries[i].1.same_as(&other_entries[i].1);
                        if !same {
                            proof {
                                lemma_entries_of(entries@);
                                lemma_entries_of(other_entries@);
                                assert(entries_of(entries@)[i as int] != entries_of(
                                    other_entries@,
                                )[i as int]);
                            }
                            return false;
                        }
                        i += 1;
                    }
                    assert(entries_of(entries@) =~= entries_of(other_entries@));
                    true
                },
                _ => false,
            },
            PlutusData::BigInt(n) => match other {
                PlutusData::BigInt(m) => *n == *m,
                _ => false,
            },
            PlutusData::BoundedBytes(bytes) => match other {
                PlutusData::BoundedBytes(other_bytes) => bytes_eq(bytes, other_bytes),
                _ => false,
            },
            PlutusData::Array(items) => match other {
                PlutusData::Array(other_items) => {
                    assert(*self matches PlutusData::Array(x) && x == *items);
                    Self::same_list(items, other_items)
                },
                _ => false,
            },
        }
    }

    /// Whether two lists of terms have the same values.
    pub fn same_list(list: &Vec<PlutusData>, other: &Vec<PlutusData>) -> (r: bool)
        ensures
            r == (terms_of(list@) == terms_of(other@)),
        decreases list,
    {
        proof {
            lemma_terms_of(list@);
            lemma_terms_of(other@);
        }
        if list.len() != other.len() {
            return false;
        }
        let mut i: usize = 0;
        while i < list.len()
            invariant
                i <= list.len(),
                list.len() == other.len(),
                forall|j: int| 0 <= j < i ==> term_of(list[j]) == term_of(other[j]),
            decreases list.len() - i,
        {
            if !list[i].same_as(&other[i]) {
                proof {
                    lemma_terms_of(list@);
                    lemma_terms_of(other@);
                    assert(terms_of(list@)[i as int] != terms_of(other@)[i as int]);
                }
                return false;
            }
            i += 1;
        }
        assert(terms_of(list@) =~= terms_of(other@));
        true
    }

    /// A copy of a list of terms.
    pub fn clone_list(list: &Vec<PlutusData>) -> (r: Vec<PlutusData>)
        ensures
            terms_of(r@) == terms_of(list@),
        decreases list,
    {
        let mut out: Vec<PlutusData> = Vec::new();
        let mut i: usize = 0;
        while i < list.len()
            invariant
                i <= list.len(),
                out.len() == i,
                forall|j: int| 0 <= j < i ==> term_of(out[j]) == term_of(list[j]),
            decreases list.len() - i,
        {
            out.push(list[i].clone());
            i += 1;
        }
        proof {
            lemma_terms_of(list@);
            lemma_terms_of(out@);
            assert(terms_of(out@) =~= terms_of(list@));
        }
        out
    }
}

impl Clone for PlutusData {
    fn clone(&self) -> (r: Self)
        ensures
            r@ == self@,
        decreases self,
    {
        match self {
            PlutusData::Constr(c) => {
                assert(*self matches PlutusData::Constr(x) && x == *c);
                PlutusData::Constr(Constr { constr: c.constr, fields: Self::clone_list(&c.fields) })
            },
            PlutusData::Mapping(entries) => {
                let mut out: Vec<(PlutusData, PlutusData)> = Vec::new();
                let mut i: usize = 0;
                while i < entries.len()
                    invariant
                        i <= entries.len(),
                        out.len() == i,
                        *self == PlutusData::Mapping(*entries),
                        forall|j: int|
                            0 <= j < i ==> term_of(out[j].0) == term_of(entries[j].0) && term_of(
                                out[j].1,
                            ) == term_of(entries[j].1),
                    decreases entries.len() - i,
                {
                    assert(*self matches PlutusData::Mapping(x) && x == *entries);
                    let key = entries[i].0.clone();
                    let value = entries[i].1.clone();
                    out.push((key, value));
                    i += 1;
                }
                proof {
                    lemma_entries_of(entries@);
                    lemma_entries_of(out@);
                    assert(entries_of(out@) =~= entries_of(entries@));
                }
                PlutusData::Mapping(out)
            },
            PlutusData::BigInt(n) => PlutusData::BigInt(n.clone()),
            PlutusData::BoundedBytes(bytes) => PlutusData::BoundedBytes(clone_bytes(bytes)),
            PlutusData::Array(items) => {
                assert(*self matches PlutusData::Array(x) && x == *items);
                PlutusData::Array(Self::clone_list(items))
            },
        }
    }
}

impl PartialEq for PlutusData {
    fn eq(&self, other: &Self) -> (r: bool) {
        self.same_as(other)
    }
}

impl PartialEqSpecImpl for PlutusData {
    open spec fn obeys_eq_spec() -> bool {
        true
    }

    open spec fn eq_spec(&self, other: &Self) -> bool {
        self@ == other@
    }
}


/// What encoding gives: a term, or the reason why there is none.
pub type Outcome = Result<Term, ScriptFault>;

/// The value of what an encoder returned.
pub open spec fn outcome_of(r: Result<PlutusData, ScriptError>) -> Outcome {
    match r {
        Ok(data) => Ok(data@),
        Err(e) => Err(e@),
    }
}

/// The items of a list of pairs under byte strings, each key as a term.
pub open spec fn bytes_keyed(entries: Seq<(Seq<u8>, Term)>) -> Seq<(Term, Term)> {
    Seq::new(entries.len(), |i: int| (Term::Bytes(entries[i].0), entries[i].1))
}

/// Whether `a` comes before `b`: byte by byte, a proper prefix first.
pub open spec fn bytes_lt(a: Seq<u8>, b: Seq<u8>) -> bool
    decreases a.len(),
{
    if b.len() == 0 {
        false
    } else if a.len() == 0 {
        true
    } else if a[0] != b[0] {
        a[0] < b[0]
    } else {
        bytes_lt(a.drop_first(), b.drop_first())
    }
}

/// `entries` with `value` under `key`: in place of the first entry with that
/// key, else before the first entry whose key comes after it, else at the end.
/// Entries that are only ever placed stay in the order of their keys, each key
/// once.
pub open spec fn placed(entries: Seq<(Seq<u8>, Term)>, key: Seq<u8>, value: Term) -> Seq<
    (Seq<u8>, Term),
>
    decreases entries.len(),
{
    if entries.len() == 0 {
        seq![(key, value)]
    } else if entries[0].0 == key {
        seq![(key, value)] + entries.drop_first()
    } else if bytes_lt(key, entries[0].0) {
        seq![(key, value)] + entries
    } else {
        seq![entries[0]] + placed(entries.drop_first(), key, value)
    }
}

/// The integer `n`, where it has 64 bits with a sign.
pub open spec fn term_of_u64(n: u64) -> Outcome {
    if n <= i64::MAX {
        Ok(Term::Integer(Number::Int { neg: false, val: n }))
    } else {
        Err(ScriptFault::Unsupported)
    }
}

/// An optional term: constructor 0 around what is there, constructor 1 where
/// nothing is.
pub open spec fn term_of_option(o: Option<Term>) -> Term {
    match o {
        Some(inner) => Term::Constr(0, seq![inner]),
        None => Term::Constr(1, Seq::empty()),
    }
}

/// The range without bounds: from minus infinity to plus infinity.
pub open spec fn term_no_time_bound() -> Term {
    Term::Constr(
        0,
        seq![
            Term::Constr(0, seq![Term::Constr(0, Seq::empty()), Term::Constr(1, Seq::empty())]),
            Term::Constr(0, seq![Term::Constr(2, Seq::empty()), Term::Constr(1, Seq::empty())]),
        ],
    )
}

/// The range from `bound` to plus infinity; `is_inclusive` says whether `bound`
/// belongs to it.
pub open spec fn term_lower_bound(bound: i64, is_inclusive: bool) -> Term {
    Term::Constr(
        0,
        seq![
            Term::Constr(
                0,
                seq![
                    Term::Constr(1, seq![Term::Integer(number_of(bound))]),
                    Term::Constr(if is_inclusive { 1u64 } else { 0u64 }, Seq::empty()),
                ],
            ),
            Term::Constr(0, seq![Term::Constr(2, Seq::empty()), Term::Constr(1, Seq::empty())]),
        ],
    )
}

/// A time range. One with an upper bound has no term.
pub open spec fn term_of_range(range: ValidRange) -> Outcome {
    match (range.lower, range.upper) {
        (None, None) => Ok(term_no_time_bound()),
        (Some((bound, is_inclusive)), None) => Ok(term_lower_bound(bound, is_inclusive)),
        _ => Err(ScriptFault::Unsupported),
    }
}

/// A payment part: constructor 0 around a key hash, 1 around a script hash.
pub open spec fn term_of_payment(payment: PaymentCredential) -> Term {
    match payment {
        PaymentCredential::Key(hash) => Term::Constr(0, seq![Term::Bytes(hash)]),
        PaymentCredential::Script(hash) => Term::Constr(1, seq![Term::Bytes(hash)]),
    }
}

/// A delegation part: constructor 1 where there is none; else constructor 0
/// around the credential, which is constructor 0 around a key hash or a script
/// hash (tagged as a payment part is), or constructor 1 with slot, transaction
/// index and certificate index.
pub open spec fn term_of_delegation(delegation: StakeCredential) -> Outcome {
    match delegation {
        StakeCredential::Key(hash) => Ok(
            Term::Constr(0, seq![Term::Constr(0, seq![Term::Bytes(hash)])]),
        ),
        StakeCredential::Script(hash) => Ok(
            Term::Constr(0, seq![Term::Constr(1, seq![Term::Bytes(hash)])]),
        ),
        StakeCredential::Pointer { slot, tx_idx, cert_idx } => match term_of_u64(slot) {
            Err(e) => Err(e),
            Ok(slot_term) => match term_of_u64(tx_idx) {
                Err(e) => Err(e),
                Ok(tx_term) => match term_of_u64(cert_idx) {
                    Err(e) => Err(e),
                    Ok(cert_term) => Ok(
                        Term::Constr(0, seq![Term::Constr(1, seq![slot_term, tx_term, cert_term])]),
                    ),
                },
            },
        },
        StakeCredential::Null => Ok(Term::Constr(1, Seq::empty())),
    }
}

/// An address: its payment part and its delegation part.
pub open spec fn term_of_address(address: AddressView) -> Outcome {
    match term_of_delegation(address.delegation) {
        Err(e) => Err(e),
        Ok(delegation) => Ok(Term::Constr(0, seq![term_of_payment(address.payment), delegation])),
    }
}

/// The name of an output: the id of its transaction, wrapped, and its index.
pub open spec fn term_of_reference(reference: OutputRef) -> Outcome {
    match term_of_u64(reference.output_index) {
        Err(e) => Err(e),
        Ok(index) => Ok(
            Term::Constr(
                0,
                seq![Term::Constr(0, seq![Term::Bytes(reference.transaction_id)]), index],
            ),
        ),
    }
}

/// A datum: constructor 0 for none, 1 around a hash, 2 around the datum.
pub open spec fn term_of_datum(datum: DatumView) -> Term {
    match datum {
        DatumView::NoDatum => Term::Constr(0, Seq::empty()),
        DatumView::DatumHash(hash) => Term::Constr(1, seq![Term::Bytes(hash)]),
        DatumView::InlineDatum(data) => Term::Constr(2, seq![data]),
    }
}

/// The amounts of `assets`, placed one after the other into `done` under the
/// bytes of their names.
pub open spec fn asset_entries(assets: AssetAmounts, done: Seq<(Seq<u8>, Term)>) -> Result<
    Seq<(Seq<u8>, Term)>,
    ScriptFault,
>
    decreases assets.len(),
{
    if assets.len() == 0 {
        Ok(done)
    } else {
        match term_of_u64(assets[0].1) {
            Err(e) => Err(e),
            Ok(amount) => asset_entries(
                assets.drop_first(),
                placed(done, encode_utf8(assets[0].0), amount),
            ),
        }
    }
}

/// The policies of `value`, placed one after the other into `done` under the
/// bytes that their ids stand for.
pub open spec fn policy_entries(value: ValueView, done: Seq<(Seq<u8>, Term)>) -> Result<
    Seq<(Seq<u8>, Term)>,
    ScriptFault,
>
    decreases value.len(),
{
    if value.len() == 0 {
        Ok(done)
    } else {
        match hex_decoding(value[0].0) {
            None => Err(ScriptFault::InvalidPolicyId(value[0].0)),
            Some(policy) => match asset_entries(value[0].1, Seq::empty()) {
                Err(e) => Err(e),
                Ok(assets) => policy_entries(
                    value.drop_first(),
                    placed(done, policy, Term::Mapping(bytes_keyed(assets))),
                ),
            },
        }
    }
}

/// A value: under each policy id, in the order of the ids, the amounts of its
/// assets under their names, in the order of the names.
pub open spec fn term_of_value(value: ValueView) -> Outcome {
    match policy_entries(value, Seq::empty()) {
        Err(e) => Err(e),
        Ok(entries) => Ok(Term::Mapping(bytes_keyed(entries))),
    }
}

/// An output: address, value, datum and reference script.
pub open spec fn term_of_output(output: CtxOutputView) -> Outcome {
    match term_of_address(output.address) {
        Err(e) => Err(e),
        Ok(address) => match term_of_value(output.value) {
            Err(e) => Err(e),
            Ok(value) => Ok(
                Term::Constr(
                    0,
                    seq![
                        address,
                        value,
                        term_of_datum(output.datum),
                        term_of_option(
                            match output.reference_script {
                                Some(script) => Some(Term::Bytes(script)),
                                None => None,
                            },
                        ),
                    ],
                ),
            ),
        },
    }
}

/// An input: the name of the output that is spent, and the output.
pub open spec fn term_of_input(input: InputView) -> Outcome {
    match term_of_reference(input.reference) {
        Err(e) => Err(e),
        Ok(reference) => match term_of_output(input.output) {
            Err(e) => Err(e),
            Ok(output) => Ok(Term::Constr(0, seq![reference, output])),
        },
    }
}

/// The terms of `inputs`, added one after the other to `done`.
pub open spec fn input_terms(inputs: Seq<InputView>, done: Seq<Term>) -> Result<
    Seq<Term>,
    ScriptFault,
>
    decreases inputs.len(),
{
    if inputs.len() == 0 {
        Ok(done)
    } else {
        match term_of_input(inputs[0]) {
            Err(e) => Err(e),
            Ok(term) => input_terms(inputs.drop_first(), done.push(term)),
        }
    }
}

/// The terms of `outputs`, added one after the other to `done`.
pub open spec fn output_terms(outputs: Seq<CtxOutputView>, done: Seq<Term>) -> Result<
    Seq<Term>,
    ScriptFault,
>
    decreases outputs.len(),
{
    if outputs.len() == 0 {
        Ok(done)
    } else {
        match term_of_output(outputs[0]) {
            Err(e) => Err(e),
            Ok(term) => output_terms(outputs.drop_first(), done.push(term)),
        }
    }
}

/// The datums of `datums`, placed one after the other into `done` under their
/// hashes.
pub open spec fn datum_entries(datums: Seq<(Seq<u8>, Term)>, done: Seq<(Seq<u8>, Term)>) -> Seq<
    (Seq<u8>, Term),
>
    decreases datums.len(),
{
    if datums.len() == 0 {
        done
    } else {
        datum_entries(datums.drop_first(), placed(done, datums[0].0, datums[0].1))
    }
}

/// Those who sign: the extra signatories in their order, then the signer.
pub open spec fn signatory_terms(extra_signatories: Seq<Seq<u8>>, signer: Seq<u8>) -> Seq<Term> {
    Seq::new(
        extra_signatories.len() + 1,
        |i: int|
            if i < extra_signatories.len() {
                Term::Bytes(extra_signatories[i])
            } else {
                Term::Bytes(signer)
            },
    )
}

/// The purpose: constructor 0 around a policy id for minting, constructor 1
/// around the name of an output for spending.
pub open spec fn term_of_purpose(purpose: Purpose) -> Outcome {
    match purpose {
        Purpose::Mint(policy) => Ok(Term::Constr(0, seq![Term::Bytes(policy)])),
        Purpose::Spend(reference) => match term_of_reference(reference) {
            Err(e) => Err(e),
            Ok(term) => Ok(Term::Constr(1, seq![term])),
        },
    }
}

/// The single entry, under the empty policy id and the empty name, that stands
/// for `amount` of the base currency.
pub open spec fn term_of_lovelace(amount: u64) -> Term {
    Term::Mapping(
        seq![
            (
                Term::Bytes(Seq::empty()),
                Term::Mapping(
                    seq![
                        (
                            Term::Bytes(Seq::empty()),
                            Term::Integer(Number::Int { neg: false, val: amount }),
                        ),
                    ],
                ),
            ),
        ],
    )
}

/// The description of the transaction, its twelve fields in their fixed order:
/// inputs, reference inputs (none), outputs, fee, minted value, certificates
/// (none), withdrawals (none), valid range, signatories, redeemers (none),
/// datums by their hashes, and the id of the transaction (empty).
pub open spec fn tx_info_term(
    inputs: Seq<Term>,
    outputs: Seq<Term>,
    range: Term,
    signatories: Seq<Term>,
    datums: Seq<(Seq<u8>, Term)>,
) -> Term {
    Term::Constr(
        0,
        seq![
            Term::Array(inputs),
            Term::Array(Seq::empty()),
            Term::Array(outputs),
            term_of_lovelace(999),
            term_of_lovelace(0),
            Term::Array(Seq::empty()),
            Term::Mapping(Seq::empty()),
            range,
            Term::Array(signatories),
            Term::Mapping(Seq::empty()),
            Term::Mapping(bytes_keyed(datums)),
            Term::Constr(0, seq![Term::Bytes(Seq::empty())]),
        ],
    )
}

/// A validation context: the description of the transaction, then the
/// purpose. There is none where a part of the context has none; of several
/// such parts the first counts, in the order inputs, outputs, range, purpose.
pub open spec fn term_of_context(ctx: TxContextView) -> Outcome {
    match input_terms(ctx.inputs, Seq::empty()) {
        Err(e) => Err(e),
        Ok(inputs) => match output_terms(ctx.outputs, Seq::empty()) {
            Err(e) => Err(e),
            Ok(outputs) => match term_of_range(ctx.range) {
                Err(e) => Err(e),
                Ok(range) => match term_of_purpose(ctx.purpose) {
                    Err(e) => Err(e),
                    Ok(purpose) => Ok(
                        Term::Constr(
                            0,
                            seq![
                                tx_info_term(
                                    inputs,
                                    outputs,
                                    range,
                                    signatory_terms(ctx.extra_signatories, ctx.signer),
                                    datum_entries(ctx.datums, Seq::empty()),
                                ),
                                purpose,
                            ],
                        ),
                    ),
                },
            },
        },
    }
}

/// The tag under which the constructor with the given index is written: the index itself.
pub fn constr_index(index: u64) -> (r: u64)
    ensures
        r == index,
{
    index
}

/// Constructor `index` around one term.
pub fn wrap_with_constr(index: u64, data: PlutusData) -> (r: PlutusData)
    ensures
        r@ == Term::Constr(index, seq![data@]),
{
    let mut fields: Vec<PlutusData> = Vec::new();
    fields.push(data);
    proof {
        lemma_terms_of(fields@);
        assert(terms_of(fields@) =~= seq![data@]);
    }
    PlutusData::Constr(Constr { constr: constr_index(index), fields })
}

/// Constructor `index` around the given terms.
pub fn wrap_multiple_with_constr(index: u64, data: Vec<PlutusData>) -> (r: PlutusData)
    ensures
        r@ == Term::Constr(index, terms_of(data@)),
{
    PlutusData::Constr(Constr { constr: constr_index(index), fields: data })
}

/// Constructor `index` without fields.
pub fn empty_constr(index: u64) -> (r: PlutusData)
    ensures
        r@ == Term::Constr(index, Seq::empty()),
{
    PlutusData::Constr(Constr { constr: constr_index(index), fields: Vec::new() })
}

/// Constructor `index` around two terms.
pub fn wrap_pair_with_constr(index: u64, first: PlutusData, second: PlutusData) -> (r: PlutusData)
    ensures
        r@ == Term::Constr(index, seq![first@, second@]),
{
    let mut fields: Vec<PlutusData> = Vec::new();
    fields.push(first);
    fields.push(second);
    proof {
        lemma_terms_of(fields@);
        assert(terms_of(fields@) =~= seq![first@, second@]);
    }
    PlutusData::Constr(Constr { constr: constr_index(index), fields })
}

/// Adds a term to a list of fields.
pub fn push_field(fields: &mut Vec<PlutusData>, item: PlutusData)
    ensures
        terms_of(final(fields)@) == terms_of(old(fields)@).push(item@),
{
    proof {
        lemma_terms_of_push(fields@, item);
    }
    fields.push(item);
}

/// The range without bounds.
pub fn no_time_bound() -> (r: PlutusData)
    ensures
        r@ == term_no_time_bound(),
{
    let from = wrap_pair_with_constr(0, empty_constr(0), empty_constr(1));
    let to = wrap_pair_with_constr(0, empty_constr(2), empty_constr(1));
    wrap_pair_with_constr(0, from, to)
}

/// The range from `bound` on; `is_inclusive` says whether `bound` belongs to
/// it.
pub fn lower_bound(bound: i64, is_inclusive: bool) -> (r: PlutusData)
    ensures
        r@ == term_lower_bound(bound, is_inclusive),
{
    let closure = if is_inclusive {
        empty_constr(1)
    } else {
        empty_constr(0)
    };
    let finite = wrap_with_constr(1, PlutusData::from_i64(bound));
    let from = wrap_pair_with_constr(0, finite, closure);
    let to = wrap_pair_with_constr(0, empty_constr(2), empty_constr(1));
    wrap_pair_with_constr(0, from, to)
}

/// Whether `a` comes before `b`.
pub fn lt_bytes(a: &Vec<u8>, b: &Vec<u8>) -> (r: bool)
    ensures
        r == bytes_lt(a@, b@),
{
    let mut i: usize = 0;
    assert(a@.skip(0) =~= a@ && b@.skip(0) =~= b@);
    loop
        invariant
            i <= a.len(),
            i <= b.len(),
            bytes_lt(a@, b@) == bytes_lt(a@.skip(i as int), b@.skip(i as int)),
        decreases a.len() - i,
    {
        if i >= b.len() {
            return false;
        }
        if i >= a.len() {
            return true;
        }
        assert(a@.skip(i as int)[0] == a@[i as int]);
        assert(b@.skip(i as int)[0] == b@[i as int]);
        if a[i] != b[i] {
            return a[i] < b[i];
        }
        assert(a@.skip(i as int).drop_first() =~= a@.skip(i + 1));
        assert(b@.skip(i as int).drop_first() =~= b@.skip(i + 1));
        i += 1;
    }
}

/// Puts `value` under `key` into entries that are held in the order of their
/// keys.
pub fn place(entries: &mut Vec<(Vec<u8>, PlutusData)>, key: Vec<u8>, value: PlutusData)
    ensures
        datums_view(final(entries)@) == placed(datums_view(old(entries)@), key@, value@),
{
    let ghost before = datums_view(entries@);
    let mut i: usize = 0;
    assert(before.skip(0) =~= before);
    assert(before.take(0) + placed(before, key@, value@) =~= placed(before, key@, value@));
    while i < entries.len()
        invariant
            i <= entries.len(),
            before == datums_view(entries@),
            before == datums_view(old(entries)@),
            placed(before, key@, value@) == before.take(i as int) + placed(
                before.skip(i as int),
                key@,
                value@,
            ),
        decreases entries.len() - i,
    {
        let ghost rest = before.skip(i as int);
        assert(rest[0] == before[i as int]);
        assert(rest.drop_first() =~= before.skip(i + 1));
        if bytes_eq(&entries[i].0, &key) {
            entries.set(i, (key, value));
            assert(datums_view(entries@) =~= before.take(i as int) + (seq![(key@, value@)]
                + rest.drop_first()));
            return ;
        }
        if lt_bytes(&key, &entries[i].0) {
            entries.insert(i, (key, value));
            assert(datums_view(entries@) =~= before.take(i as int) + (seq![(key@, value@)] + rest));
            return ;
        }
        assert(before.take(i as int) + (seq![rest[0]] + placed(rest.drop_first(), key@, value@))
            =~= before.take(i + 1) + placed(before.skip(i + 1), key@, value@));
        i += 1;
    }
    assert(before.skip(i as int) =~= Seq::<(Seq<u8>, Term)>::empty());
    assert(before.take(i as int) =~= before);
    entries.push((key, value));
    assert(datums_view(entries@) =~= before + seq![(key@, value@)]);
}

/// The list of pairs that holds `entries`, each key as a byte string.
pub fn mapping_of(entries: Vec<(Vec<u8>, PlutusData)>) -> (r: PlutusData)
    ensures
        r@ == Term::Mapping(bytes_keyed(datums_view(entries@))),
{
    let ghost all = datums_view(entries@);
    let mut pending = entries;
    let mut pairs: Vec<(PlutusData, PlutusData)> = Vec::new();
    let mut reversed: Vec<(PlutusData, PlutusData)> = Vec::new();
    assert(all.take(all.len() as int) =~= all);
    while pending.len() > 0
        invariant
            pending.len() + reversed.len() == all.len(),
            datums_view(pending@) == all.take(pending.len() as int),
            forall|j: int|
                0 <= j < reversed.len() ==> term_of((#[trigger] reversed[j]).0) == Term::Bytes(
                    all[all.len() - 1 - j].0,
                ) && term_of(reversed[j].1) == all[all.len() - 1 - j].1,
        decreases pending.len(),
    {
        let ghost held = datums_view(pending@);
        let ghost n = pending.len() as int;
        let last = pending.pop().unwrap();
        assert(held[n - 1] == (last.0@, last.1@));
        assert(datums_view(pending@) =~= all.take(n - 1));
        reversed.push((PlutusData::BoundedBytes(last.0), last.1));
    }
    while reversed.len() > 0
        invariant
            pairs.len() + reversed.len() == all.len(),
            forall|j: int|
                0 <= j < reversed.len() ==> term_of((#[trigger] reversed[j]).0) == Term::Bytes(
                    all[all.len() - 1 - j].0,
                ) && term_of(reversed[j].1) == all[all.len() - 1 - j].1,
            forall|j: int|
                0 <= j < pairs.len() ==> term_of((#[trigger] pairs[j]).0) == Term::Bytes(all[j].0)
                    && term_of(pairs[j].1) == all[j].1,
        decreases reversed.len(),
    {
        let next = reversed.pop().unwrap();
        pairs.push(next);
    }
    proof {
        lemma_entries_of(pairs@);
        assert(entries_of(pairs@) =~= bytes_keyed(all));
    }
    PlutusData::Mapping(pairs)
}

impl PlutusData {
    /// The integer `num`.
    pub fn from_i64(num: i64) -> (r: PlutusData)
        ensures
            r@ == Term::Integer(number_of(num)),
    {
        PlutusData::BigInt(BigInt::from(num))
    }

    /// The integer `value`, where it has 64 bits with a sign.
    pub fn from_u64(value: u64) -> (r: Result<PlutusData, ScriptError>)
        ensures
            outcome_of(r) == term_of_u64(value),
    {
        if value <= 0x7fff_ffff_ffff_ffffu64 {
            Ok(PlutusData::BigInt(BigInt::Int { neg: false, val: value }))
        } else {
            Err(ScriptError::Unsupported)
        }
    }

    /// The byte string `value`.
    pub fn from_bytes(value: Vec<u8>) -> (r: PlutusData)
        ensures
            r@ == Term::Bytes(value@),
    {
        PlutusData::BoundedBytes(value)
    }

    /// The term of the value without content: constructor 0 without fields.
    pub fn unit() -> (r: PlutusData)
        ensures
            r@ == Term::Constr(0, Seq::empty()),
    {
        empty_constr(0)
    }

    /// The term of an optional term.
    pub fn from_option(value: Option<PlutusData>) -> (r: PlutusData)
        ensures
            r@ == term_of_option(
                match value {
                    Some(inner) => Some(inner@),
                    None => None,
                },
            ),
    {
        match value {
            None => empty_constr(1),
            Some(inner) => wrap_with_constr(0, inner),
        }
    }

    /// The term of the hash of a key.
    pub fn from_pub_key_hash(value: &PubKeyHash) -> (r: PlutusData)
        ensures
            r@ == Term::Bytes(value@),
    {
        PlutusData::BoundedBytes(value.bytes())
    }

    /// The term of a time range. A range with an upper bound has none.
    pub fn from_valid_range(value: ValidRange) -> (r: Result<PlutusData, ScriptError>)
        ensures
            outcome_of(r) == term_of_range(value),
    {
        match value.lower {
            None => match value.upper {
                None => Ok(no_time_bound()),
                Some(_) => Err(ScriptError::Unsupported),
            },
            Some((bound, is_inclusive)) => match value.upper {
                None => Ok(lower_bound(bound, is_inclusive)),
                Some(_) => Err(ScriptError::Unsupported),
            },
        }
    }

    /// The term of an address.
    pub fn from_address(value: &Address) -> (r: Result<PlutusData, ScriptError>)
        ensures
            outcome_of(r) == term_of_address(value@),
    {
        let stake_part = match &value.delegation {
            DelegationPart::Key(hash) => {
                let inner = wrap_with_constr(0, PlutusData::BoundedBytes(clone_bytes(hash)));
                wrap_with_constr(0, inner)
            },
            DelegationPart::Script(hash) => {
                let inner = wrap_with_constr(1, PlutusData::BoundedBytes(clone_bytes(hash)));
                wrap_with_constr(0, inner)
            },
            DelegationPart::Pointer { slot, tx_idx, cert_idx } => {
                let slot_term = match PlutusData::from_u64(*slot) {
                    Ok(term) => term,
                    Err(e) => {
                        return Err(e);
                    },
                };
                let tx_term = match PlutusData::from_u64(*tx_idx) {
                    Ok(term) => term,
                    Err(e) => {
                        return Err(e);
                    },
                };
                let cert_term = match PlutusData::from_u64(*cert_idx) {
                    Ok(term) => term,
                    Err(e) => {
                        return Err(e);
                    },
                };
                let mut fields: Vec<PlutusData> = Vec::new();
                push_field(&mut fields, slot_term);
                push_field(&mut fields, tx_term);
                push_field(&mut fields, cert_term);
                assert(terms_of(fields@) =~= seq![slot_term@, tx_term@, cert_term@]) by {
                    assert(terms_of(Seq::<PlutusData>::empty()) =~= Seq::<Term>::empty());
                }
                wrap_with_constr(0, wrap_multiple_with_constr(1, fields))
            },
            DelegationPart::Null => empty_constr(1),
        };
        let payment_part = match &value.payment {
            PaymentPart::Key(hash) => wrap_with_constr(
                0,
                PlutusData::BoundedBytes(clone_bytes(hash)),
            ),
            PaymentPart::Script(hash) => wrap_with_constr(
                1,
                PlutusData::BoundedBytes(clone_bytes(hash)),
            ),
        };
        Ok(wrap_pair_with_constr(0, payment_part, stake_part))
    }

    /// The term of the name of an output.
    pub fn from_output_reference(out_ref: CtxOutputReference) -> (r: Result<
        PlutusData,
        ScriptError,
    >)
        ensures
            outcome_of(r) == term_of_reference(out_ref@),
    {
        let output_index = match PlutusData::from_u64(out_ref.output_index) {
            Ok(term) => term,
            Err(e) => {
                return Err(e);
            },
        };
        let transaction_id = wrap_with_constr(0, PlutusData::BoundedBytes(out_ref.transaction_id));
        Ok(wrap_pair_with_constr(0, transaction_id, output_index))
    }

    /// The term of a datum as a script sees it.
    pub fn from_datum(value: CtxDatum) -> (r: PlutusData)
        ensures
            r@ == term_of_datum(value@),
    {
        match value {
            CtxDatum::NoDatum => empty_constr(0),
            CtxDatum::DatumHash(hash) => wrap_with_constr(1, PlutusData::BoundedBytes(hash)),
            CtxDatum::InlineDatum(data) => wrap_with_constr(2, data),
        }
    }

    /// The term of the amounts of one policy.
    pub fn from_assets(assets: &Vec<(String, u64)>) -> (r: Result<PlutusData, ScriptError>)
        ensures
            match r {
                Ok(data) => asset_entries(assets_view(assets@), Seq::empty()) matches Ok(entries)
                    && data@ == Term::Mapping(bytes_keyed(entries)),
                Err(e) => asset_entries(assets_view(assets@), Seq::empty()) == Err::<
                    Seq<(Seq<u8>, Term)>,
                    ScriptFault,
                >(e@),
            },
    {
        let ghost all = assets_view(assets@);
        let mut done: Vec<(Vec<u8>, PlutusData)> = Vec::new();
        let mut i: usize = 0;
        assert(all.skip(0) =~= all);
        assert(datums_view(done@) =~= Seq::<(Seq<u8>, Term)>::empty());
        while i < assets.len()
            invariant
                i <= assets.len(),
                all == assets_view(assets@),
                asset_entries(all, Seq::empty()) == asset_entries(
                    all.skip(i as int),
                    datums_view(done@),
                ),
            decreases assets.len() - i,
        {
            let ghost rest = all.skip(i as int);
            assert(rest[0] == all[i as int]);
            assert(rest.drop_first() =~= all.skip(i + 1));
            let amount = match PlutusData::from_u64(assets[i].1) {
                Ok(term) => term,
                Err(e) => {
                    return Err(e);
                },
            };
            let name = crate::bytes::to_vec(assets[i].0.as_str().as_bytes());
            place(&mut done, name, amount);
            i += 1;
        }
        assert(all.skip(i as int) =~= Seq::<(Seq<char>, u64)>::empty());
        Ok(mapping_of(done))
    }

    /// The term of a value. A value under a policy id that is not hexadecimal
    /// text has none, nor has one with an amount beyond 64 bits with a sign.
    pub fn from_value(value: &CtxValue) -> (r: Result<PlutusData, ScriptError>)
        ensures
            outcome_of(r) == term_of_value(value@),
    {
        let ghost all = value@;
        let mut done: Vec<(Vec<u8>, PlutusData)> = Vec::new();
        let mut i: usize = 0;
        assert(all.skip(0) =~= all);
        assert(datums_view(done@) =~= Seq::<(Seq<u8>, Term)>::empty());
        while i < value.inner.len()
            invariant
                i <= value.inner.len(),
                all == value@,
                policy_entries(all, Seq::empty()) == policy_entries(
                    all.skip(i as int),
                    datums_view(done@),
                ),
            decreases value.inner.len() - i,
        {
            let ghost rest = all.skip(i as int);
            assert(rest[0] == all[i as int]);
            assert(rest.drop_first() =~= all.skip(i + 1));
            let policy = match crate::hex::decode(value.inner[i].0.as_str()) {
                Some(bytes) => bytes,
                None => {
                    return Err(ScriptError::InvalidPolicyId(value.inner[i].0.clone()));
                },
            };
            let assets = match PlutusData::from_assets(&value.inner[i].1) {
                Ok(term) => term,
                Err(e) => {
                    return Err(e);
                },
            };
            place(&mut done, policy, assets);
            i += 1;
        }
        assert(all.skip(i as int) =~= Seq::<(Seq<char>, AssetAmounts)>::empty());
        Ok(mapping_of(done))
    }

    /// The term of an output as a script sees it.
    pub fn from_output(output: CtxOutput) -> (r: Result<PlutusData, ScriptError>)
        ensures
            outcome_of(r) == term_of_output(output@),
    {
        let ghost shown = output@;
        let address = match PlutusData::from_address(&output.address) {
            Ok(term) => term,
            Err(e) => {
                return Err(e);
            },
        };
        let value = match PlutusData::from_value(&output.value) {
            Ok(term) => term,
            Err(e) => {
                return Err(e);
            },
        };
        let datum = PlutusData::from_datum(output.datum);
        let script_term = match output.reference_script {
            Some(script) => Some(PlutusData::BoundedBytes(script)),
            None => None,
        };
        let reference_script = PlutusData::from_option(script_term);
        assert(reference_script@ == term_of_option(
            match shown.reference_script {
                Some(script) => Some(Term::Bytes(script)),
                None => None,
            },
        ));
        let mut fields: Vec<PlutusData> = Vec::new();
        push_field(&mut fields, address);
        push_field(&mut fields, value);
        push_field(&mut fields, datum);
        push_field(&mut fields, reference_script);
        assert(terms_of(fields@) =~= seq![address@, value@, datum@, reference_script@]) by {
            assert(terms_of(Seq::<PlutusData>::empty()) =~= Seq::<Term>::empty());
        }
        let r = wrap_multiple_with_constr(0, fields);
        assert(term_of_output(shown)->Ok_0->Constr_1 =~= seq![
            address@,
            value@,
            datum@,
            reference_script@,
        ]);
        Ok(r)
    }

    /// The term of an input as a script sees it.
    pub fn from_input(input: Input) -> (r: Result<PlutusData, ScriptError>)
        ensures
            outcome_of(r) == term_of_input(input@),
    {
        let output_reference = match PlutusData::from_output_reference(
            CtxOutputReference {
                transaction_id: input.transaction_id,
                output_index: input.output_index,
            },
        ) {
            Ok(term) => term,
            Err(e) => {
                return Err(e);
            },
        };
        let output = match PlutusData::from_output(
            CtxOutput {
                address: input.address,
                value: input.value,
                datum: input.datum,
                reference_script: input.reference_script,
            },
        ) {
            Ok(term) => term,
            Err(e) => {
                return Err(e);
            },
        };
        Ok(wrap_pair_with_constr(0, output_reference, output))
    }

    /// The term of the purpose of a script.
    pub fn from_purpose(purpose: CtxScriptPurpose) -> (r: Result<PlutusData, ScriptError>)
        ensures
            outcome_of(r) == term_of_purpose(purpose@),
    {
        match purpose {
            CtxScriptPurpose::Mint(policy_id) => Ok(
                wrap_with_constr(0, PlutusData::BoundedBytes(policy_id)),
            ),
            CtxScriptPurpose::Spend(out_ref) => {
                match PlutusData::from_output_reference(out_ref) {
                    Ok(term) => Ok(wrap_with_constr(1, term)),
                    Err(e) => Err(e),
                }
            },
        }
    }

    /// The entry that stands for `amount` of the base currency.
    fn lovelace_entry(amount: u64) -> (r: PlutusData)
        ensures
            r@ == term_of_lovelace(amount),
    {
        let mut inner: Vec<(PlutusData, PlutusData)> = Vec::new();
        inner.push(
            (
                PlutusData::BoundedBytes(Vec::new()),
                PlutusData::BigInt(BigInt::Int { neg: false, val: amount }),
            ),
        );
        proof {
            lemma_entries_of(inner@);
            assert(entries_of(inner@) =~= seq![
                (
                    Term::Bytes(Seq::empty()),
                    Term::Integer(Number::Int { neg: false, val: amount }),
                ),
            ]);
        }
        let mut outer: Vec<(PlutusData, PlutusData)> = Vec::new();
        outer.push((PlutusData::BoundedBytes(Vec::new()), PlutusData::Mapping(inner)));
        proof {
            lemma_entries_of(outer@);
            assert(entries_of(outer@) =~= seq![
                (
                    Term::Bytes(Seq::empty()),
                    Term::Mapping(
                        seq![
                            (
                                Term::Bytes(Seq::empty()),
                                Term::Integer(Number::Int { neg: false, val: amount }),
                            ),
                        ],
                    ),
                ),
            ]);
        }
        PlutusData::Mapping(outer)
    }

    /// The term of a validation context, as a script reads it. The same
    /// context always gives the same term.
    pub fn from_tx_context(ctx: TxContext) -> (r: Result<PlutusData, ScriptError>)
        ensures
            outcome_of(r) == term_of_context(ctx@),
    {
        let ghost shown = ctx@;
        let TxContext { purpose, signer, range, inputs, outputs, extra_signatories, datums } = ctx;
        let input_list = match Self::from_inputs(inputs) {
            Ok(list) => list,
            Err(e) => {
                return Err(e);
            },
        };
        let output_list = match Self::from_outputs(outputs) {
            Ok(list) => list,
            Err(e) => {
                return Err(e);
            },
        };
        let valid_range = match PlutusData::from_valid_range(range) {
            Ok(term) => term,
            Err(e) => {
                return Err(e);
            },
        };
        let signatories = Self::from_signatories(&extra_signatories, &signer);
        let data = Self::from_datums(datums);
        let purpose_term = match PlutusData::from_purpose(purpose) {
            Ok(term) => term,
            Err(e) => {
                return Err(e);
            },
        };
        let reference_inputs = PlutusData::Array(Vec::new());
        let fee = Self::lovelace_entry(999);
        let mint = Self::lovelace_entry(0);
        let dcert = PlutusData::Array(Vec::new());
        let wdrl = PlutusData::Mapping(Vec::new());
        let redeemers = PlutusData::Mapping(Vec::new());
        let id = wrap_with_constr(0, PlutusData::BoundedBytes(Vec::new()));
        let input_array = PlutusData::Array(input_list);
        let output_array = PlutusData::Array(output_list);
        let signatory_array = PlutusData::Array(signatories);
        let mut fields: Vec<PlutusData> = Vec::new();
        push_field(&mut fields, input_array);
        push_field(&mut fields, reference_inputs);
        push_field(&mut fields, output_array);
        push_field(&mut fields, fee);
        push_field(&mut fields, mint);
        push_field(&mut fields, dcert);
        push_field(&mut fields, wdrl);
        push_field(&mut fields, valid_range);
        push_field(&mut fields, signatory_array);
        push_field(&mut fields, redeemers);
        push_field(&mut fields, data);
        push_field(&mut fields, id);
        proof {
            assert(terms_of(Seq::<PlutusData>::empty()) =~= Seq::<Term>::empty());
            assert(entries_of(Seq::<(PlutusData, PlutusData)>::empty()) =~= Seq::<
                (Term, Term),
            >::empty());
            assert(terms_of(fields@) =~= seq![
                input_array@,
                reference_inputs@,
                output_array@,
                fee@,
                mint@,
                dcert@,
                wdrl@,
                valid_range@,
                signatory_array@,
                redeemers@,
                data@,
                id@,
            ]);
        }
        let tx_info = wrap_multiple_with_constr(0, fields);
        Ok(wrap_pair_with_constr(0, tx_info, purpose_term))
    }

    /// The terms of the inputs of a context.
    pub fn from_inputs(inputs: Vec<Input>) -> (r: Result<Vec<PlutusData>, ScriptError>)
        ensures
            match r {
                Ok(list) => input_terms(views(inputs@), Seq::empty()) == Ok::<
                    Seq<Term>,
                    ScriptFault,
                >(terms_of(list@)),
                Err(e) => input_terms(views(inputs@), Seq::empty()) == Err::<
                    Seq<Term>,
                    ScriptFault,
                >(e@),
            },
    {
        let ghost all = views(inputs@);
        let mut pending = inputs;
        let mut reversed: Vec<Input> = Vec::new();
        assert(all.take(all.len() as int) =~= all);
        while pending.len() > 0
            invariant
                pending.len() + reversed.len() == all.len(),
                views(pending@) == all.take(pending.len() as int),
                forall|j: int|
                    0 <= j < reversed.len() ==> (#[trigger] reversed[j])@ == all[all.len() - 1 - j],
            decreases pending.len(),
        {
            let ghost n = pending.len() as int;
            let ghost held = views(pending@);
            let last = pending.pop().unwrap();
            assert(held[n - 1] == last@);
            assert(views(pending@) =~= all.take(n - 1));
            reversed.push(last);
        }
        let mut list: Vec<PlutusData> = Vec::new();
        assert(all.skip(0) =~= all);
        assert(terms_of(list@) =~= Seq::<Term>::empty());
        while reversed.len() > 0
            invariant
                reversed.len() <= all.len(),
                all == views(inputs@),
                forall|j: int|
                    0 <= j < reversed.len() ==> (#[trigger] reversed[j])@ == all[all.len() - 1 - j],
                input_terms(all, Seq::empty()) == input_terms(
                    all.skip(all.len() - reversed.len()),
                    terms_of(list@),
                ),
            decreases reversed.len(),
        {
            let ghost at = all.len() - reversed.len();
            let ghost rest = all.skip(at);
            let next = reversed.pop().unwrap();
            assert(rest[0] == next@);
            assert(rest.drop_first() =~= all.skip(at + 1));
            let term = match PlutusData::from_input(next) {
                Ok(term) => term,
                Err(e) => {
                    return Err(e);
                },
            };
            push_field(&mut list, term);
        }
        assert(all.skip(all.len() as int) =~= Seq::<InputView>::empty());
        Ok(list)
    }

    /// The terms of the outputs of a context.
    pub fn from_outputs(outputs: Vec<CtxOutput>) -> (r: Result<Vec<PlutusData>, ScriptError>)
        ensures
            match r {
                Ok(list) => output_terms(views(outputs@), Seq::empty()) == Ok::<
                    Seq<Term>,
                    ScriptFault,
                >(terms_of(list@)),
                Err(e) => output_terms(views(outputs@), Seq::empty()) == Err::<
                    Seq<Term>,
                    ScriptFault,
                >(e@),
            },
    {
        let ghost all = views(outputs@);
        let mut pending = outputs;
        let mut reversed: Vec<CtxOutput> = Vec::new();
        assert(all.take(all.len() as int) =~= all);
        while pending.len() > 0
            invariant
                pending.len() + reversed.len() == all.len(),
                views(pending@) == all.take(pending.len() as int),
                forall|j: int|
                    0 <= j < reversed.len() ==> (#[trigger] reversed[j])@ == all[all.len() - 1 - j],
            decreases pending.len(),
        {
            let ghost n = pending.len() as int;
            let ghost held = views(pending@);
            let last = pending.pop().unwrap();
            assert(held[n - 1] == last@);
            assert(views(pending@) =~= all.take(n - 1));
            reversed.push(last);
        }
        let mut list: Vec<PlutusData> = Vec::new();
        assert(all.skip(0) =~= all);
        assert(terms_of(list@) =~= Seq::<Term>::empty());
        while reversed.len() > 0
            invariant
                reversed.len() <= all.len(),
                all == views(outputs@),
                forall|j: int|
                    0 <= j < reversed.len() ==> (#[trigger] reversed[j])@ == all[all.len() - 1 - j],
                output_terms(all, Seq::empty()) == output_terms(
                    all.skip(all.len() - reversed.len()),
                    terms_of(list@),
                ),
            decreases reversed.len(),
        {
            let ghost at = all.len() - reversed.len();
            let ghost rest = all.skip(at);
            let next = reversed.pop().unwrap();
            assert(rest[0] == next@);
            assert(rest.drop_first() =~= all.skip(at + 1));
            let term = match PlutusData::from_output(next) {
                Ok(term) => term,
                Err(e) => {
                    return Err(e);
                },
            };
            push_field(&mut list, term);
        }
        assert(all.skip(all.len() as int) =~= Seq::<CtxOutputView>::empty());
        Ok(list)
    }

    /// The terms of those who sign.
    pub fn from_signatories(extra_signatories: &Vec<PubKeyHash>, signer: &PubKeyHash) -> (r: Vec<
        PlutusData,
    >)
        ensures
            terms_of(r@) == signatory_terms(views(extra_signatories@), signer@),
    {
        let mut list: Vec<PlutusData> = Vec::new();
        let mut i: usize = 0;
        while i < extra_signatories.len()
            invariant
                i <= extra_signatories.len(),
                list.len() == i,
                forall|j: int|
                    0 <= j < i ==> term_of(#[trigger] list[j]) == Term::Bytes(
                        extra_signatories[j]@,
                    ),
            decreases extra_signatories.len() - i,
        {
            list.push(PlutusData::from_pub_key_hash(&extra_signatories[i]));
            i += 1;
        }
        list.push(PlutusData::from_pub_key_hash(signer));
        proof {
            lemma_terms_of(list@);
            assert(terms_of(list@) =~= signatory_terms(views(extra_signatories@), signer@));
        }
        list
    }

    /// The datums of a context under their hashes.
    pub fn from_datums(datums: Vec<(Vec<u8>, PlutusData)>) -> (r: PlutusData)
        ensures
            r@ == Term::Mapping(bytes_keyed(datum_entries(datums_view(datums@), Seq::empty()))),
    {
        let ghost all = datums_view(datums@);
        let mut pending = datums;
        let mut reversed: Vec<(Vec<u8>, PlutusData)> = Vec::new();
        assert(all.take(all.len() as int) =~= all);
        while pending.len() > 0
            invariant
                pending.len() + reversed.len() == all.len(),
                datums_view(pending@) == all.take(pending.len() as int),
                forall|j: int|
                    0 <= j < reversed.len() ==> ((#[trigger] reversed[j]).0@, reversed[j].1@)
                        == all[all.len() - 1 - j],
            decreases pending.len(),
        {
            let ghost n = pending.len() as int;
            let ghost held = datums_view(pending@);
            let last = pending.pop().unwrap();
            assert(held[n - 1] == (last.0@, last.1@));
            assert(datums_view(pending@) =~= all.take(n - 1));
            reversed.push(last);
        }
        let mut done: Vec<(Vec<u8>, PlutusData)> = Vec::new();
        assert(all.skip(0) =~= all);
        assert(datums_view(done@) =~= Seq::<(Seq<u8>, Term)>::empty());
        while reversed.len() > 0
            invariant
                reversed.len() <= all.len(),
                forall|j: int|
                    0 <= j < reversed.len() ==> ((#[trigger] reversed[j]).0@, reversed[j].1@)
                        == all[all.len() - 1 - j],
                datum_entries(all, Seq::empty()) == datum_entries(
                    all.skip(all.len() - reversed.len()),
                    datums_view(done@),
                ),
            decreases reversed.len(),
        {
            let ghost at = all.len() - reversed.len();
            let ghost rest = all.skip(at);
            let next = reversed.pop().unwrap();
            assert(rest[0] == (next.0@, next.1@));
            assert(rest.drop_first() =~= all.skip(at + 1));
            place(&mut done, next.0, next.1);
        }
        assert(all.skip(all.len() as int) =~= Seq::<(Seq<u8>, Term)>::empty());
        mapping_of(done)
    }

    /// The integer that a term stands for, where it has 64 bits with a sign.
    /// A larger integer is not modelled; a term of another form is none.
    pub fn to_i64(&self) -> (r: Result<i64, ScriptError>)
        ensures
            match r {
                Ok(n) => self@ matches Term::Integer(number) && number.to_int() == Some(n as int),
                Err(ScriptError::Unsupported) => self@ matches Term::Integer(number)
                    && number.to_int() is None,
                Err(e) => e@ == ScriptFault::DatumDeserialization("the term is no integer"@)
                    && !(self@ is Integer),
            },
    {
        match self {
            PlutusData::BigInt(inner) => match inner.to_i64() {
                Some(n) => Ok(n),
                None => Err(ScriptError::Unsupported),
            },
            _ => Err(ScriptError::DatumDeserialization("the term is no integer".to_owned())),
        }
    }
}

impl Number {
    /// The integer that the number stands for, where it has 64 bits with a
    /// sign.
    pub open spec fn to_int(self) -> Option<int> {
        match self {
            Number::Int { neg: false, val } => if val <= i64::MAX {
                Some(val as int)
            } else {
                None
            },
            Number::Int { neg: true, val } => if val <= i64::MAX + 1 {
                Some(-(val as int))
            } else {
                None
            },
            _ => None,
        }
    }
}

impl BigInt {
    /// The integer, where it has 64 bits with a sign.
    pub fn to_i64(&self) -> (r: Option<i64>)
        ensures
            match r {
                Some(n) => self@.to_int() == Some(n as int),
                None => self@.to_int() is None,
            },
    {
        match self {
            BigInt::Int { neg, val } => {
                if *neg {
                    if *val <= 0x7fff_ffff_ffff_ffffu64 {
                        let magnitude = *val as i64;
                        Some(-magnitude)
                    } else if *val == 0x8000_0000_0000_0000u64 {
                        Some(i64::MIN)
                    } else {
                        None
                    }
                } else {
                    if *val <= 0x7fff_ffff_ffff_ffffu64 {
                        Some(*val as i64)
                    } else {
                        None
                    }
                }
            },
            BigInt::BigUInt(_) => None,
            BigInt::BigNInt(_) => None,
        }
    }
}

/// Encoding is deterministic: two contexts that show the same transaction
/// are encoded alike, to the same term or with the same error.
pub proof fn lemma_same_context_same_term(
    first: TxContext,
    second: TxContext,
    first_encoded: Result<PlutusData, ScriptError>,
    second_encoded: Result<PlutusData, ScriptError>,
)
    requires
        first@ == second@,
        outcome_of(first_encoded) == term_of_context(first@),
        outcome_of(second_encoded) == term_of_context(second@),
    ensures
        outcome_of(first_encoded) == outcome_of(second_encoded),
{
}

} // verus!
