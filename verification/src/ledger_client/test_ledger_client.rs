//! A ledger in memory: it holds the unspent outputs, asks the scripts that
//! guard the inputs of a submission, and commits it completely or not at all.
use crate::address::{Address, AddressView, AssetId, PaymentCredential, PolicyId};
use crate::backend::balance::{
    distinct_unbuilt, lemma_drafted_is_even, lemma_spent_in, lemma_total_first,
    lemma_total_of_both, minted_of, needed, spent_in, total,
};
use crate::backend::Backend;
use crate::backend::selection::{
    draft, drafted, find_output, gathered, is_taken, lemma_pin_scripts_keeps,
    lemma_pin_wallet_keeps, lemma_position_of, lemma_selected_keeps, pin_scripts, pin_wallet,
    position_of, required, selected, with_minted, within, Draft, Entries,
};
use crate::ledger_client::validation::{
    all_permitted, ask_scripts, first_refusal, mint_permitted, show, shown, spend_permitted,
};
use crate::ledger_client::{LedgerClient, LedgerClientError, LedgerClientResult, LedgerFault};
use crate::logic::SCLogic;
use crate::output::{Output, OutputId, OutputIdView, OutputView, UnbuiltOutput};
use crate::scripts::context::{
    pub_key_hash_from_address_if_available, OutputRef, Purpose, TxContextView,
};
use crate::scripts::{MintingPolicy, ToPlutusData, ValidatorCode};
use crate::smart_contract::hit;
use crate::transaction::{Parts, TxId, UnbuiltTransaction};
use crate::values::{amount, entries_map, Values};
use vstd::bytes::{lemma_auto_spec_u64_to_from_le_bytes, spec_u64_to_le_bytes, u64_to_le_bytes};
use vstd::prelude::*;

verus! {

/// The hash that stands for the transaction with number `n`.
pub open spec fn tx_hash_of(n: u64) -> Seq<u8> {
    spec_u64_to_le_bytes(n)
}

/// Whether an output of that name was created by a transaction with a number
/// below `n`.
pub open spec fn minted_before(id: OutputIdView, n: u64) -> bool {
    exists|k: u64| k < n && id.tx_hash == #[trigger] tx_hash_of(k)
}

/// The outputs held at `address`, in their order.
pub open spec fn held_at<Datum>(outputs: Seq<Output<Datum>>, address: AddressView) -> Seq<
    Output<Datum>,
>
    decreases outputs.len(),
{
    if outputs.len() == 0 {
        Seq::empty()
    } else if outputs.last()@.owner == address {
        held_at(outputs.drop_last(), address).push(outputs.last())
    } else {
        held_at(outputs.drop_last(), address)
    }
}

/// What the outputs at `address` hold of `asset`, together.
pub open spec fn balance_at<Datum>(outputs: Seq<Output<Datum>>, address: AddressView, asset: AssetId)
    -> nat
    decreases outputs.len(),
{
    if outputs.len() == 0 {
        0
    } else if outputs.last()@.owner == address {
        balance_at(outputs.drop_last(), address, asset) + amount(outputs.last()@.values, asset)
    } else {
        balance_at(outputs.drop_last(), address, asset)
    }
}

/// Whether `copies` are clones of `sources`, one for one.
pub open spec fn clones_of<Datum: Clone>(copies: Seq<Output<Datum>>, sources: Seq<Output<Datum>>)
    -> bool {
    &&& copies.len() == sources.len()
    &&& forall|i: int| 0 <= i < copies.len() ==> (#[trigger] copies[i])@.is_clone_of(sources[i]@)
}

/// The state of the ledger: who signs, the unspent outputs in the order in
/// which they were created, and the number of the next transaction.
pub struct LedgerView<Datum> {
    pub signer: AddressView,
    pub outputs: Seq<Output<Datum>>,
    pub next_tx: u64,
}

impl<Datum> LedgerView<Datum> {
    /// No two outputs have the same name, each was created by a transaction
    /// with a number below that of the next one, which is not 0, and no
    /// output holds two entries for one asset.
    pub open spec fn well_formed(self) -> bool {
        &&& self.next_tx >= 1
        &&& forall|i: int, j: int|
            0 <= i < j < self.outputs.len() ==> self.outputs[i]@.id != self.outputs[j]@.id
        &&& forall|i: int|
            0 <= i < self.outputs.len() ==> minted_before(
                (#[trigger] self.outputs[i])@.id,
                self.next_tx,
            )
        &&& forall|i: int|
            0 <= i < self.outputs.len() ==> (#[trigger] self.outputs[i]).held().distinct()
    }

    /// Whether the ledger holds an output named `id`.
    pub open spec fn holds(self, id: OutputIdView) -> bool {
        exists|i: int| 0 <= i < self.outputs.len() && (#[trigger] self.outputs[i])@.id == id
    }
}

/// The ledger in memory.
#[derive(Debug)]
pub struct TestLedgerClient<Datum, Redeemer> {
    signer: Address,
    outputs: Vec<Output<Datum>>,
    next_tx: u64,
    _redeemer: core::marker::PhantomData<Redeemer>,
}

impl<Datum, Redeemer> View for TestLedgerClient<Datum, Redeemer> {
    type V = LedgerView<Datum>;

    closed spec fn view(&self) -> LedgerView<Datum> {
        LedgerView { signer: self.signer@, outputs: self.outputs@, next_tx: self.next_tx }
    }
}

impl<Datum, Redeemer> TestLedgerClient<Datum, Redeemer> {
    #[verifier::type_invariant]
    spec fn sound(self) -> bool {
        (LedgerView { signer: self.signer@, outputs: self.outputs@, next_tx: self.next_tx })
            .well_formed()
    }

    /// A ledger without outputs, on which `signer` signs. The first
    /// transaction has the number 1: the number 0 stands for the outputs that
    /// the ledger is given at the start.
    pub fn new(signer: Address) -> (r: Self)
        ensures
            r@ == (LedgerView::<Datum> { signer: signer@, outputs: Seq::empty(), next_tx: 1 }),
            r@.well_formed(),
    {
        TestLedgerClient {
            signer,
            outputs: Vec::new(),
            next_tx: 1,
            _redeemer: core::marker::PhantomData,
        }
    }

    /// A ledger holds no more outputs than the machine can count.
    pub proof fn lemma_countable(self)
        ensures
            self@.outputs.len() <= usize::MAX,
    {
        assert(self.outputs.len() == self.outputs@.len());
    }

    /// Recalls what holds of every ledger: its state is well formed.
    pub fn check(&self)
        ensures
            self@.well_formed(),
    {
        proof {
            use_type_invariant(self);
        }
    }

    /// The address of the one who signs.
    pub fn signer(&self) -> (r: &Address)
        ensures
            r@ == self@.signer,
    {
        &self.signer
    }

    /// Lets another one sign from now on.
    pub fn set_signer(&mut self, signer: Address)
        ensures
            final(self)@ == (LedgerView { signer: signer@, ..old(self)@ }),
            final(self)@.well_formed(),
    {
        proof {
            use_type_invariant(&*self);
        }
        self.signer = signer;
    }

    /// The number of outputs that the ledger holds.
    pub fn len(&self) -> (n: usize)
        ensures
            n == self@.outputs.len(),
    {
        self.outputs.len()
    }

    /// The output at place `i`.
    pub fn output(&self, i: usize) -> (r: &Output<Datum>)
        requires
            i < self@.outputs.len(),
        ensures
            *r == self@.outputs[i as int],
    {
        &self.outputs[i]
    }

    /// The place of the output named `id`, or the number of outputs where the
    /// ledger holds none of that name.
    pub fn position(&self, id: &OutputId) -> (r: usize)
        ensures
            r == position_of(self@.outputs, id@),
            r <= self@.outputs.len(),
    {
        find_output(&self.outputs, id)
    }

    /// Adds an output that the ledger holds from the start: output `index` of
    /// the transaction with number 0. This fails where the ledger holds an
    /// output of that name already.
    fn add_initial_output(
        &mut self,
        index: u64,
        owner: Address,
        values: Values,
        datum: Option<Datum>,
    ) -> (r: Result<(), LedgerClientError>)
        ensures
            match r {
                Ok(_) => {
                    &&& !old(self)@.holds(OutputIdView { tx_hash: tx_hash_of(0), index })
                    &&& final(self)@.signer == old(self)@.signer
                    &&& final(self)@.next_tx == old(self)@.next_tx
                    &&& final(self)@.outputs.len() == old(self)@.outputs.len() + 1
                    &&& final(self)@.outputs.drop_last() == old(self)@.outputs
                    &&& final(self)@.outputs.last()@ == (crate::output::OutputView {
                        id: OutputIdView { tx_hash: tx_hash_of(0), index },
                        owner: owner@,
                        values: values@,
                        datum,
                    })
                    &&& final(self)@.outputs.last().held() == values
                },
                Err(e) => {
                    &&& old(self)@.holds(OutputIdView { tx_hash: tx_hash_of(0), index })
                    &&& e@ == LedgerFault::OutputNotFound(
                        OutputIdView { tx_hash: tx_hash_of(0), index },
                    )
                    &&& final(self)@ == old(self)@
                },
            },
    {
        proof {
            use_type_invariant(&*self);
        }
        let id = OutputId::new(u64_to_le_bytes(0), index);
        let at = self.position(&id);
        proof {
            lemma_position_of(self.outputs@, id@);
        }
        if at < self.outputs.len() {
            return Err(LedgerClientError::OutputNotFound(id));
        }
        let tx_hash = u64_to_le_bytes(0);
        values.check();
        let output = match datum {
            Some(datum) => Output::new_validator(tx_hash, index, owner, values, datum),
            None => Output::new_wallet(tx_hash, index, owner, values),
        };
        let ghost before = self.outputs@;
        let mut outputs: Vec<Output<Datum>> = Vec::new();
        core::mem::swap(&mut outputs, &mut self.outputs);
        outputs.push(output);
        proof {
            assert(tx_hash_of(0) == tx_hash_of(0));
            assert(minted_before(output@.id, self.next_tx));
        }
        self.outputs = outputs;
        assert(self.outputs@.drop_last() =~= before);
        Ok(())
    }

    /// What the outputs at `address` hold of `policy`, together. This fails
    /// where the sum is no quantity.
    pub fn balance_at_address(&self, address: &Address, policy: &PolicyId) -> (r: Result<
        u64,
        LedgerClientError,
    >)
        ensures
            match r {
                Ok(balance) => balance == balance_at(self@.outputs, address@, policy@),
                Err(e) => e@ == LedgerFault::Arithmetic && balance_at(
                    self@.outputs,
                    address@,
                    policy@,
                ) > u64::MAX,
            },
    {
        let mut balance: u64 = 0;
        let mut i: usize = 0;
        assert(self.outputs@.take(0) =~= Seq::<Output<Datum>>::empty());
        while i < self.outputs.len()
            invariant
                i <= self.outputs.len(),
                balance == balance_at(self.outputs@.take(i as int), address@, policy@),
            decreases self.outputs.len() - i,
        {
            proof {
                assert(self.outputs@.take(i + 1).drop_last() =~= self.outputs@.take(i as int));
                assert(self.outputs@.take(i + 1).last() == self.outputs@[i as int]);
            }
            if *self.outputs[i].owner() == *address {
                let quantity = self.outputs[i].values().amount_of(policy);
                if quantity > u64::MAX - balance {
                    proof {
                        lemma_balance_grows(self.outputs@, i + 1, address@, policy@);
                    }
                    return Err(LedgerClientError::Arithmetic);
                }
                balance = balance + quantity;
            }
            i += 1;
        }
        assert(self.outputs@.take(i as int) =~= self.outputs@);
        Ok(balance)
    }
}

/// The balance of the first `n` outputs is no more than that of all.
pub proof fn lemma_balance_grows<Datum>(
    outputs: Seq<Output<Datum>>,
    n: int,
    address: AddressView,
    asset: AssetId,
)
    requires
        0 <= n <= outputs.len(),
    ensures
        balance_at(outputs.take(n), address, asset) <= balance_at(outputs, address, asset),
    decreases outputs.len() - n,
{
    if n < outputs.len() {
        lemma_balance_grows(outputs, n + 1, address, asset);
        assert(outputs.take(n + 1).drop_last() =~= outputs.take(n));
    } else {
        assert(outputs.take(n) =~= outputs);
    }
}

impl<Datum: Clone, Redeemer> TestLedgerClient<Datum, Redeemer> {
    /// Clones of the outputs held at `address`, in the order in which they
    /// were created.
    pub fn all_outputs_at_address(&self, address: &Address) -> (r: LedgerClientResult<
        Vec<Output<Datum>>,
    >)
        ensures
            r matches Ok(found) && clones_of(found@, held_at(self@.outputs, address@)),
    {
        let mut found: Vec<Output<Datum>> = Vec::new();
        let mut i: usize = 0;
        assert(self.outputs@.take(0) =~= Seq::<Output<Datum>>::empty());
        while i < self.outputs.len()
            invariant
                i <= self.outputs.len(),
                clones_of(found@, held_at(self.outputs@.take(i as int), address@)),
            decreases self.outputs.len() - i,
        {
            proof {
                assert(self.outputs@.take(i + 1).drop_last() =~= self.outputs@.take(i as int));
                assert(self.outputs@.take(i + 1).last() == self.outputs@[i as int]);
            }
            if *self.outputs[i].owner() == *address {
                found.push(self.outputs[i].clone());
            }
            i += 1;
        }
        assert(self.outputs@.take(i as int) =~= self.outputs@);
        Ok(found)
    }

    /// Clones of the first outputs held at `address`, at most `count` of them.
    pub fn outputs_at_address(&self, address: &Address, count: usize) -> (r: LedgerClientResult<
        Vec<Output<Datum>>,
    >)
        ensures
            r matches Ok(found) && clones_of(
                found@,
                held_at(self@.outputs, address@).take(
                    if count <= held_at(self@.outputs, address@).len() {
                        count as int
                    } else {
                        held_at(self@.outputs, address@).len() as int
                    },
                ),
            ),
    {
        let all = match self.all_outputs_at_address(address) {
            Ok(all) => all,
            Err(e) => {
                return Err(e);
            },
        };
        let mut found = all;
        if count < found.len() {
            found.truncate(count);
        }
        Ok(found)
    }
}


/// The outputs that are not at a spent place, in their order; `offset` is the
/// place of the first of `outputs`.
pub open spec fn remaining<Datum>(outputs: Seq<Output<Datum>>, spent: Seq<usize>, offset: int)
    -> Seq<Output<Datum>>
    decreases outputs.len(),
{
    if outputs.len() == 0 {
        Seq::empty()
    } else if spent.contains(offset as usize) {
        remaining(outputs.drop_first(), spent, offset + 1)
    } else {
        seq![outputs[0]] + remaining(outputs.drop_first(), spent, offset + 1)
    }
}

/// Whether `output` is what `declared` becomes under the name `id`.
pub open spec fn created_from<Datum>(
    output: Output<Datum>,
    id: OutputIdView,
    declared: UnbuiltOutput<Datum>,
) -> bool {
    &&& output@ == (OutputView {
        id,
        owner: declared@.owner,
        values: declared@.values,
        datum: declared@.datum,
    })
    &&& output.held() == declared.held()
}

/// Whether `output` is the change: a wallet output of the signer, under the
/// name `id`, with the given entries.
pub open spec fn change_for<Datum>(
    output: Output<Datum>,
    id: OutputIdView,
    signer: AddressView,
    change: Entries,
) -> bool {
    &&& output@ == (OutputView::<Datum> {
        id,
        owner: signer,
        values: entries_map(change),
        datum: None,
    })
    &&& output.held().entries() == change
}

/// Whether `after` is the ledger `before` once the transaction is committed
/// as `draft` settles it: the outputs that it spends are gone, and those that
/// it creates follow the others, in the order in which they were declared and
/// the change last, each named by the hash of the transaction and its place
/// among them.
pub open spec fn committed<Datum, Redeemer, Validator, Policy>(
    before: LedgerView<Datum>,
    tx: Parts<Datum, Redeemer, Validator, Policy>,
    draft: Draft,
    after: LedgerView<Datum>,
) -> bool {
    let kept = remaining(before.outputs, draft.inputs, 0);
    let declared = tx.unbuilt_outputs;
    let hash = tx_hash_of(before.next_tx);
    &&& after.signer == before.signer
    &&& after.next_tx == before.next_tx + 1
    &&& after.outputs.len() == kept.len() + declared.len() + (if draft.change.len() > 0 {
        1int
    } else {
        0int
    })
    &&& after.outputs.take(kept.len() as int) == kept
    &&& forall|k: int|
        0 <= k < declared.len() ==> created_from(
            #[trigger] after.outputs[kept.len() + k],
            OutputIdView { tx_hash: hash, index: k as u64 },
            declared[k],
        )
    &&& draft.change.len() > 0 ==> change_for(
        after.outputs[(kept.len() + declared.len()) as int],
        OutputIdView { tx_hash: hash, index: declared.len() as u64 },
        before.signer,
        draft.change,
    )
}

/// The text of the error of a ledger whose transaction numbers are used up.
pub open spec fn no_number_left() -> Seq<char> {
    "the ledger has no transaction number left"@
}

/// The text of the error of a ledger whose signer is a script.
pub open spec fn signer_has_no_key() -> Seq<char> {
    "the signer's address has no key"@
}

/// What the ledger decides of a submission: how it is settled, or why it is
/// refused. `None` stands for the refusal by a script, whose error the script
/// words.
pub open spec fn judged<
    Datum: ToPlutusData,
    Redeemer,
    Validator: ValidatorCode<Datum, Redeemer>,
    Policy: MintingPolicy<Redeemer>,
>(ledger: LedgerView<Datum>, tx: Parts<Datum, Redeemer, Validator, Policy>) -> Result<
    Draft,
    Option<LedgerFault>,
> {
    if ledger.next_tx == u64::MAX {
        Err(Some(LedgerFault::FailedToIssueTx(no_number_left())))
    } else {
        match ledger.signer.payment {
            PaymentCredential::Script(_) => Err(
                Some(LedgerFault::FailedToIssueTx(signer_has_no_key())),
            ),
            PaymentCredential::Key(hash) => match drafted(ledger.outputs, ledger.signer, tx) {
                Err(e) => Err(Some(e)),
                Ok(draft) => match shown(ledger.outputs, hash, ledger.signer, tx, draft) {
                    Err(e) => Err(Some(e)),
                    Ok(base) => if all_permitted(ledger.outputs, tx, draft.inputs, base) {
                        Ok(draft)
                    } else {
                        Err(None)
                    },
                },
            },
        }
    }
}

/// Whether the scripts refuse the submission with `fault`: it is settled, it
/// can be shown, and the first script that does not permit it, or the ledger
/// in its place, refuses with that error.
pub open spec fn refused<
    Datum: ToPlutusData,
    Redeemer,
    Validator: ValidatorCode<Datum, Redeemer>,
    Policy: MintingPolicy<Redeemer>,
>(
    ledger: LedgerView<Datum>,
    tx: Parts<Datum, Redeemer, Validator, Policy>,
    fault: crate::scripts::ScriptFault,
) -> bool {
    &&& ledger.signer.payment matches PaymentCredential::Key(hash)
    &&& drafted(ledger.outputs, ledger.signer, tx) matches Ok(draft)
    &&& shown(ledger.outputs, hash, ledger.signer, tx, draft) matches Ok(base)
    &&& first_refusal(ledger.outputs, tx, draft.inputs, base, fault)
}

/// What the ledger in memory promises of a submission. The ledger after it is
/// well formed and follows the ledger before it. Where the submission is
/// accepted, it is committed as it was settled, and the result is the hash of
/// the transaction in hexadecimal text. Where it is refused, nothing changes,
/// and the error says why.
pub open spec fn submitted<
    Datum: ToPlutusData,
    Redeemer,
    Validator: ValidatorCode<Datum, Redeemer>,
    Policy: MintingPolicy<Redeemer>,
>(
    before: LedgerView<Datum>,
    tx: Parts<Datum, Redeemer, Validator, Policy>,
    after: LedgerView<Datum>,
    r: LedgerClientResult<TxId>,
) -> bool {
    &&& after.well_formed()
    &&& follows(before, after)
    &&& match r {
        Ok(id) => judged(before, tx) matches Ok(draft) && committed(before, tx, draft, after)
            && id@ == crate::hex::hex_encoding(tx_hash_of(before.next_tx)),
        Err(e) => after == before && match judged(before, tx) {
            Err(Some(fault)) => e@ == fault,
            Err(None) => e@ matches LedgerFault::ScriptExecution(fault) && refused(
                before,
                tx,
                fault,
            ),
            Ok(_) => false,
        },
    }
}

/// Whether the outputs have names of their own, each created by a transaction
/// with a number below `n`.
pub open spec fn sound_outputs<Datum>(outputs: Seq<Output<Datum>>, n: u64) -> bool {
    &&& forall|i: int, j: int| 0 <= i < j < outputs.len() ==> outputs[i]@.id != outputs[j]@.id
    &&& forall|i: int| 0 <= i < outputs.len() ==> minted_before((#[trigger] outputs[i])@.id, n)
}

/// The hashes of two transactions are the same only where their numbers are.
pub proof fn lemma_tx_hash_of(a: u64, b: u64)
    ensures
        tx_hash_of(a) == tx_hash_of(b) <==> a == b,
{
    lemma_auto_spec_u64_to_from_le_bytes();
}

/// The outputs in the opposite order.
fn reversed<Datum>(outputs: Vec<Output<Datum>>) -> (r: Vec<Output<Datum>>)
    ensures
        r.len() == outputs.len(),
        forall|j: int| 0 <= j < r.len() ==> (#[trigger] r[j]) == outputs[outputs.len() - 1 - j],
{
    let ghost all = outputs@;
    let mut pending = outputs;
    let mut r: Vec<Output<Datum>> = Vec::new();
    while pending.len() > 0
        invariant
            pending.len() + r.len() == all.len(),
            pending@ == all.take(pending.len() as int),
            forall|j: int| 0 <= j < r.len() ==> (#[trigger] r[j]) == all[all.len() - 1 - j],
        decreases pending.len(),
    {
        let ghost n = pending.len() as int;
        let last = pending.pop().unwrap();
        assert(pending@ =~= all.take(n - 1));
        r.push(last);
    }
    r
}

/// The declared outputs in the opposite order.
fn reversed_unbuilt<Datum>(outputs: Vec<UnbuiltOutput<Datum>>) -> (r: Vec<UnbuiltOutput<Datum>>)
    ensures
        r.len() == outputs.len(),
        forall|j: int| 0 <= j < r.len() ==> (#[trigger] r[j]) == outputs[outputs.len() - 1 - j],
{
    let ghost all = outputs@;
    let mut pending = outputs;
    let mut r: Vec<UnbuiltOutput<Datum>> = Vec::new();
    while pending.len() > 0
        invariant
            pending.len() + r.len() == all.len(),
            pending@ == all.take(pending.len() as int),
            forall|j: int| 0 <= j < r.len() ==> (#[trigger] r[j]) == all[all.len() - 1 - j],
        decreases pending.len(),
    {
        let ghost n = pending.len() as int;
        let last = pending.pop().unwrap();
        assert(pending@ =~= all.take(n - 1));
        r.push(last);
    }
    r
}

/// The outputs that are not at a spent place, in their order.
pub fn keep_unspent<Datum>(outputs: Vec<Output<Datum>>, spent: &Vec<usize>) -> (kept: Vec<
    Output<Datum>,
>)
    ensures
        kept@ == remaining(outputs@, spent@, 0),
        kept.len() <= outputs.len(),
        forall|n: u64| sound_outputs(outputs@, n) ==> sound_outputs(kept@, n),
        forall|a: int| 0 <= a < kept.len() ==> outputs@.contains(#[trigger] kept[a]),
{
    let ghost all = outputs@;
    let mut pending = reversed(outputs);
    let mut kept: Vec<Output<Datum>> = Vec::new();
    let mut i: usize = 0;
    assert(all.skip(0) =~= all);
    assert(kept@ + remaining(all, spent@, 0) =~= remaining(all, spent@, 0));
    while pending.len() > 0
        invariant
            i + pending.len() == all.len(),
            all.len() <= usize::MAX,
            forall|j: int|
                0 <= j < pending.len() ==> (#[trigger] pending[j]) == all[all.len() - 1 - j],
            remaining(all, spent@, 0) == kept@ + remaining(all.skip(i as int), spent@, i as int),
            kept.len() <= i,
            forall|a: int|
                0 <= a < kept.len() ==> exists|j: int| 0 <= j < i && #[trigger] kept[a] == all[j],
            forall|n: u64|
                sound_outputs(all, n) ==> forall|a: int, b: int|
                    0 <= a < b < kept.len() ==> kept[a]@.id != kept[b]@.id,
        decreases pending.len(),
    {
        let ghost rest = all.skip(i as int);
        let ghost before = kept@;
        let next = pending.pop().unwrap();
        assert(rest[0] == next);
        assert(rest.drop_first() =~= all.skip(i + 1));
        if !is_taken(spent, i) {
            kept.push(next);
            assert(kept[kept.len() - 1] == all[i as int]);
            assert(before + (seq![rest[0]] + remaining(rest.drop_first(), spent@, i + 1))
                =~= kept@ + remaining(all.skip(i + 1), spent@, i + 1));
            assert forall|n: u64| sound_outputs(all, n) implies forall|a: int, b: int|
                0 <= a < b < kept.len() ==> kept[a]@.id != kept[b]@.id by {
                assert forall|a: int, b: int| 0 <= a < b < kept.len() implies kept[a]@.id
                    != kept[b]@.id by {
                    if b == kept.len() - 1 {
                        let j = choose|j: int| 0 <= j < i && before[a] == all[j];
                        assert(kept[a] == all[j]);
                    } else {
                        assert(before[a] == kept[a] && before[b] == kept[b]);
                    }
                }
            }
            assert forall|a: int| 0 <= a < kept.len() implies exists|j: int|
                0 <= j < i + 1 && #[trigger] kept[a] == all[j] by {
                if a < kept.len() - 1 {
                    let j = choose|j: int| 0 <= j < i && before[a] == all[j];
                    assert(kept[a] == all[j]);
                } else {
                    assert(kept[a] == all[i as int]);
                }
            }
        } else {
            assert forall|a: int| 0 <= a < kept.len() implies exists|j: int|
                0 <= j < i + 1 && #[trigger] kept[a] == all[j] by {
                let j = choose|j: int| 0 <= j < i && kept[a] == all[j];
                assert(kept[a] == all[j]);
            }
        }
        i += 1;
    }
    proof {
        assert(all.skip(i as int) =~= Seq::<Output<Datum>>::empty());
        assert(kept@ + Seq::<Output<Datum>>::empty() =~= kept@);
        assert forall|n: u64| sound_outputs(all, n) implies sound_outputs(kept@, n) by {
            assert forall|a: int| 0 <= a < kept.len() implies minted_before(
                (#[trigger] kept@[a])@.id,
                n,
            ) by {
                let j = choose|j: int| 0 <= j < i && kept[a] == all[j];
                assert(minted_before(all[j]@.id, n));
            }
        }
        assert forall|a: int| 0 <= a < kept.len() implies all.contains(#[trigger] kept[a]) by {
            let j = choose|j: int| 0 <= j < i && kept[a] == all[j];
            assert(all[j] == kept[a]);
        }
    }
    kept
}


/// The outputs of a ledger with those that a transaction creates behind them:
/// the declared ones in their order, then the change. The transaction has the
/// number `number`.
pub fn create_outputs<Datum>(
    kept: Vec<Output<Datum>>,
    declared: Vec<UnbuiltOutput<Datum>>,
    change: Option<Values>,
    signer: &Address,
    number: u64,
) -> (r: Vec<Output<Datum>>)
    requires
        sound_outputs(kept@, number),
        forall|i: int| 0 <= i < kept.len() ==> (#[trigger] kept[i]).held().distinct(),
        number < u64::MAX,
    ensures
        forall|i: int| 0 <= i < r.len() ==> (#[trigger] r[i]).held().distinct(),
        r.len() == kept.len() + declared.len() + (if change is Some {
            1int
        } else {
            0int
        }),
        r@.take(kept.len() as int) == kept@,
        forall|k: int|
            0 <= k < declared.len() ==> created_from(
                #[trigger] r[kept.len() + k],
                OutputIdView { tx_hash: tx_hash_of(number), index: k as u64 },
                declared[k],
            ),
        change matches Some(left) ==> change_for(
            r[kept.len() + declared.len()],
            OutputIdView { tx_hash: tx_hash_of(number), index: declared.len() as u64 },
            signer@,
            left.entries(),
        ),
        sound_outputs(r@, (number + 1) as u64),
{
    let ghost old_kept = kept@;
    let ghost all = declared@;
    let ghost next = (number + 1) as u64;
    let mut r = kept;
    let mut pending = reversed_unbuilt(declared);
    let mut k: usize = 0;
    proof {
        assert(r@.take(old_kept.len() as int) =~= old_kept);
        assert forall|i: int| 0 <= i < r.len() implies minted_before(
            (#[trigger] r@[i])@.id,
            next,
        ) by {
            let n = choose|n: u64| n < number && r@[i]@.id.tx_hash == #[trigger] tx_hash_of(n);
            assert(n < next && r@[i]@.id.tx_hash == tx_hash_of(n));
        }
    }
    while pending.len() > 0
        invariant
            k + pending.len() == all.len(),
            all.len() <= usize::MAX,
            number < u64::MAX,
            next == number + 1,
            forall|j: int|
                0 <= j < pending.len() ==> (#[trigger] pending[j]) == all[all.len() - 1 - j],
            r.len() == old_kept.len() + k,
            r@.take(old_kept.len() as int) == old_kept,
            sound_outputs(old_kept, number),
            forall|j: int|
                0 <= j < k ==> created_from(
                    #[trigger] r[old_kept.len() + j],
                    OutputIdView { tx_hash: tx_hash_of(number), index: j as u64 },
                    all[j],
                ),
            sound_outputs(r@, next),
            forall|i: int| 0 <= i < r.len() ==> (#[trigger] r[i]).held().distinct(),
        decreases pending.len(),
    {
        let ghost before = r@;
        let unbuilt = pending.pop().unwrap();
        assert(unbuilt == all[k as int]);
        let tx_hash = u64_to_le_bytes(number);
        let output = match unbuilt {
            UnbuiltOutput::Wallet { owner, values } => {
                values.check();
                Output::new_wallet(tx_hash, k as u64, owner, values)
            },
            UnbuiltOutput::Validator { script_address, values, datum } => {
                values.check();
                Output::new_validator(tx_hash, k as u64, script_address, values, datum)
            },
        };
        r.push(output);
        assert forall|i: int| 0 <= i < r.len() implies (#[trigger] r[i]).held().distinct() by {
            if i < before.len() {
                assert(r[i] == before[i]);
            }
        }
        proof {
            assert(r@.take(old_kept.len() as int) =~= before.take(old_kept.len() as int));
            assert forall|j: int| old_kept.len() <= j < before.len() implies (
            #[trigger] before[j])@.id.tx_hash == tx_hash_of(number) && before[j]@.id.index < (
            k as u64) by {
                let at = j - old_kept.len();
                assert(created_from(
                    before[old_kept.len() + at],
                    OutputIdView { tx_hash: tx_hash_of(number), index: at as u64 },
                    all[at],
                ));
            }
            lemma_created_is_sound(before, old_kept, output, number, k as u64);
            assert forall|j: int| 0 <= j < k + 1 implies created_from(
                #[trigger] r[old_kept.len() + j],
                OutputIdView { tx_hash: tx_hash_of(number), index: j as u64 },
                all[j],
            ) by {
                if j < k {
                    assert(r[old_kept.len() + j] == before[old_kept.len() + j]);
                }
            }
        }
        k += 1;
    }
    match change {
        Some(left) => {
            let ghost before = r@;
            left.check();
            let output = Output::new_wallet(
                u64_to_le_bytes(number),
                k as u64,
                signer.clone(),
                left,
            );
            r.push(output);
            assert forall|i: int| 0 <= i < r.len() implies (#[trigger] r[i]).held()
                .distinct() by {
                if i < before.len() {
                    assert(r[i] == before[i]);
                }
            }
            proof {
                assert(r@.take(old_kept.len() as int) =~= before.take(old_kept.len() as int));
                assert forall|j: int| old_kept.len() <= j < before.len() implies (
                #[trigger] before[j])@.id.tx_hash == tx_hash_of(number) && before[j]@.id.index
                    < (k as u64) by {
                    let at = j - old_kept.len();
                    assert(created_from(
                        before[old_kept.len() + at],
                        OutputIdView { tx_hash: tx_hash_of(number), index: at as u64 },
                        all[at],
                    ));
                }
                lemma_created_is_sound(before, old_kept, output, number, k as u64);
                assert forall|j: int| 0 <= j < all.len() implies created_from(
                    #[trigger] r[old_kept.len() + j],
                    OutputIdView { tx_hash: tx_hash_of(number), index: j as u64 },
                    all[j],
                ) by {
                    assert(r[old_kept.len() + j] == before[old_kept.len() + j]);
                }
            }
        },
        None => {},
    }
    r
}

/// An output of transaction `number` keeps a list of outputs sound where the
/// list holds older outputs and then outputs of that transaction at lower
/// places.
pub proof fn lemma_created_is_sound<Datum>(
    before: Seq<Output<Datum>>,
    kept: Seq<Output<Datum>>,
    output: Output<Datum>,
    number: u64,
    index: u64,
)
    requires
        number < u64::MAX,
        sound_outputs(kept, number),
        sound_outputs(before, (number + 1) as u64),
        kept.len() <= before.len(),
        before.take(kept.len() as int) == kept,
        output@.id == (OutputIdView { tx_hash: tx_hash_of(number), index }),
        forall|j: int|
            kept.len() <= j < before.len() ==> (#[trigger] before[j])@.id.tx_hash == tx_hash_of(
                number,
            ) && before[j]@.id.index < index,
    ensures
        sound_outputs(before.push(output), (number + 1) as u64),
{
    let after = before.push(output);
    let next = (number + 1) as u64;
    assert forall|i: int, j: int| 0 <= i < j < after.len() implies after[i]@.id
        != after[j]@.id by {
        if j == before.len() {
            if i < kept.len() {
                assert(kept[i] == before[i]);
                assert(minted_before(kept[i]@.id, number));
                let n = choose|n: u64|
                    n < number && kept[i]@.id.tx_hash == #[trigger] tx_hash_of(n);
                lemma_tx_hash_of(n, number);
            }
        }
    }
    assert forall|i: int| 0 <= i < after.len() implies minted_before(
        (#[trigger] after[i])@.id,
        next,
    ) by {
        if i == before.len() {
            assert(number < next && after[i]@.id.tx_hash == tx_hash_of(number));
        }
    }
}

impl<Datum: ToPlutusData, Redeemer> TestLedgerClient<Datum, Redeemer> {
    /// Submits a transaction. The ledger settles which outputs it spends and
    /// what change is due, asks the scripts, and commits. Where it refuses,
    /// nothing changes.
    pub fn issue<Validator: ValidatorCode<Datum, Redeemer>, Policy: MintingPolicy<Redeemer>>(
        &mut self,
        tx: UnbuiltTransaction<Datum, Redeemer, Validator, Policy>,
    ) -> (r: LedgerClientResult<TxId>)
        ensures
            submitted(old(self)@, tx@, final(self)@, r),
    {
        proof {
            use_type_invariant(&*self);
        }
        if self.next_tx == u64::MAX {
            return Err(
                LedgerClientError::FailedToIssueTx(
                    "the ledger has no transaction number left".to_owned(),
                ),
            );
        }
        let signer_hash = match pub_key_hash_from_address_if_available(&self.signer) {
            Some(hash) => hash,
            None => {
                return Err(
                    LedgerClientError::FailedToIssueTx("the signer's address has no key".to_owned()),
                );
            },
        };
        let (inputs, change) = match draft(&self.outputs, &self.signer, &tx) {
            Ok(settled) => settled,
            Err(e) => {
                return Err(e);
            },
        };
        let base = match show(&self.outputs, signer_hash, &self.signer, &tx, &inputs, &change) {
            Ok(base) => base,
            Err(e) => {
                return Err(e);
            },
        };
        match ask_scripts(&self.outputs, &tx, &inputs, &base) {
            Ok(_) => {},
            Err(e) => {
                return Err(e);
            },
        }
        let number = self.next_tx;
        let ghost before = self@;
        let ghost parts = tx@;
        let ghost settled = judged(before, parts)->Ok_0;
        let mut held: Vec<Output<Datum>> = Vec::new();
        core::mem::swap(&mut held, &mut self.outputs);
        let kept = keep_unspent(held, &inputs);
        assert forall|i: int| 0 <= i < kept.len() implies (#[trigger] kept[i]).held()
            .distinct() by {
            assert(before.outputs.contains(kept[i]));
        }
        let UnbuiltTransaction { unbuilt_outputs, .. } = tx;
        let outputs = create_outputs(kept, unbuilt_outputs, change, &self.signer, number);
        self.next_tx = number + 1;
        self.outputs = outputs;
        proof {
            lemma_committed_follows(before, parts, settled, self@);
        }
        let id = crate::hex::encode(&u64_to_le_bytes(number));
        Ok(TxId::new(id.as_str()))
    }
}


impl<
    Datum: Clone + ToPlutusData,
    Redeemer,
    Validator: ValidatorCode<Datum, Redeemer>,
    Policy: MintingPolicy<Redeemer>,
> LedgerClient<Datum, Redeemer, Validator, Policy> for TestLedgerClient<Datum, Redeemer> {
    open spec fn tells_signer(&self, r: LedgerClientResult<Address>) -> bool {
        r matches Ok(address) && address@ == self@.signer
    }

    fn signer_base_address(&self) -> (r: LedgerClientResult<Address>) {
        Ok(self.signer.clone())
    }

    open spec fn tells_outputs(
        &self,
        address: AddressView,
        count: usize,
        r: LedgerClientResult<Vec<Output<Datum>>>,
    ) -> bool {
        r matches Ok(found) && clones_of(
            found@,
            held_at(self@.outputs, address).take(
                if count <= held_at(self@.outputs, address).len() {
                    count as int
                } else {
                    held_at(self@.outputs, address).len() as int
                },
            ),
        )
    }

    fn outputs_at_address(&self, address: &Address, count: usize) -> (r: LedgerClientResult<
        Vec<Output<Datum>>,
    >) {
        TestLedgerClient::outputs_at_address(self, address, count)
    }

    open spec fn tells_all_outputs(
        &self,
        address: AddressView,
        r: LedgerClientResult<Vec<Output<Datum>>>,
    ) -> bool {
        r matches Ok(found) && clones_of(found@, held_at(self@.outputs, address))
    }

    fn all_outputs_at_address(&self, address: &Address) -> (r: LedgerClientResult<
        Vec<Output<Datum>>,
    >) {
        TestLedgerClient::all_outputs_at_address(self, address)
    }

    open spec fn issued(
        &self,
        tx: Parts<Datum, Redeemer, Validator, Policy>,
        after: &Self,
        r: LedgerClientResult<TxId>,
    ) -> bool {
        submitted(self@, tx, after@, r)
    }

    fn issue(&mut self, tx: UnbuiltTransaction<Datum, Redeemer, Validator, Policy>) -> (r:
        LedgerClientResult<TxId>) {
        TestLedgerClient::issue(self, tx)
    }
}


/// What a ledger is given at the start: for each output its owner, its value
/// and, for a script output, its datum.
pub type Opening<Datum> = (Address, Values, Option<Datum>);

/// Whether `output` is what `opening` becomes as output `index` of the
/// transaction with the number 0.
pub open spec fn opened_as<Datum>(output: Output<Datum>, index: u64, opening: Opening<Datum>)
    -> bool {
    &&& output@ == (OutputView {
        id: OutputIdView { tx_hash: tx_hash_of(0), index },
        owner: opening.0@,
        values: opening.1@,
        datum: opening.2,
    })
    &&& output.held() == opening.1
}

/// Collects what a ledger in memory holds at the start.
#[derive(Debug)]
pub struct TestBackendsBuilder<Datum, Redeemer> {
    pub signer: Address,
    pub outputs: Vec<Opening<Datum>>,
    pub _redeemer: core::marker::PhantomData<Redeemer>,
}

impl<Datum, Redeemer> TestBackendsBuilder<Datum, Redeemer> {
    /// A builder for a ledger without outputs, on which `signer` signs.
    pub fn new(signer: &Address) -> (r: Self)
        ensures
            r.signer@ == signer@,
            r.outputs@ == Seq::<Opening<Datum>>::empty(),
    {
        TestBackendsBuilder {
            signer: signer.clone(),
            outputs: Vec::new(),
            _redeemer: core::marker::PhantomData,
        }
    }

    /// Starts an output that `owner` holds, so far without value or datum.
    pub fn start_output(self, owner: &Address) -> (r: OutputBuilder<Datum, Redeemer>)
        ensures
            r.inner == self,
            r.owner@ == owner@,
            r.values@ == Map::<AssetId, u64>::empty(),
            r.values.entries() == Seq::<(AssetId, u64)>::empty(),
            r.datum is None,
    {
        OutputBuilder { inner: self, owner: owner.clone(), values: Values::new(), datum: None }
    }
}

impl<Datum: Clone + ToPlutusData, Redeemer> TestBackendsBuilder<Datum, Redeemer> {
    /// The ledger with the outputs that were collected, in their order:
    /// output `i` of the transaction with the number 0 is the `i`-th of them.
    pub fn build_in_memory(self) -> (r: Backend<
        Datum,
        Redeemer,
        TestLedgerClient<Datum, Redeemer>,
    >)
        ensures
            r.ledger_client@.well_formed(),
            r.ledger_client@.signer == self.signer@,
            r.ledger_client@.next_tx == 1,
            r.ledger_client@.outputs.len() == self.outputs.len(),
            forall|i: int|
                0 <= i < self.outputs.len() ==> opened_as(
                    #[trigger] r.ledger_client@.outputs[i],
                    i as u64,
                    self.outputs[i],
                ),
    {
        let TestBackendsBuilder { signer, outputs, _redeemer } = self;
        let ghost all = outputs@;
        let mut ledger: TestLedgerClient<Datum, Redeemer> = TestLedgerClient::new(signer);
        let mut pending = reversed_openings(outputs);
        let mut i: usize = 0;
        while pending.len() > 0
            invariant
                i + pending.len() == all.len(),
                all.len() <= usize::MAX,
                forall|j: int|
                    0 <= j < pending.len() ==> (#[trigger] pending[j]) == all[all.len() - 1 - j],
                ledger@.signer == self.signer@,
                ledger@.next_tx == 1,
                ledger@.outputs.len() == i,
                forall|j: int|
                    0 <= j < i ==> opened_as(#[trigger] ledger@.outputs[j], j as u64, all[j]),
            decreases pending.len(),
        {
            let ghost before = ledger@.outputs;
            let (owner, values, datum) = pending.pop().unwrap();
            match ledger.add_initial_output(i as u64, owner, values, datum) {
                Ok(_) => {
                    assert forall|j: int| 0 <= j < i + 1 implies opened_as(
                        #[trigger] ledger@.outputs[j],
                        j as u64,
                        all[j],
                    ) by {
                        if j < i {
                            assert(ledger@.outputs[j] == ledger@.outputs.drop_last()[j]);
                        }
                    }
                },
                Err(_) => {
                    proof {
                        let id = OutputIdView { tx_hash: tx_hash_of(0), index: i as u64 };
                        let j = choose|j: int|
                            0 <= j < before.len() && (#[trigger] before[j])@.id == id;
                        assert(opened_as(before[j], j as u64, all[j]));
                        assert(false);
                    }
                },
            }
            i += 1;
        }
        ledger.check();
        Backend::new(ledger)
    }
}

/// The openings in the opposite order.
fn reversed_openings<Datum>(outputs: Vec<Opening<Datum>>) -> (r: Vec<Opening<Datum>>)
    ensures
        r.len() == outputs.len(),
        forall|j: int| 0 <= j < r.len() ==> (#[trigger] r[j]) == outputs[outputs.len() - 1 - j],
{
    let ghost all = outputs@;
    let mut pending = outputs;
    let mut r: Vec<Opening<Datum>> = Vec::new();
    while pending.len() > 0
        invariant
            pending.len() + r.len() == all.len(),
            pending@ == all.take(pending.len() as int),
            forall|j: int| 0 <= j < r.len() ==> (#[trigger] r[j]) == all[all.len() - 1 - j],
        decreases pending.len(),
    {
        let ghost n = pending.len() as int;
        let last = pending.pop().unwrap();
        assert(pending@ =~= all.take(n - 1));
        r.push(last);
    }
    r
}

/// Collects one output that a ledger in memory holds at the start.
#[derive(Debug)]
pub struct OutputBuilder<Datum, Redeemer> {
    pub inner: TestBackendsBuilder<Datum, Redeemer>,
    pub owner: Address,
    pub values: Values,
    pub datum: Option<Datum>,
}

impl<Datum, Redeemer> OutputBuilder<Datum, Redeemer> {
    /// Adds `amount` of `policy` to the value of the output.
    pub fn with_value(self, policy: PolicyId, amount: u64) -> (r: Self)
        requires
            crate::values::amount(self.values@, policy@) + amount <= u64::MAX,
        ensures
            r.inner == self.inner,
            r.owner == self.owner,
            r.datum == self.datum,
            r.values@ == self.values@.insert(
                policy@,
                (crate::values::amount(self.values@, policy@) + amount) as u64,
            ),
            r.values.entries() == crate::values::entries_with(
                self.values.entries(),
                policy@,
                amount,
            ),
    {
        let mut this = self;
        this.values.add_one_value(&policy, amount);
        this
    }

    /// Gives the output a datum: it is a script output then.
    pub fn with_datum(self, datum: Datum) -> (r: Self)
        ensures
            r.inner == self.inner,
            r.owner == self.owner,
            r.values == self.values,
            r.datum == Some(datum),
    {
        let mut this = self;
        this.datum = Some(datum);
        this
    }

    /// Adds the output to those that the ledger holds at the start.
    pub fn finish_output(self) -> (r: TestBackendsBuilder<Datum, Redeemer>)
        ensures
            r.signer == self.inner.signer,
            r.outputs@ == self.inner.outputs@.push((self.owner, self.values, self.datum)),
    {
        let OutputBuilder { inner, owner, values, datum } = self;
        let mut inner = inner;
        inner.outputs.push((owner, values, datum));
        inner
    }
}


/// Whether `after` can come after `before` in the life of a ledger: the
/// number of the next transaction has not dropped, and every output of `after`
/// is one of `before` or has a name that no transaction before that number
/// gave.
pub open spec fn follows<Datum>(before: LedgerView<Datum>, after: LedgerView<Datum>) -> bool {
    &&& before.next_tx <= after.next_tx
    &&& forall|i: int|
        0 <= i < after.outputs.len() ==> before.outputs.contains(#[trigger] after.outputs[i])
            || !minted_before(after.outputs[i]@.id, before.next_tx)
}

/// A ledger after a committed submission follows the ledger before it.
pub proof fn lemma_committed_follows<Datum, Redeemer, Validator, Policy>(
    before: LedgerView<Datum>,
    tx: Parts<Datum, Redeemer, Validator, Policy>,
    draft: Draft,
    after: LedgerView<Datum>,
)
    requires
        before.well_formed(),
        before.next_tx < u64::MAX,
        committed(before, tx, draft, after),
    ensures
        follows(before, after),
{
    let kept = remaining(before.outputs, draft.inputs, 0);
    lemma_remaining_are_held(before.outputs, draft.inputs, 0);
    assert forall|i: int| 0 <= i < after.outputs.len() implies before.outputs.contains(
        #[trigger] after.outputs[i],
    ) || !minted_before(after.outputs[i]@.id, before.next_tx) by {
        if i < kept.len() {
            assert(after.outputs.take(kept.len() as int)[i] == after.outputs[i]);
            assert(kept.contains(kept[i]));
        } else {
            let k = i - kept.len();
            if k < tx.unbuilt_outputs.len() {
                assert(created_from(
                    after.outputs[kept.len() + k],
                    OutputIdView { tx_hash: tx_hash_of(before.next_tx), index: k as u64 },
                    tx.unbuilt_outputs[k],
                ));
            }
            assert(after.outputs[i]@.id.tx_hash == tx_hash_of(before.next_tx));
            if minted_before(after.outputs[i]@.id, before.next_tx) {
                let n = choose|n: u64|
                    n < before.next_tx && after.outputs[i]@.id.tx_hash == #[trigger] tx_hash_of(n);
                lemma_tx_hash_of(n, before.next_tx);
            }
        }
    }
}

/// The outputs that remain are among those that were there.
pub proof fn lemma_remaining_are_held<Datum>(
    outputs: Seq<Output<Datum>>,
    spent: Seq<usize>,
    offset: int,
)
    ensures
        forall|output: Output<Datum>| #[trigger]
            remaining(outputs, spent, offset).contains(output) ==> outputs.contains(output),
    decreases outputs.len(),
{
    if outputs.len() > 0 {
        let rest = outputs.drop_first();
        lemma_remaining_are_held(rest, spent, offset + 1);
        assert forall|output: Output<Datum>| #[trigger]
            remaining(outputs, spent, offset).contains(output) implies outputs.contains(
            output,
        ) by {
            let kept = remaining(outputs, spent, offset);
            let i = choose|i: int| 0 <= i < kept.len() && kept[i] == output;
            let later = remaining(rest, spent, offset + 1);
            if spent.contains(offset as usize) {
                assert(later.contains(output));
            } else if i == 0 {
                assert(outputs[0] == output);
            } else {
                assert(later[i - 1] == output);
                assert(later.contains(output));
            }
            if rest.contains(output) {
                let j = choose|j: int| 0 <= j < rest.len() && rest[j] == output;
                assert(outputs[j + 1] == output);
            }
        }
    }
}

/// Each of the outputs that remain stood at a place that was not spent.
pub proof fn lemma_remaining_were_not_spent<Datum>(
    outputs: Seq<Output<Datum>>,
    spent: Seq<usize>,
    offset: int,
)
    ensures
        forall|i: int|
            0 <= i < remaining(outputs, spent, offset).len() ==> exists|j: int|
                0 <= j < outputs.len() && !spent.contains((offset + j) as usize) && outputs[j]
                    == #[trigger] remaining(outputs, spent, offset)[i],
    decreases outputs.len(),
{
    if outputs.len() > 0 {
        let rest = outputs.drop_first();
        let kept = remaining(outputs, spent, offset);
        let later = remaining(rest, spent, offset + 1);
        lemma_remaining_were_not_spent(rest, spent, offset + 1);
        assert forall|i: int| 0 <= i < kept.len() implies exists|j: int|
            0 <= j < outputs.len() && !spent.contains((offset + j) as usize) && outputs[j]
                == #[trigger] kept[i] by {
            if !spent.contains(offset as usize) && i == 0 {
                assert(!spent.contains((offset + 0) as usize) && outputs[0] == kept[0]);
            } else {
                let at = if spent.contains(offset as usize) {
                    i
                } else {
                    i - 1
                };
                assert(later[at] == kept[i]);
                let j = choose|j: int|
                    0 <= j < rest.len() && !spent.contains((offset + 1 + j) as usize) && rest[j]
                        == later[at];
                assert(!spent.contains((offset + (j + 1)) as usize) && outputs[j + 1] == kept[i]);
            }
        }
    }
}

/// What a committed submission spends is gone: the ledger after it holds no
/// output of the name of an output that was spent.
pub proof fn lemma_spent_is_gone<Datum, Redeemer, Validator, Policy>(
    before: LedgerView<Datum>,
    tx: Parts<Datum, Redeemer, Validator, Policy>,
    draft: Draft,
    after: LedgerView<Datum>,
    place: usize,
)
    requires
        before.well_formed(),
        before.next_tx < u64::MAX,
        committed(before, tx, draft, after),
        draft.inputs.contains(place),
        place < before.outputs.len(),
    ensures
        !after.holds(before.outputs[place as int]@.id),
{
    let id = before.outputs[place as int]@.id;
    let kept = remaining(before.outputs, draft.inputs, 0);
    lemma_remaining_were_not_spent(before.outputs, draft.inputs, 0);
    assert forall|i: int| 0 <= i < after.outputs.len() implies (#[trigger] after.outputs[i])@.id
        != id by {
        if i < kept.len() {
            assert(after.outputs.take(kept.len() as int)[i] == after.outputs[i]);
            let j = choose|j: int|
                0 <= j < before.outputs.len() && !draft.inputs.contains((0 + j) as usize)
                    && before.outputs[j] == kept[i];
            assert(j != place);
            if j < place {
                assert(before.outputs[j]@.id != before.outputs[place as int]@.id);
            } else {
                assert(before.outputs[place as int]@.id != before.outputs[j]@.id);
            }
        } else {
            let k = i - kept.len();
            if k < tx.unbuilt_outputs.len() {
                assert(created_from(
                    after.outputs[kept.len() + k],
                    OutputIdView { tx_hash: tx_hash_of(before.next_tx), index: k as u64 },
                    tx.unbuilt_outputs[k],
                ));
            }
            assert(after.outputs[i]@.id.tx_hash == tx_hash_of(before.next_tx));
            assert(minted_before(before.outputs[place as int]@.id, before.next_tx));
            let n = choose|n: u64| n < before.next_tx && id.tx_hash == #[trigger] tx_hash_of(n);
            lemma_tx_hash_of(n, before.next_tx);
        }
    }
}

/// What the ledger accepts, the guards permitted. Every redemption of an
/// accepted submission spends the output that the ledger holds under the name
/// of the redeemed one, and that output is gone afterwards. Where a script
/// guards it, it carries a datum, and the validator of the redemption permits
/// the spending, shown that datum, the redeemer and the key of the signer.
pub proof fn lemma_accepted_redemption_was_permitted<
    Datum: ToPlutusData,
    Redeemer,
    Validator: ValidatorCode<Datum, Redeemer>,
    Policy: MintingPolicy<Redeemer>,
>(
    before: LedgerView<Datum>,
    tx: Parts<Datum, Redeemer, Validator, Policy>,
    after: LedgerView<Datum>,
    id: TxId,
    k: int,
)
    requires
        before.well_formed(),
        before.outputs.len() <= usize::MAX,
        submitted(before, tx, after, Ok(id)),
        0 <= k < tx.script_inputs.len(),
    ensures
        ({
            let at = position_of(before.outputs, tx.script_inputs[k].0@.id);
            &&& 0 <= at < before.outputs.len()
            &&& !after.holds(before.outputs[at]@.id)
            &&& before.outputs[at]@.owner.is_script() ==> {
                &&& before.outputs[at]@.datum is Some
                &&& before.signer.payment is Key
                &&& exists|ctx: TxContextView|
                    ctx.signer == before.signer.payment->Key_0 && ctx.purpose == Purpose::Spend(
                        OutputRef {
                            transaction_id: before.outputs[at]@.id.tx_hash,
                            output_index: before.outputs[at]@.id.index,
                        },
                    ) && #[trigger] tx.script_inputs[k].2.permits(
                        before.outputs[at]@.datum->0,
                        tx.script_inputs[k].1,
                        ctx,
                    )
            }
        }),
{
    let outputs = before.outputs;
    let signer = before.signer;
    let at = position_of(outputs, tx.script_inputs[k].0@.id);
    lemma_position_of(outputs, tx.script_inputs[k].0@.id);
    let draft = judged(before, tx)->Ok_0;
    assert(committed(before, tx, draft, after));
    assert(drafted(outputs, signer, tx) == Ok::<Draft, LedgerFault>(draft));
    let wallet = pin_wallet(outputs, signer, tx.specific_wallet_inputs, Seq::empty())->Ok_0;
    lemma_pin_wallet_keeps(outputs, signer, tx.specific_wallet_inputs, Seq::empty());
    let pins = pin_scripts(outputs, signer, tx.script_inputs, wallet)->Ok_0;
    lemma_pin_scripts_keeps(outputs, signer, tx.script_inputs, wallet);
    let held = gathered(outputs, pins, Seq::empty())->0;
    let have = with_minted(tx.minting, held)->0;
    let need = required(tx.unbuilt_outputs, Seq::empty())->0;
    lemma_selected_keeps(outputs, signer, pins, have, entries_map(need), 0);
    let place = pins[wallet.len() + k];
    assert(draft.inputs.take(pins.len() as int)[wallet.len() + k] == draft.inputs[wallet.len()
        + k]);
    assert(draft.inputs[tx.specific_wallet_inputs.len() + k] == place);
    assert(place == at);
    assert(draft.inputs.contains(place));
    lemma_spent_is_gone(before, tx, draft, after, place);
    let hash = signer.payment->Key_0;
    let base = shown(outputs, hash, signer, tx, draft)->Ok_0;
    assert(all_permitted(outputs, tx, draft.inputs, base));
    assert(spend_permitted(outputs[at], tx.script_inputs[k], base));
    if outputs[at]@.owner.is_script() {
        let ctx = base.with_purpose(
            Purpose::Spend(
                OutputRef {
                    transaction_id: outputs[at]@.id.tx_hash,
                    output_index: outputs[at]@.id.index,
                },
            ),
        );
        assert(ctx.signer == hash && tx.script_inputs[k].2.permits(
            outputs[at]@.datum->0,
            tx.script_inputs[k].1,
            ctx,
        ));
    }
}

/// What the ledger accepts, the policies permitted. The id of the policy of
/// every minting of an accepted submission is hexadecimal text, and the
/// policy permits the minting, shown the redeemer and the key of the signer.
pub proof fn lemma_accepted_minting_was_permitted<
    Datum: ToPlutusData,
    Redeemer,
    Validator: ValidatorCode<Datum, Redeemer>,
    Policy: MintingPolicy<Redeemer>,
>(
    before: LedgerView<Datum>,
    tx: Parts<Datum, Redeemer, Validator, Policy>,
    after: LedgerView<Datum>,
    id: TxId,
    j: int,
)
    requires
        submitted(before, tx, after, Ok(id)),
        0 <= j < tx.minting.len(),
    ensures
        before.signer.payment is Key,
        crate::hex::hex_decoding(tx.minting[j].3.policy_id()) matches Some(policy) && exists|
            ctx: TxContextView,
        |
            ctx.signer == before.signer.payment->Key_0 && ctx.purpose == Purpose::Mint(policy)
                && #[trigger] tx.minting[j].3.permits(tx.minting[j].2, ctx),
{
    let draft = judged(before, tx)->Ok_0;
    let hash = before.signer.payment->Key_0;
    let base = shown(before.outputs, hash, before.signer, tx, draft)->Ok_0;
    assert(all_permitted(before.outputs, tx, draft.inputs, base));
    assert(mint_permitted(tx.minting[j], base));
    let policy = crate::hex::hex_decoding(tx.minting[j].3.policy_id())->0;
    let ctx = base.with_purpose(Purpose::Mint(policy));
    assert(ctx.signer == hash && ctx.purpose == Purpose::Mint(policy) && tx.minting[j].3.permits(
        tx.minting[j].2,
        ctx,
    ));
}

/// What an accepted submission declares is there afterwards: for each output
/// that it declares the ledger holds one with its owner, its values and its
/// datum, named by the hash of the transaction and the place of the output
/// among those declared.
pub proof fn lemma_accepted_outputs_are_created<
    Datum: ToPlutusData,
    Redeemer,
    Validator: ValidatorCode<Datum, Redeemer>,
    Policy: MintingPolicy<Redeemer>,
>(
    before: LedgerView<Datum>,
    tx: Parts<Datum, Redeemer, Validator, Policy>,
    after: LedgerView<Datum>,
    id: TxId,
    k: int,
)
    requires
        submitted(before, tx, after, Ok(id)),
        0 <= k < tx.unbuilt_outputs.len(),
    ensures
        exists|i: int|
            0 <= i < after.outputs.len() && created_from(
                #[trigger] after.outputs[i],
                OutputIdView { tx_hash: tx_hash_of(before.next_tx), index: k as u64 },
                tx.unbuilt_outputs[k],
            ),
{
    let draft = judged(before, tx)->Ok_0;
    assert(committed(before, tx, draft, after));
    let kept = remaining(before.outputs, draft.inputs, 0);
    assert(created_from(
        after.outputs[kept.len() + k],
        OutputIdView { tx_hash: tx_hash_of(before.next_tx), index: k as u64 },
        tx.unbuilt_outputs[k],
    ));
}

/// What the outputs that remain hold and what the spent ones hold is what
/// all of them hold.
pub proof fn lemma_remaining_total<Datum>(
    outputs: Seq<Output<Datum>>,
    spent: Seq<usize>,
    offset: int,
    asset: AssetId,
)
    ensures
        total(remaining(outputs, spent, offset), asset) + spent_in(outputs, spent, offset, asset)
            == total(outputs, asset),
    decreases outputs.len(),
{
    if outputs.len() > 0 {
        let rest = outputs.drop_first();
        lemma_remaining_total(rest, spent, offset + 1, asset);
        lemma_total_first(outputs, asset);
        if !spent.contains(offset as usize) {
            let kept = remaining(outputs, spent, offset);
            assert(kept.drop_first() =~= remaining(rest, spent, offset + 1));
            lemma_total_first(kept, asset);
        }
    }
}

/// Outputs that hold what the declared ones hold, one for one, hold together
/// what those hold together.
pub proof fn lemma_total_of_created<Datum>(
    created: Seq<Output<Datum>>,
    declared: Seq<UnbuiltOutput<Datum>>,
    asset: AssetId,
)
    requires
        created.len() == declared.len(),
        forall|k: int|
            0 <= k < created.len() ==> (#[trigger] created[k])@.values == declared[k]@.values,
    ensures
        total(created, asset) == needed(declared, asset),
    decreases created.len(),
{
    if created.len() > 0 {
        let n = created.len() - 1;
        assert(created[n]@.values == declared[n]@.values);
        assert forall|k: int| 0 <= k < created.drop_last().len() implies (
        #[trigger] created.drop_last()[k])@.values == declared.drop_last()[k]@.values by {
            assert(created[k]@.values == declared[k]@.values);
        }
        lemma_total_of_created(created.drop_last(), declared.drop_last(), asset);
    }
}

/// Value is conserved. After an accepted submission the outputs of the
/// ledger hold of every asset what they held before and what was minted:
/// what is spent is gone in full, and what the inputs and the mintings have
/// beyond the declared outputs goes back to the signer as change.
pub proof fn lemma_value_is_conserved<
    Datum: ToPlutusData,
    Redeemer,
    Validator: ValidatorCode<Datum, Redeemer>,
    Policy: MintingPolicy<Redeemer>,
>(
    before: LedgerView<Datum>,
    tx: Parts<Datum, Redeemer, Validator, Policy>,
    after: LedgerView<Datum>,
    id: TxId,
    asset: AssetId,
)
    requires
        before.well_formed(),
        before.outputs.len() <= usize::MAX,
        distinct_unbuilt(tx.unbuilt_outputs),
        submitted(before, tx, after, Ok(id)),
    ensures
        total(after.outputs, asset) == total(before.outputs, asset) + minted_of(tx.minting, asset),
{
    let draft = judged(before, tx)->Ok_0;
    assert(committed(before, tx, draft, after));
    assert(drafted(before.outputs, before.signer, tx) == Ok::<Draft, LedgerFault>(draft));
    lemma_drafted_is_even(before.outputs, before.signer, tx, asset);
    lemma_spent_in(before.outputs, draft.inputs, asset);
    lemma_remaining_total(before.outputs, draft.inputs, 0, asset);
    let kept = remaining(before.outputs, draft.inputs, 0);
    let declared = tx.unbuilt_outputs;
    let from = kept.len() as int;
    let to = from + declared.len();
    let created = after.outputs.subrange(from, to);
    let last = after.outputs.skip(to);
    assert(after.outputs =~= (kept + created) + last) by {
        assert(after.outputs.take(from) == kept);
        assert forall|i: int| 0 <= i < from implies after.outputs[i] == kept[i] by {
            assert(after.outputs.take(from)[i] == after.outputs[i]);
        }
    }
    lemma_total_of_both(kept + created, last, asset);
    lemma_total_of_both(kept, created, asset);
    assert forall|k: int| 0 <= k < created.len() implies (#[trigger] created[k])@.values
        == declared[k]@.values by {
        assert(created_from(
            after.outputs[kept.len() + k],
            OutputIdView { tx_hash: tx_hash_of(before.next_tx), index: k as u64 },
            declared[k],
        ));
    }
    lemma_total_of_created(created, declared, asset);
    if draft.change.len() > 0 {
        assert(last.len() == 1);
        assert(last.drop_last() =~= Seq::<Output<Datum>>::empty());
        assert(total(last.drop_last(), asset) == 0);
        assert(last.last() == after.outputs[to]);
        assert(change_for(
            after.outputs[(kept.len() + declared.len()) as int],
            OutputIdView { tx_hash: tx_hash_of(before.next_tx), index: declared.len() as u64 },
            before.signer,
            draft.change,
        ));
        assert(total(last, asset) == amount(entries_map(draft.change), asset));
    } else {
        assert(last.len() == 0);
        assert(entries_map(draft.change) =~= Map::<AssetId, u64>::empty());
    }
}

/// Names are never reused. Take the states of a ledger one after the other,
/// each well formed and following the one before it, as the states before and
/// after submissions are. An output that the ledger holds in one state and no
/// longer in the next was spent; no state after that holds an output of its
/// name.
pub proof fn lemma_spent_names_are_never_reused<Datum>(
    history: Seq<LedgerView<Datum>>,
    id: OutputIdView,
    at: int,
)
    requires
        forall|i: int| 0 <= i < history.len() ==> (#[trigger] history[i]).well_formed(),
        forall|i: int| 0 <= i < history.len() - 1 ==> follows(#[trigger] history[i], history[i + 1]),
        0 <= at < history.len() - 1,
        history[at].holds(id),
        !history[at + 1].holds(id),
    ensures
        forall|j: int| at < j < history.len() ==> !(#[trigger] history[j]).holds(id),
{
    let held = choose|i: int|
        0 <= i < history[at].outputs.len() && (#[trigger] history[at].outputs[i])@.id == id;
    assert(minted_before(history[at].outputs[held]@.id, history[at].next_tx));
    let minted = choose|n: u64| n < history[at].next_tx && id.tx_hash == #[trigger] tx_hash_of(n);
    assert forall|j: int| at < j < history.len() implies !(#[trigger] history[j]).holds(id) by {
        lemma_gone_for_good(history, id, at, minted, j);
    }
}

/// The induction behind [`lemma_spent_names_are_never_reused`].
proof fn lemma_gone_for_good<Datum>(
    history: Seq<LedgerView<Datum>>,
    id: OutputIdView,
    at: int,
    minted: u64,
    j: int,
)
    requires
        forall|i: int| 0 <= i < history.len() - 1 ==> follows(#[trigger] history[i], history[i + 1]),
        0 <= at < j < history.len(),
        minted < history[at].next_tx,
        id.tx_hash == tx_hash_of(minted),
        !history[at + 1].holds(id),
    ensures
        !history[j].holds(id),
        history[at].next_tx <= history[j].next_tx,
    decreases j - at,
{
    if j == at + 1 {
        assert(follows(history[at], history[at + 1]));
    } else {
        lemma_gone_for_good(history, id, at, minted, j - 1);
        assert(follows(history[j - 1], history[j]));
        if history[j].holds(id) {
            let i = choose|i: int|
                0 <= i < history[j].outputs.len() && (#[trigger] history[j].outputs[i])@.id == id;
            if history[j - 1].outputs.contains(history[j].outputs[i]) {
                let earlier = history[j - 1].outputs;
                let k = choose|k: int|
                    0 <= k < earlier.len() && (#[trigger] earlier[k]) == history[j].outputs[i];
                assert(history[j - 1].outputs[k]@.id == id);
                assert(history[j - 1].holds(id));
            } else {
                assert(minted < history[j - 1].next_tx && id.tx_hash == tx_hash_of(minted));
                assert(minted_before(id, history[j - 1].next_tx));
            }
        }
    }
}

/// A submission that is refused is not seen: it leaves the signer, the
/// outputs at every address and the balance of every asset there as they
/// were, and the next transaction gets the number that the refused one would
/// have had.
pub proof fn lemma_refused_submission_is_not_seen<
    Datum: ToPlutusData,
    Redeemer,
    Validator: ValidatorCode<Datum, Redeemer>,
    Policy: MintingPolicy<Redeemer>,
>(
    before: LedgerView<Datum>,
    tx: Parts<Datum, Redeemer, Validator, Policy>,
    after: LedgerView<Datum>,
    r: LedgerClientResult<TxId>,
    address: AddressView,
    asset: AssetId,
)
    requires
        submitted(before, tx, after, r),
        r is Err,
    ensures
        after.signer == before.signer,
        after.next_tx == before.next_tx,
        held_at(after.outputs, address) == held_at(before.outputs, address),
        balance_at(after.outputs, address, asset) == balance_at(before.outputs, address, asset),
{
}

/// An endpoint of a contract on the ledger in memory that ends in an error,
/// whether the logic, the ledger or a script refused, leaves the ledger as it
/// was.
pub proof fn lemma_refused_endpoint_is_not_seen<Logic: SCLogic>(
    endpoint: Logic::Endpoints,
    before: TestLedgerClient<Logic::Datums, Logic::Redeemers>,
    after: TestLedgerClient<Logic::Datums, Logic::Redeemers>,
    r: crate::error::Result<TxId>,
    address: AddressView,
) where Logic::Datums: Clone + ToPlutusData
    requires
        hit::<Logic, TestLedgerClient<Logic::Datums, Logic::Redeemers>>(endpoint, before, after, r),
        r is Err,
    ensures
        after@ == before@,
        held_at(after@.outputs, address) == held_at(before@.outputs, address),
{
}

} // verus!
