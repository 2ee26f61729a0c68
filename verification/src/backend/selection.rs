//! Balancing: which outputs a transaction spends, and what is left over.
//!
//! The inputs that a transaction names are pinned first: the outputs of the
//! signer's wallet that it asks for, then the script outputs that it redeems.
//! Their values and what is minted are what the transaction has; the values of
//! the outputs that it creates are what it needs. While it has less than it
//! needs of some asset, the wallet of the signer is walked in the order in
//! which the ledger holds its outputs, and each output is added that holds
//! something of an asset that is still missing. What the transaction has
//! beyond what it needs goes back to the signer as change.
use crate::address::{Address, AddressView, AssetId, PolicyId};
use crate::bytes::{clone_opt_string, opt_text};
use crate::ledger_client::{LedgerClientError, LedgerFault};
use crate::output::{Output, OutputId, OutputIdView, UnbuiltOutput};
use crate::scripts::MintingPolicy;
use crate::transaction::{MintDetails, Parts, RedemptionDetails, UnbuiltTransaction};
use crate::values::{
    amount, covers, entries_map, entries_with, entries_with_all, fits, has_key, lemma_entries_map,
    residue, Values,
};
use vstd::prelude::*;

verus! {

/// The place of the first output named `id`, or the length where there is
/// none.
pub open spec fn position_of<Datum>(outputs: Seq<Output<Datum>>, id: OutputIdView) -> int
    decreases outputs.len(),
{
    if outputs.len() == 0 {
        0
    } else if outputs[0]@.id == id {
        0
    } else {
        1 + position_of(outputs.drop_first(), id)
    }
}

/// The first place with the given name is within the sequence or just behind
/// it, and no earlier output has the name.
pub proof fn lemma_position_of<Datum>(outputs: Seq<Output<Datum>>, id: OutputIdView)
    ensures
        0 <= position_of(outputs, id) <= outputs.len(),
        position_of(outputs, id) < outputs.len() ==> outputs[position_of(outputs, id)]@.id == id,
        forall|i: int| 0 <= i < position_of(outputs, id) ==> (#[trigger] outputs[i])@.id != id,
    decreases outputs.len(),
{
    if outputs.len() > 0 && outputs[0]@.id != id {
        let rest = outputs.drop_first();
        lemma_position_of(rest, id);
        assert forall|i: int| 0 <= i < position_of(outputs, id) implies (#[trigger] outputs[i])@.id
            != id by {
            if i > 0 {
                assert(rest[i - 1] == outputs[i]);
            }
        }
    }
}

/// A place that holds the name, with none before it, is the first.
pub proof fn lemma_position_is<Datum>(outputs: Seq<Output<Datum>>, id: OutputIdView, at: int)
    requires
        0 <= at <= outputs.len(),
        at < outputs.len() ==> outputs[at]@.id == id,
        forall|i: int| 0 <= i < at ==> (#[trigger] outputs[i])@.id != id,
    ensures
        position_of(outputs, id) == at,
{
    lemma_position_of(outputs, id);
    let found = position_of(outputs, id);
    if found < at {
        assert(outputs[found]@.id != id);
    }
    if at < found {
        assert(outputs[at]@.id != id);
    }
}

/// The place of the output named `id`, or the number of outputs where there
/// is none of that name.
pub fn find_output<Datum>(outputs: &Vec<Output<Datum>>, id: &OutputId) -> (r: usize)
    ensures
        r == position_of(outputs@, id@),
        r <= outputs.len(),
{
    let mut i: usize = 0;
    while i < outputs.len()
        invariant
            i <= outputs.len(),
            forall|j: int| 0 <= j < i ==> (#[trigger] outputs@[j])@.id != id@,
        decreases outputs.len() - i,
    {
        if *outputs[i].id() == *id {
            proof {
                lemma_position_is(outputs@, id@, i as int);
            }
            return i;
        }
        i += 1;
    }
    proof {
        lemma_position_is(outputs@, id@, i as int);
    }
    i
}

/// Whether `at` is among `taken`.
pub fn is_taken(taken: &Vec<usize>, at: usize) -> (r: bool)
    ensures
        r == taken@.contains(at),
{
    let mut i: usize = 0;
    while i < taken.len()
        invariant
            i <= taken.len(),
            forall|j: int| 0 <= j < i ==> taken@[j] != at,
        decreases taken.len() - i,
    {
        if taken[i] == at {
            return true;
        }
        i += 1;
    }
    false
}

/// The place of the output named `id` where the signer may spend it from the
/// wallet: the ledger holds it at the signer's address, and it is not taken
/// yet.
pub open spec fn spendable_wallet<Datum>(
    outputs: Seq<Output<Datum>>,
    signer: AddressView,
    taken: Seq<usize>,
    id: OutputIdView,
) -> Option<usize> {
    let at = position_of(outputs, id);
    if at < outputs.len() && !taken.contains(at as usize) && outputs[at]@.owner == signer {
        Some(at as usize)
    } else {
        None
    }
}

/// The place of the output named `id` where a transaction may redeem it: the
/// ledger holds it, it is not taken yet, and either a script guards it and it
/// has a datum to show to the script, or it is held at the signer's address.
pub open spec fn spendable_script<Datum>(
    outputs: Seq<Output<Datum>>,
    signer: AddressView,
    taken: Seq<usize>,
    id: OutputIdView,
) -> Option<usize> {
    let at = position_of(outputs, id);
    if at < outputs.len() && !taken.contains(at as usize) && (if outputs[at]@.owner.is_script() {
        outputs[at]@.datum is Some
    } else {
        outputs[at]@.owner == signer
    }) {
        Some(at as usize)
    } else {
        None
    }
}

/// The places of the wallet outputs that are asked for, added to `taken` one
/// after the other.
pub open spec fn pin_wallet<Datum>(
    outputs: Seq<Output<Datum>>,
    signer: AddressView,
    inputs: Seq<Output<Datum>>,
    taken: Seq<usize>,
) -> Result<Seq<usize>, LedgerFault>
    decreases inputs.len(),
{
    if inputs.len() == 0 {
        Ok(taken)
    } else {
        match spendable_wallet(outputs, signer, taken, inputs[0]@.id) {
            None => Err(LedgerFault::OutputNotFound(inputs[0]@.id)),
            Some(at) => pin_wallet(outputs, signer, inputs.drop_first(), taken.push(at)),
        }
    }
}

/// The places of the script outputs that are redeemed, added to `taken` one
/// after the other.
pub open spec fn pin_scripts<Datum, Redeemer, Validator>(
    outputs: Seq<Output<Datum>>,
    signer: AddressView,
    inputs: Seq<RedemptionDetails<Datum, Redeemer, Validator>>,
    taken: Seq<usize>,
) -> Result<Seq<usize>, LedgerFault>
    decreases inputs.len(),
{
    if inputs.len() == 0 {
        Ok(taken)
    } else {
        match spendable_script(outputs, signer, taken, inputs[0].0@.id) {
            None => Err(LedgerFault::OutputNotFound(inputs[0].0@.id)),
            Some(at) => pin_scripts(outputs, signer, inputs.drop_first(), taken.push(at)),
        }
    }
}

/// The places of the inputs that a transaction names: those of the wallet
/// outputs that it asks for, then those of the script outputs that it redeems.
pub open spec fn pinned<Datum, Redeemer, Validator, Policy>(
    outputs: Seq<Output<Datum>>,
    signer: AddressView,
    tx: Parts<Datum, Redeemer, Validator, Policy>,
) -> Result<Seq<usize>, LedgerFault> {
    match pin_wallet(outputs, signer, tx.specific_wallet_inputs, Seq::empty()) {
        Err(e) => Err(e),
        Ok(taken) => pin_scripts(outputs, signer, tx.script_inputs, taken),
    }
}

/// Whether every place is one of `outputs`.
pub open spec fn within<Datum>(places: Seq<usize>, outputs: Seq<Output<Datum>>) -> bool {
    forall|i: int| 0 <= i < places.len() ==> (#[trigger] places[i]) < outputs.len()
}

/// Pins the inputs that a transaction names.
pub fn pin_inputs<Datum, Redeemer, Validator, Policy>(
    outputs: &Vec<Output<Datum>>,
    signer: &Address,
    tx: &UnbuiltTransaction<Datum, Redeemer, Validator, Policy>,
) -> (r: Result<Vec<usize>, LedgerClientError>)
    ensures
        match r {
            Ok(taken) => pinned(outputs@, signer@, tx@) == Ok::<Seq<usize>, LedgerFault>(taken@)
                && within(taken@, outputs@) && taken.len() == tx.specific_wallet_inputs.len()
                + tx.script_inputs.len(),
            Err(e) => pinned(outputs@, signer@, tx@) == Err::<Seq<usize>, LedgerFault>(e@),
        },
{
    let mut taken: Vec<usize> = Vec::new();
    let mut i: usize = 0;
    let ghost wallet = tx.specific_wallet_inputs@;
    assert(wallet.skip(0) =~= wallet);
    while i < tx.specific_wallet_inputs.len()
        invariant
            i <= tx.specific_wallet_inputs.len(),
            wallet == tx.specific_wallet_inputs@,
            within(taken@, outputs@),
            taken.len() == i,
            pin_wallet(outputs@, signer@, wallet, Seq::empty()) == pin_wallet(
                outputs@,
                signer@,
                wallet.skip(i as int),
                taken@,
            ),
        decreases tx.specific_wallet_inputs.len() - i,
    {
        proof {
            assert(wallet.skip(i as int)[0] == wallet[i as int]);
            assert(wallet.skip(i as int).drop_first() =~= wallet.skip(i + 1));
        }
        let id = tx.specific_wallet_inputs[i].id();
        let at = find_output(outputs, id);
        if at >= outputs.len() || is_taken(&taken, at) || !(*outputs[at].owner() == *signer) {
            return Err(LedgerClientError::OutputNotFound(id.clone()));
        }
        taken.push(at);
        i += 1;
    }
    assert(wallet.skip(i as int) =~= Seq::<Output<Datum>>::empty());
    let mut k: usize = 0;
    let ghost scripts = tx.script_inputs@;
    assert(scripts.skip(0) =~= scripts);
    while k < tx.script_inputs.len()
        invariant
            k <= tx.script_inputs.len(),
            scripts == tx.script_inputs@,
            within(taken@, outputs@),
            taken.len() == tx.specific_wallet_inputs.len() + k,
            pinned(outputs@, signer@, tx@) == pin_scripts(
                outputs@,
                signer@,
                scripts.skip(k as int),
                taken@,
            ),
        decreases tx.script_inputs.len() - k,
    {
        proof {
            assert(scripts.skip(k as int)[0] == scripts[k as int]);
            assert(scripts.skip(k as int).drop_first() =~= scripts.skip(k + 1));
        }
        let id = tx.script_inputs[k].0.id();
        let at = find_output(outputs, id);
        if at >= outputs.len() || is_taken(&taken, at) {
            return Err(LedgerClientError::OutputNotFound(id.clone()));
        }
        let spendable = if outputs[at].owner().is_script() {
            outputs[at].datum().is_some()
        } else {
            *outputs[at].owner() == *signer
        };
        if !spendable {
            return Err(LedgerClientError::OutputNotFound(id.clone()));
        }
        taken.push(at);
        k += 1;
    }
    assert(scripts.skip(k as int) =~= Seq::<RedemptionDetails<Datum, Redeemer, Validator>>::empty());
    Ok(taken)
}


/// The entries of a value.
pub type Entries = Seq<(AssetId, u64)>;

/// `have` with the values of the outputs at `places`, added one after the
/// other; `None` where a sum is no quantity.
pub open spec fn gathered<Datum>(outputs: Seq<Output<Datum>>, places: Seq<usize>, have: Entries)
    -> Option<Entries>
    decreases places.len(),
{
    if places.len() == 0 {
        Some(have)
    } else {
        let values = outputs[places[0] as int].held();
        if fits(entries_map(have), values@) {
            gathered(outputs, places.drop_first(), entries_with_all(have, values.entries()))
        } else {
            None
        }
    }
}

/// The asset that a minting creates.
pub open spec fn minted_asset<Redeemer, Policy: MintingPolicy<Redeemer>>(
    mint: MintDetails<Redeemer, Policy>,
) -> AssetId {
    AssetId::NativeToken(mint.3.policy_id(), opt_text(mint.1))
}

/// `have` with what is minted, added one after the other; `None` where a sum
/// is no quantity.
pub open spec fn with_minted<Redeemer, Policy: MintingPolicy<Redeemer>>(
    minting: Seq<MintDetails<Redeemer, Policy>>,
    have: Entries,
) -> Option<Entries>
    decreases minting.len(),
{
    if minting.len() == 0 {
        Some(have)
    } else if amount(entries_map(have), minted_asset(minting[0])) + minting[0].0 <= u64::MAX {
        with_minted(
            minting.drop_first(),
            entries_with(have, minted_asset(minting[0]), minting[0].0),
        )
    } else {
        None
    }
}

/// `need` with the values of the outputs to create, added one after the
/// other; `None` where a sum is no quantity.
pub open spec fn required<Datum>(outputs: Seq<UnbuiltOutput<Datum>>, need: Entries) -> Option<
    Entries,
>
    decreases outputs.len(),
{
    if outputs.len() == 0 {
        Some(need)
    } else {
        let values = outputs[0].held();
        if fits(entries_map(need), values@) {
            required(outputs.drop_first(), entries_with_all(need, values.entries()))
        } else {
            None
        }
    }
}

/// Whether `values` hold something of an asset of which `have` is less than
/// `need`.
pub open spec fn helps(
    values: Map<AssetId, u64>,
    have: Map<AssetId, u64>,
    need: Map<AssetId, u64>,
) -> bool {
    exists|asset: AssetId|
        amount(need, asset) > amount(have, asset) && #[trigger] amount(values, asset) > 0
}

/// Whether `values` hold something of an asset of which `have` is less than
/// `need`.
pub fn is_helpful(values: &Values, have: &Values, need: &Values) -> (r: bool)
    ensures
        r == helps(values@, have@, need@),
{
    let n = need.len();
    let mut i: usize = 0;
    while i < n
        invariant
            i <= n,
            n == need.entries().len(),
            forall|j: int|
                0 <= j < i ==> !(amount(need@, (#[trigger] need.entries()[j]).0) > amount(
                    have@,
                    need.entries()[j].0,
                ) && amount(values@, need.entries()[j].0) > 0),
        decreases n - i,
    {
        let (policy, quantity) = need.entry(i);
        need.check();
        proof {
            lemma_entries_map(need.entries());
            assert(need@.contains_key(need.entries()[i as int].0));
        }
        if quantity > have.amount_of(policy) && values.amount_of(policy) > 0 {
            assert(amount(values@, policy@) > 0);
            return true;
        }
        i += 1;
    }
    need.check();
    proof {
        lemma_entries_map(need.entries());
        assert forall|asset: AssetId|
            !(amount(need@, asset) > amount(have@, asset) && #[trigger] amount(values@, asset)
                > 0) by {
            if amount(need@, asset) > amount(have@, asset) {
                assert(need@.contains_key(asset));
                assert(has_key(need.entries(), asset));
                let j = choose|j: int|
                    0 <= j < need.entries().len() && (#[trigger] need.entries()[j]).0 == asset;
                assert(need.entries()[j].0 == asset);
            }
        }
    }
    false
}

/// The inputs and what the transaction has once outputs of the signer's wallet
/// are added, from place `from` on and in the order of the ledger: each output
/// that is not taken yet and holds something of an asset that is still
/// missing, while the transaction has less than it needs of some asset. This
/// fails where the wallet has no more outputs to add.
pub open spec fn selected<Datum>(
    outputs: Seq<Output<Datum>>,
    signer: AddressView,
    taken: Seq<usize>,
    have: Entries,
    need: Map<AssetId, u64>,
    from: int,
) -> Result<(Seq<usize>, Entries), LedgerFault>
    decreases outputs.len() - from,
{
    if covers(entries_map(have), need) {
        Ok((taken, have))
    } else if from < 0 || from >= outputs.len() {
        Err(LedgerFault::Balancing)
    } else if outputs[from]@.owner == signer && !taken.contains(from as usize) && helps(
        outputs[from]@.values,
        entries_map(have),
        need,
    ) {
        let values = outputs[from].held();
        if fits(entries_map(have), values@) {
            selected(
                outputs,
                signer,
                taken.push(from as usize),
                entries_with_all(have, values.entries()),
                need,
                from + 1,
            )
        } else {
            Err(LedgerFault::Arithmetic)
        }
    } else {
        selected(outputs, signer, taken, have, need, from + 1)
    }
}

/// What balancing settles: the places of the outputs that the transaction
/// spends, the pinned ones first, and the change.
pub struct Draft {
    pub inputs: Seq<usize>,
    pub change: Entries,
}

/// What balancing a transaction against the outputs of a ledger gives.
pub open spec fn drafted<Datum, Redeemer, Validator, Policy: MintingPolicy<Redeemer>>(
    outputs: Seq<Output<Datum>>,
    signer: AddressView,
    tx: Parts<Datum, Redeemer, Validator, Policy>,
) -> Result<Draft, LedgerFault> {
    match pinned(outputs, signer, tx) {
        Err(e) => Err(e),
        Ok(pins) => match gathered(outputs, pins, Seq::empty()) {
            None => Err(LedgerFault::Arithmetic),
            Some(held) => match with_minted(tx.minting, held) {
                None => Err(LedgerFault::Arithmetic),
                Some(have) => match required(tx.unbuilt_outputs, Seq::empty()) {
                    None => Err(LedgerFault::Arithmetic),
                    Some(need) => match selected(
                        outputs,
                        signer,
                        pins,
                        have,
                        entries_map(need),
                        0,
                    ) {
                        Err(e) => Err(e),
                        Ok((inputs, all)) => Ok(
                            Draft { inputs, change: residue(all, entries_map(need)) },
                        ),
                    },
                },
            },
        },
    }
}

/// Adds the values of the outputs at `places` to `have`.
pub fn gather<Datum>(outputs: &Vec<Output<Datum>>, places: &Vec<usize>, have: &mut Values) -> (r:
    Result<(), LedgerClientError>)
    requires
        within(places@, outputs@),
    ensures
        match r {
            Ok(_) => gathered(outputs@, places@, old(have).entries()) == Some(
                final(have).entries(),
            ),
            Err(e) => e@ == LedgerFault::Arithmetic && gathered(
                outputs@,
                places@,
                old(have).entries(),
            ) is None,
        },
{
    let mut i: usize = 0;
    assert(places@.skip(0) =~= places@);
    while i < places.len()
        invariant
            i <= places.len(),
            within(places@, outputs@),
            gathered(outputs@, places@, old(have).entries()) == gathered(
                outputs@,
                places@.skip(i as int),
                have.entries(),
            ),
        decreases places.len() - i,
    {
        proof {
            assert(places@.skip(i as int)[0] == places@[i as int]);
            assert(places@.skip(i as int).drop_first() =~= places@.skip(i + 1));
        }
        have.check();
        match have.try_add_values(outputs[places[i]].values()) {
            Ok(_) => {},
            Err(_) => {
                return Err(LedgerClientError::Arithmetic);
            },
        }
        i += 1;
    }
    assert(places@.skip(i as int) =~= Seq::<usize>::empty());
    Ok(())
}

/// Adds what a transaction mints to `have`.
pub fn add_minted<Redeemer, Policy: MintingPolicy<Redeemer>>(
    minting: &Vec<MintDetails<Redeemer, Policy>>,
    have: &mut Values,
) -> (r: Result<(), LedgerClientError>)
    ensures
        match r {
            Ok(_) => with_minted(minting@, old(have).entries()) == Some(final(have).entries()),
            Err(e) => e@ == LedgerFault::Arithmetic && with_minted(
                minting@,
                old(have).entries(),
            ) is None,
        },
{
    let mut i: usize = 0;
    assert(minting@.skip(0) =~= minting@);
    while i < minting.len()
        invariant
            i <= minting.len(),
            with_minted(minting@, old(have).entries()) == with_minted(
                minting@.skip(i as int),
                have.entries(),
            ),
        decreases minting.len() - i,
    {
        proof {
            assert(minting@.skip(i as int)[0] == minting@[i as int]);
            assert(minting@.skip(i as int).drop_first() =~= minting@.skip(i + 1));
        }
        have.check();
        let asset = PolicyId::NativeToken(minting[i].3.id(), clone_opt_string(&minting[i].1));
        match have.try_add_one_value(&asset, minting[i].0) {
            Ok(_) => {},
            Err(_) => {
                return Err(LedgerClientError::Arithmetic);
            },
        }
        i += 1;
    }
    assert(minting@.skip(i as int) =~= Seq::<MintDetails<Redeemer, Policy>>::empty());
    Ok(())
}

/// The values of the outputs that a transaction creates, together.
pub fn require<Datum>(outputs: &Vec<UnbuiltOutput<Datum>>) -> (r: Result<Values, LedgerClientError>)
    ensures
        match r {
            Ok(need) => required(outputs@, Seq::empty()) == Some(need.entries()),
            Err(e) => e@ == LedgerFault::Arithmetic && required(outputs@, Seq::empty()) is None,
        },
{
    let mut need = Values::new();
    let mut i: usize = 0;
    assert(outputs@.skip(0) =~= outputs@);
    while i < outputs.len()
        invariant
            i <= outputs.len(),
            required(outputs@, Seq::empty()) == required(outputs@.skip(i as int), need.entries()),
        decreases outputs.len() - i,
    {
        proof {
            assert(outputs@.skip(i as int)[0] == outputs@[i as int]);
            assert(outputs@.skip(i as int).drop_first() =~= outputs@.skip(i + 1));
        }
        need.check();
        match need.try_add_values(outputs[i].values()) {
            Ok(_) => {},
            Err(_) => {
                return Err(LedgerClientError::Arithmetic);
            },
        }
        i += 1;
    }
    assert(outputs@.skip(i as int) =~= Seq::<UnbuiltOutput<Datum>>::empty());
    Ok(need)
}

/// Adds outputs of the signer's wallet to the inputs while the transaction
/// has less than it needs.
pub fn select<Datum>(
    outputs: &Vec<Output<Datum>>,
    signer: &Address,
    taken: &mut Vec<usize>,
    have: &mut Values,
    need: &Values,
) -> (r: Result<(), LedgerClientError>)
    requires
        within(old(taken)@, outputs@),
    ensures
        match r {
            Ok(_) => selected(
                outputs@,
                signer@,
                old(taken)@,
                old(have).entries(),
                need@,
                0,
            ) == Ok::<(Seq<usize>, Entries), LedgerFault>((final(taken)@, final(have).entries()))
                && within(final(taken)@, outputs@) && covers(final(have)@, need@),
            Err(e) => selected(outputs@, signer@, old(taken)@, old(have).entries(), need@, 0)
                == Err::<(Seq<usize>, Entries), LedgerFault>(e@),
        },
{
    let mut from: usize = 0;
    loop
        invariant
            from <= outputs.len(),
            within(taken@, outputs@),
            selected(outputs@, signer@, old(taken)@, old(have).entries(), need@, 0) == selected(
                outputs@,
                signer@,
                taken@,
                have.entries(),
                need@,
                from as int,
            ),
        decreases outputs.len() - from,
    {
        have.check();
        if have.covers(need) {
            return Ok(());
        }
        if from >= outputs.len() {
            return Err(LedgerClientError::Balancing);
        }
        if *outputs[from].owner() == *signer && !is_taken(taken, from) && is_helpful(
            outputs[from].values(),
            have,
            need,
        ) {
            match have.try_add_values(outputs[from].values()) {
                Ok(_) => {},
                Err(_) => {
                    return Err(LedgerClientError::Arithmetic);
                },
            }
            taken.push(from);
        }
        from += 1;
    }
}

/// Balances a transaction against the outputs that a ledger holds: settles
/// which of them it spends, and what is left for the signer. The change, where
/// there is any, has no entry of quantity zero.
pub fn draft<Datum, Redeemer, Validator, Policy: MintingPolicy<Redeemer>>(
    outputs: &Vec<Output<Datum>>,
    signer: &Address,
    tx: &UnbuiltTransaction<Datum, Redeemer, Validator, Policy>,
) -> (r: Result<(Vec<usize>, Option<Values>), LedgerClientError>)
    ensures
        match r {
            Ok((inputs, change)) => {
                &&& drafted(outputs@, signer@, tx@) == Ok::<Draft, LedgerFault>(
                    Draft {
                        inputs: inputs@,
                        change: match change {
                            Some(left) => left.entries(),
                            None => Seq::empty(),
                        },
                    },
                )
                &&& within(inputs@, outputs@)
                &&& inputs.len() >= tx.specific_wallet_inputs.len() + tx.script_inputs.len()
                &&& change matches Some(left) ==> left.entries().len() > 0
            },
            Err(e) => drafted(outputs@, signer@, tx@) == Err::<Draft, LedgerFault>(e@),
        },
{
    let mut inputs = match pin_inputs(outputs, signer, tx) {
        Ok(taken) => taken,
        Err(e) => {
            return Err(e);
        },
    };
    let ghost pins = inputs@;
    let mut have = Values::new();
    match gather(outputs, &inputs, &mut have) {
        Ok(_) => {},
        Err(e) => {
            return Err(e);
        },
    }
    match add_minted(&tx.minting, &mut have) {
        Ok(_) => {},
        Err(e) => {
            return Err(e);
        },
    }
    let need = match require(&tx.unbuilt_outputs) {
        Ok(need) => need,
        Err(e) => {
            return Err(e);
        },
    };
    need.check();
    match select(outputs, signer, &mut inputs, &mut have, &need) {
        Ok(_) => {},
        Err(e) => {
            return Err(e);
        },
    }
    proof {
        lemma_selected_keeps(
            outputs@,
            signer@,
            pins,
            with_minted(tx.minting@, gathered(outputs@, pins, Seq::empty())->0)->0,
            need@,
            0,
        );
    }
    match have.try_subtract(&need) {
        Ok(change) => {
            match &change {
                Some(left) => {
                    left.check();
                },
                None => {},
            }
            Ok((inputs, change))
        },
        Err(_) => {
            proof {
                assert(false);
            }
            Err(LedgerClientError::Balancing)
        },
    }
}

/// Selection only adds inputs.
pub proof fn lemma_selected_keeps<Datum>(
    outputs: Seq<Output<Datum>>,
    signer: AddressView,
    taken: Seq<usize>,
    have: Entries,
    need: Map<AssetId, u64>,
    from: int,
)
    ensures
        selected(outputs, signer, taken, have, need, from) matches Ok((inputs, _))
            ==> inputs.len() >= taken.len() && inputs.take(taken.len() as int) == taken,
    decreases outputs.len() - from,
{
    if covers(entries_map(have), need) {
        assert(taken.take(taken.len() as int) =~= taken);
    } else if from < 0 || from >= outputs.len() {
    } else if outputs[from]@.owner == signer && !taken.contains(from as usize) && helps(
        outputs[from]@.values,
        entries_map(have),
        need,
    ) {
        let values = outputs[from].held();
        if fits(entries_map(have), values@) {
            let more = taken.push(from as usize);
            lemma_selected_keeps(
                outputs,
                signer,
                more,
                entries_with_all(have, values.entries()),
                need,
                from + 1,
            );
            if selected(outputs, signer, taken, have, need, from) is Ok {
                let inputs = selected(outputs, signer, taken, have, need, from)->Ok_0.0;
                assert(inputs.take(taken.len() as int) =~= inputs.take(more.len() as int).take(
                    taken.len() as int,
                ));
                assert(more.take(taken.len() as int) =~= taken);
            }
        }
    } else {
        lemma_selected_keeps(outputs, signer, taken, have, need, from + 1);
    }
}

/// Pinning wallet outputs only adds places: one for each output, behind those
/// that were taken.
pub proof fn lemma_pin_wallet_keeps<Datum>(
    outputs: Seq<Output<Datum>>,
    signer: AddressView,
    inputs: Seq<Output<Datum>>,
    taken: Seq<usize>,
)
    ensures
        pin_wallet(outputs, signer, inputs, taken) matches Ok(pins) ==> pins.len() == taken.len()
            + inputs.len() && pins.take(taken.len() as int) == taken,
    decreases inputs.len(),
{
    if inputs.len() == 0 {
        assert(taken.take(taken.len() as int) =~= taken);
    } else {
        match spendable_wallet(outputs, signer, taken, inputs[0]@.id) {
            None => {},
            Some(at) => {
                let more = taken.push(at);
                lemma_pin_wallet_keeps(outputs, signer, inputs.drop_first(), more);
                if pin_wallet(outputs, signer, inputs, taken) is Ok {
                    let pins = pin_wallet(outputs, signer, inputs, taken)->Ok_0;
                    assert(pins.take(taken.len() as int) =~= pins.take(more.len() as int).take(
                        taken.len() as int,
                    ));
                    assert(more.take(taken.len() as int) =~= taken);
                }
            },
        }
    }
}

/// Pinning the outputs that are redeemed only adds places: behind those that
/// were taken, for each redemption the place at which the ledger holds the
/// output of that name.
pub proof fn lemma_pin_scripts_keeps<Datum, Redeemer, Validator>(
    outputs: Seq<Output<Datum>>,
    signer: AddressView,
    inputs: Seq<RedemptionDetails<Datum, Redeemer, Validator>>,
    taken: Seq<usize>,
)
    requires
        outputs.len() <= usize::MAX,
    ensures
        pin_scripts(outputs, signer, inputs, taken) matches Ok(pins) ==> {
            &&& pins.len() == taken.len() + inputs.len()
            &&& pins.take(taken.len() as int) == taken
            &&& forall|k: int|
                0 <= k < inputs.len() ==> (#[trigger] pins[taken.len() + k]) == position_of(
                    outputs,
                    inputs[k].0@.id,
                ) && position_of(outputs, inputs[k].0@.id) < outputs.len()
        },
    decreases inputs.len(),
{
    if inputs.len() == 0 {
        assert(taken.take(taken.len() as int) =~= taken);
    } else {
        match spendable_script(outputs, signer, taken, inputs[0].0@.id) {
            None => {},
            Some(at) => {
                let more = taken.push(at);
                let rest = inputs.drop_first();
                lemma_pin_scripts_keeps(outputs, signer, rest, more);
                if pin_scripts(outputs, signer, inputs, taken) is Ok {
                    let pins = pin_scripts(outputs, signer, inputs, taken)->Ok_0;
                    assert(pin_scripts(outputs, signer, rest, more) == Ok::<
                        Seq<usize>,
                        LedgerFault,
                    >(pins));
                    assert(pins.len() == more.len() + rest.len());
                    lemma_position_of(outputs, inputs[0].0@.id);
                    assert(at == position_of(outputs, inputs[0].0@.id));
                    assert(pins.take(taken.len() as int) =~= pins.take(more.len() as int).take(
                        taken.len() as int,
                    ));
                    assert(more.take(taken.len() as int) =~= taken);
                    assert forall|k: int| 0 <= k < inputs.len() implies (
                    #[trigger] pins[taken.len() + k]) == position_of(outputs, inputs[k].0@.id)
                        && position_of(outputs, inputs[k].0@.id) < outputs.len() by {
                        if k == 0 {
                            assert(pins.take(more.len() as int)[taken.len() as int]
                                == more[taken.len() as int]);
                        } else {
                            assert(pins[more.len() + (k - 1)] == position_of(
                                outputs,
                                rest[k - 1].0@.id,
                            ));
                        }
                    }
                }
            },
        }
    }
}

} // verus!
