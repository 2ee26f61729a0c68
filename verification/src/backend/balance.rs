//! What balancing means for quantities: what a transaction has is what its
//! inputs hold and what it mints, and the change is what it has beyond what
//! it needs.
use crate::address::{AddressView, AssetId};
use crate::backend::selection::{
    drafted, gathered, helps, minted_asset, pin_scripts, pin_wallet, required, selected,
    spendable_script, spendable_wallet, with_minted, within, Entries,
};
use crate::output::{Output, UnbuiltOutput};
use crate::scripts::MintingPolicy;
use crate::transaction::{MintDetails, Parts, RedemptionDetails};
use crate::values::{
    amount, covers, difference, distinct_keys, entries_map, entries_with, entries_with_all, fits,
    lemma_entries_with, lemma_entries_with_all, lemma_residue, residue,
};
use vstd::prelude::*;

verus! {

/// What the outputs at `places` hold of `asset`, together.
pub open spec fn held_in<Datum>(outputs: Seq<Output<Datum>>, places: Seq<usize>, asset: AssetId)
    -> nat
    decreases places.len(),
{
    if places.len() == 0 {
        0
    } else {
        held_in(outputs, places.drop_last(), asset) + amount(
            outputs[places.last() as int]@.values,
            asset,
        )
    }
}

/// What the mintings create of `asset`, together.
pub open spec fn minted_of<Redeemer, Policy: MintingPolicy<Redeemer>>(
    minting: Seq<MintDetails<Redeemer, Policy>>,
    asset: AssetId,
) -> nat
    decreases minting.len(),
{
    if minting.len() == 0 {
        0
    } else {
        minted_of(minting.drop_last(), asset) + (if minted_asset(minting.last()) == asset {
            minting.last().0 as nat
        } else {
            0
        })
    }
}

/// What the outputs to create hold of `asset`, together.
pub open spec fn needed<Datum>(outputs: Seq<UnbuiltOutput<Datum>>, asset: AssetId) -> nat
    decreases outputs.len(),
{
    if outputs.len() == 0 {
        0
    } else {
        needed(outputs.drop_last(), asset) + amount(outputs.last()@.values, asset)
    }
}

/// Whether no place occurs twice.
pub open spec fn no_repeat(places: Seq<usize>) -> bool {
    forall|i: int, j: int| 0 <= i < j < places.len() ==> places[i] != places[j]
}

/// Whether no output holds two entries for one asset.
pub open spec fn distinct_outputs<Datum>(outputs: Seq<Output<Datum>>) -> bool {
    forall|i: int| 0 <= i < outputs.len() ==> (#[trigger] outputs[i]).held().distinct()
}

/// What the places hold is what the first holds and what the others hold.
pub proof fn lemma_held_in_first<Datum>(
    outputs: Seq<Output<Datum>>,
    places: Seq<usize>,
    asset: AssetId,
)
    requires
        places.len() > 0,
    ensures
        held_in(outputs, places, asset) == amount(outputs[places[0] as int]@.values, asset)
            + held_in(outputs, places.drop_first(), asset),
    decreases places.len(),
{
    if places.len() == 1 {
        assert(places.drop_last() =~= Seq::<usize>::empty());
        assert(places.drop_first() =~= Seq::<usize>::empty());
    } else {
        lemma_held_in_first(outputs, places.drop_last(), asset);
        assert(places.drop_last().drop_first() =~= places.drop_first().drop_last());
    }
}

/// What is gathered is what there was and what the outputs at the places
/// hold.
pub proof fn lemma_gathered<Datum>(
    outputs: Seq<Output<Datum>>,
    places: Seq<usize>,
    have: Entries,
    asset: AssetId,
)
    requires
        distinct_keys(have),
        distinct_outputs(outputs),
        within(places, outputs),
    ensures
        gathered(outputs, places, have) matches Some(got) ==> distinct_keys(got) && amount(
            entries_map(got),
            asset,
        ) == amount(entries_map(have), asset) + held_in(outputs, places, asset),
    decreases places.len(),
{
    if places.len() > 0 {
        let output = outputs[places[0] as int];
        let values = output.held();
        assert(places[0] < outputs.len());
        assert(values.distinct());
        if fits(entries_map(have), values@) {
            lemma_entries_with_all(have, values.entries());
            let next = entries_with_all(have, values.entries());
            assert(within(places.drop_first(), outputs)) by {
                assert forall|i: int| 0 <= i < places.drop_first().len() implies (
                #[trigger] places.drop_first()[i]) < outputs.len() by {
                    assert(places.drop_first()[i] == places[i + 1]);
                }
            }
            lemma_gathered(outputs, places.drop_first(), next, asset);
            lemma_held_in_first(outputs, places, asset);
        }
    }
}

/// What the mintings create is what the first creates and what the others
/// create.
pub proof fn lemma_minted_of_first<Redeemer, Policy: MintingPolicy<Redeemer>>(
    minting: Seq<MintDetails<Redeemer, Policy>>,
    asset: AssetId,
)
    requires
        minting.len() > 0,
    ensures
        minted_of(minting, asset) == (if minted_asset(minting[0]) == asset {
            minting[0].0 as nat
        } else {
            0
        }) + minted_of(minting.drop_first(), asset),
    decreases minting.len(),
{
    if minting.len() == 1 {
        assert(minting.drop_last() =~= Seq::<MintDetails<Redeemer, Policy>>::empty());
        assert(minting.drop_first() =~= Seq::<MintDetails<Redeemer, Policy>>::empty());
    } else {
        lemma_minted_of_first(minting.drop_last(), asset);
        assert(minting.drop_last().drop_first() =~= minting.drop_first().drop_last());
    }
}

/// What there is with what is minted is what there was and what the mintings
/// create.
pub proof fn lemma_with_minted<Redeemer, Policy: MintingPolicy<Redeemer>>(
    minting: Seq<MintDetails<Redeemer, Policy>>,
    have: Entries,
    asset: AssetId,
)
    requires
        distinct_keys(have),
    ensures
        with_minted(minting, have) matches Some(got) ==> distinct_keys(got) && amount(
            entries_map(got),
            asset,
        ) == amount(entries_map(have), asset) + minted_of(minting, asset),
    decreases minting.len(),
{
    if minting.len() > 0 {
        let created = minted_asset(minting[0]);
        if amount(entries_map(have), created) + minting[0].0 <= u64::MAX {
            lemma_entries_with(have, created, minting[0].0);
            lemma_with_minted(minting.drop_first(), entries_with(have, created, minting[0].0), asset);
            lemma_minted_of_first(minting, asset);
        }
    }
}

/// What the outputs to create hold is what the first holds and what the
/// others hold.
pub proof fn lemma_needed_first<Datum>(outputs: Seq<UnbuiltOutput<Datum>>, asset: AssetId)
    requires
        outputs.len() > 0,
    ensures
        needed(outputs, asset) == amount(outputs[0]@.values, asset) + needed(
            outputs.drop_first(),
            asset,
        ),
    decreases outputs.len(),
{
    if outputs.len() == 1 {
        assert(outputs.drop_last() =~= Seq::<UnbuiltOutput<Datum>>::empty());
        assert(outputs.drop_first() =~= Seq::<UnbuiltOutput<Datum>>::empty());
    } else {
        lemma_needed_first(outputs.drop_last(), asset);
        assert(outputs.drop_last().drop_first() =~= outputs.drop_first().drop_last());
    }
}

/// Whether none of the outputs to create holds two entries for one asset.
pub open spec fn distinct_unbuilt<Datum>(outputs: Seq<UnbuiltOutput<Datum>>) -> bool {
    forall|i: int| 0 <= i < outputs.len() ==> (#[trigger] outputs[i]).held().distinct()
}

/// What is required is what was required and what the outputs to create
/// hold.
pub proof fn lemma_required<Datum>(
    outputs: Seq<UnbuiltOutput<Datum>>,
    need: Entries,
    asset: AssetId,
)
    requires
        distinct_keys(need),
        distinct_unbuilt(outputs),
    ensures
        required(outputs, need) matches Some(all) ==> distinct_keys(all) && amount(
            entries_map(all),
            asset,
        ) == amount(entries_map(need), asset) + needed(outputs, asset),
    decreases outputs.len(),
{
    if outputs.len() > 0 {
        let values = outputs[0].held();
        assert(values.distinct());
        if fits(entries_map(need), values@) {
            lemma_entries_with_all(need, values.entries());
            assert(distinct_unbuilt(outputs.drop_first())) by {
                assert forall|i: int| 0 <= i < outputs.drop_first().len() implies (
                #[trigger] outputs.drop_first()[i]).held().distinct() by {
                    assert(outputs.drop_first()[i] == outputs[i + 1]);
                }
            }
            lemma_required(outputs.drop_first(), entries_with_all(need, values.entries()), asset);
            lemma_needed_first(outputs, asset);
        }
    }
}

/// What selection settles: it only adds outputs that were not taken, what
/// the transaction has then covers what it needs, and it has what it had and
/// what the added outputs hold.
pub proof fn lemma_selected<Datum>(
    outputs: Seq<Output<Datum>>,
    signer: AddressView,
    taken: Seq<usize>,
    have: Entries,
    need: Map<AssetId, u64>,
    from: int,
    asset: AssetId,
)
    requires
        distinct_keys(have),
        distinct_outputs(outputs),
        within(taken, outputs),
        no_repeat(taken),
        outputs.len() <= usize::MAX,
    ensures
        selected(outputs, signer, taken, have, need, from) matches Ok((inputs, all)) ==> {
            &&& distinct_keys(all)
            &&& covers(entries_map(all), need)
            &&& within(inputs, outputs)
            &&& no_repeat(inputs)
            &&& amount(entries_map(all), asset) + held_in(outputs, taken, asset) == amount(
                entries_map(have),
                asset,
            ) + held_in(outputs, inputs, asset)
        },
    decreases outputs.len() - from,
{
    if covers(entries_map(have), need) {
    } else if from < 0 || from >= outputs.len() {
    } else if outputs[from]@.owner == signer && !taken.contains(from as usize) && helps(
        outputs[from]@.values,
        entries_map(have),
        need,
    ) {
        let values = outputs[from].held();
        assert(values.distinct());
        if fits(entries_map(have), values@) {
            let more = taken.push(from as usize);
            lemma_entries_with_all(have, values.entries());
            lemma_one_more(outputs, taken, from as usize);
            lemma_selected(
                outputs,
                signer,
                more,
                entries_with_all(have, values.entries()),
                need,
                from + 1,
                asset,
            );
            assert(more.drop_last() =~= taken);
        }
    } else {
        lemma_selected(outputs, signer, taken, have, need, from + 1, asset);
    }
}

/// Pinning wallet outputs keeps the places within the ledger and takes none
/// twice.
pub proof fn lemma_pin_wallet_sound<Datum>(
    outputs: Seq<Output<Datum>>,
    signer: AddressView,
    inputs: Seq<Output<Datum>>,
    taken: Seq<usize>,
)
    requires
        within(taken, outputs),
        no_repeat(taken),
        outputs.len() <= usize::MAX,
    ensures
        pin_wallet(outputs, signer, inputs, taken) matches Ok(pins) ==> within(pins, outputs)
            && no_repeat(pins),
    decreases inputs.len(),
{
    if inputs.len() > 0 {
        match spendable_wallet(outputs, signer, taken, inputs[0]@.id) {
            None => {},
            Some(at) => {
                crate::backend::selection::lemma_position_of(outputs, inputs[0]@.id);
                lemma_one_more(outputs, taken, at);
                lemma_pin_wallet_sound(outputs, signer, inputs.drop_first(), taken.push(at));
            },
        }
    }
}

/// Pinning the outputs that are redeemed keeps the places within the ledger
/// and takes none twice.
pub proof fn lemma_pin_scripts_sound<Datum, Redeemer, Validator>(
    outputs: Seq<Output<Datum>>,
    signer: AddressView,
    inputs: Seq<RedemptionDetails<Datum, Redeemer, Validator>>,
    taken: Seq<usize>,
)
    requires
        within(taken, outputs),
        no_repeat(taken),
        outputs.len() <= usize::MAX,
    ensures
        pin_scripts(outputs, signer, inputs, taken) matches Ok(pins) ==> within(pins, outputs)
            && no_repeat(pins),
    decreases inputs.len(),
{
    if inputs.len() > 0 {
        match spendable_script(outputs, signer, taken, inputs[0].0@.id) {
            None => {},
            Some(at) => {
                crate::backend::selection::lemma_position_of(outputs, inputs[0].0@.id);
                lemma_one_more(outputs, taken, at);
                lemma_pin_scripts_sound(outputs, signer, inputs.drop_first(), taken.push(at));
            },
        }
    }
}

/// A place within the ledger that was not taken can be taken.
pub proof fn lemma_one_more<Datum>(outputs: Seq<Output<Datum>>, taken: Seq<usize>, at: usize)
    requires
        within(taken, outputs),
        no_repeat(taken),
        at < outputs.len(),
        !taken.contains(at),
    ensures
        within(taken.push(at), outputs),
        no_repeat(taken.push(at)),
{
    let more = taken.push(at);
    assert forall|i: int| 0 <= i < more.len() implies (#[trigger] more[i]) < outputs.len() by {
        if i < taken.len() {
            assert(more[i] == taken[i]);
        }
    }
    assert forall|i: int, j: int| 0 <= i < j < more.len() implies more[i] != more[j] by {
        if j < taken.len() {
            assert(more[i] == taken[i] && more[j] == taken[j]);
        } else {
            assert(more[i] == taken[i]);
            assert(taken.contains(taken[i]));
        }
    }
}

/// Balancing settles an account that is even: what the inputs hold and what
/// is minted is what the outputs to create hold and the change. No input is
/// taken twice, and each is an output of the ledger.
pub proof fn lemma_drafted_is_even<Datum, Redeemer, Validator, Policy: MintingPolicy<Redeemer>>(
    outputs: Seq<Output<Datum>>,
    signer: AddressView,
    tx: Parts<Datum, Redeemer, Validator, Policy>,
    asset: AssetId,
)
    requires
        distinct_outputs(outputs),
        distinct_unbuilt(tx.unbuilt_outputs),
        outputs.len() <= usize::MAX,
    ensures
        drafted(outputs, signer, tx) matches Ok(draft) ==> {
            &&& within(draft.inputs, outputs)
            &&& no_repeat(draft.inputs)
            &&& distinct_keys(draft.change)
            &&& amount(entries_map(draft.change), asset) + needed(tx.unbuilt_outputs, asset)
                == held_in(outputs, draft.inputs, asset) + minted_of(tx.minting, asset)
        },
{
    if drafted(outputs, signer, tx) is Ok {
        let none = Seq::<usize>::empty();
        let nothing = Seq::<(AssetId, u64)>::empty();
        lemma_pin_wallet_sound(outputs, signer, tx.specific_wallet_inputs, none);
        let wallet = pin_wallet(outputs, signer, tx.specific_wallet_inputs, none)->Ok_0;
        lemma_pin_scripts_sound(outputs, signer, tx.script_inputs, wallet);
        let pins = pin_scripts(outputs, signer, tx.script_inputs, wallet)->Ok_0;
        lemma_gathered(outputs, pins, nothing, asset);
        let held = gathered(outputs, pins, nothing)->0;
        lemma_with_minted(tx.minting, held, asset);
        let have = with_minted(tx.minting, held)->0;
        lemma_required(tx.unbuilt_outputs, nothing, asset);
        let need = required(tx.unbuilt_outputs, nothing)->0;
        lemma_selected(outputs, signer, pins, have, entries_map(need), 0, asset);
        let all = selected(outputs, signer, pins, have, entries_map(need), 0)->Ok_0.1;
        lemma_residue(all, entries_map(need));
        assert(amount(entries_map(need), asset) <= amount(entries_map(all), asset));
        assert(amount(entries_map(nothing), asset) == 0);
    }
}

/// What the outputs hold of `asset`, together.
pub open spec fn total<Datum>(outputs: Seq<Output<Datum>>, asset: AssetId) -> nat
    decreases outputs.len(),
{
    if outputs.len() == 0 {
        0
    } else {
        total(outputs.drop_last(), asset) + amount(outputs.last()@.values, asset)
    }
}

/// What the outputs hold is what the first holds and what the others hold.
pub proof fn lemma_total_first<Datum>(outputs: Seq<Output<Datum>>, asset: AssetId)
    requires
        outputs.len() > 0,
    ensures
        total(outputs, asset) == amount(outputs[0]@.values, asset) + total(
            outputs.drop_first(),
            asset,
        ),
    decreases outputs.len(),
{
    if outputs.len() == 1 {
        assert(outputs.drop_last() =~= Seq::<Output<Datum>>::empty());
        assert(outputs.drop_first() =~= Seq::<Output<Datum>>::empty());
    } else {
        lemma_total_first(outputs.drop_last(), asset);
        assert(outputs.drop_last().drop_first() =~= outputs.drop_first().drop_last());
    }
}

/// What two rows of outputs hold together is what the one holds and what the
/// other holds.
pub proof fn lemma_total_of_both<Datum>(
    front: Seq<Output<Datum>>,
    back: Seq<Output<Datum>>,
    asset: AssetId,
)
    ensures
        total(front + back, asset) == total(front, asset) + total(back, asset),
    decreases back.len(),
{
    if back.len() == 0 {
        assert(front + back =~= front);
    } else {
        lemma_total_of_both(front, back.drop_last(), asset);
        assert((front + back).drop_last() =~= front + back.drop_last());
    }
}

/// What the outputs at spent places hold of `asset`, together; `offset` is
/// the place of the first of `outputs`.
pub open spec fn spent_in<Datum>(
    outputs: Seq<Output<Datum>>,
    spent: Seq<usize>,
    offset: int,
    asset: AssetId,
) -> nat
    decreases outputs.len(),
{
    if outputs.len() == 0 {
        0
    } else if spent.contains(offset as usize) {
        amount(outputs[0]@.values, asset) + spent_in(outputs.drop_first(), spent, offset + 1, asset)
    } else {
        spent_in(outputs.drop_first(), spent, offset + 1, asset)
    }
}

/// One more spent place adds what the output at that place holds.
pub proof fn lemma_spent_in_one_more<Datum>(
    outputs: Seq<Output<Datum>>,
    spent: Seq<usize>,
    place: usize,
    offset: int,
    asset: AssetId,
)
    requires
        !spent.contains(place),
        0 <= offset,
        offset + outputs.len() <= usize::MAX,
    ensures
        spent_in(outputs, spent.push(place), offset, asset) == spent_in(
            outputs,
            spent,
            offset,
            asset,
        ) + (if offset <= place < offset + outputs.len() {
            amount(outputs[place - offset]@.values, asset)
        } else {
            0
        }),
    decreases outputs.len(),
{
    if outputs.len() > 0 {
        let more = spent.push(place);
        let rest = outputs.drop_first();
        lemma_spent_in_one_more(rest, spent, place, offset + 1, asset);
        assert(more.contains(offset as usize) <==> (spent.contains(offset as usize) || place
            == offset)) by {
            if spent.contains(offset as usize) {
                let i = choose|i: int| 0 <= i < spent.len() && spent[i] == offset as usize;
                assert(more[i] == offset as usize);
            }
            if place == offset {
                assert(more[spent.len() as int] == place);
            }
            if more.contains(offset as usize) {
                let i = choose|i: int| 0 <= i < more.len() && more[i] == offset as usize;
                if i < spent.len() {
                    assert(spent[i] == more[i]);
                }
            }
        }
        if offset < place && place < offset + outputs.len() {
            assert(rest[place - (offset + 1)] == outputs[place - offset]);
        }
    }
}

/// What the outputs at spent places hold is what the outputs at the places
/// hold, where no place is taken twice.
pub proof fn lemma_spent_in<Datum>(
    outputs: Seq<Output<Datum>>,
    spent: Seq<usize>,
    asset: AssetId,
)
    requires
        within(spent, outputs),
        no_repeat(spent),
        outputs.len() <= usize::MAX,
    ensures
        spent_in(outputs, spent, 0, asset) == held_in(outputs, spent, asset),
    decreases spent.len(),
{
    if spent.len() == 0 {
        lemma_spent_in_none(outputs, spent, 0, asset);
    } else {
        let init = spent.drop_last();
        let place = spent.last();
        assert(within(init, outputs)) by {
            assert forall|i: int| 0 <= i < init.len() implies (#[trigger] init[i])
                < outputs.len() by {
                assert(init[i] == spent[i]);
            }
        }
        assert(no_repeat(init)) by {
            assert forall|i: int, j: int| 0 <= i < j < init.len() implies init[i] != init[j] by {
                assert(init[i] == spent[i] && init[j] == spent[j]);
            }
        }
        assert(!init.contains(place)) by {
            if init.contains(place) {
                let i = choose|i: int| 0 <= i < init.len() && init[i] == place;
                assert(spent[i] == spent[spent.len() - 1]);
            }
        }
        lemma_spent_in(outputs, init, asset);
        lemma_spent_in_one_more(outputs, init, place, 0, asset);
        assert(init.push(place) =~= spent);
        assert(spent[spent.len() - 1] < outputs.len());
    }
}

/// Where no place is spent the outputs at spent places hold nothing.
pub proof fn lemma_spent_in_none<Datum>(
    outputs: Seq<Output<Datum>>,
    spent: Seq<usize>,
    offset: int,
    asset: AssetId,
)
    requires
        spent.len() == 0,
    ensures
        spent_in(outputs, spent, offset, asset) == 0,
    decreases outputs.len(),
{
    if outputs.len() > 0 {
        lemma_spent_in_none(outputs.drop_first(), spent, offset + 1, asset);
    }
}

} // verus!
