//! Multi-asset values: for each asset a quantity, never negative.
use crate::address::{AssetId, PolicyId};
use crate::error::Error;
use vstd::prelude::*;
use vstd::std_specs::cmp::PartialEqSpecImpl;

verus! {

/// The quantity that `m` holds of `asset`: zero where it has no entry.
pub open spec fn amount(m: Map<AssetId, u64>, asset: AssetId) -> nat {
    if m.contains_key(asset) {
        m[asset] as nat
    } else {
        0
    }
}

/// Whether `a` holds at least as much as `b` of every asset.
pub open spec fn covers(a: Map<AssetId, u64>, b: Map<AssetId, u64>) -> bool {
    forall|asset: AssetId| amount(b, asset) <= #[trigger] amount(a, asset)
}

/// What is left of `a` once `b` is taken out, for the assets of which
/// something is left. It is a value where `a` covers `b`.
pub open spec fn difference(a: Map<AssetId, u64>, b: Map<AssetId, u64>) -> Map<AssetId, u64> {
    Map::new(
        |asset: AssetId| amount(a, asset) > amount(b, asset),
        |asset: AssetId| (amount(a, asset) - amount(b, asset)) as u64,
    )
}

/// Whether no quantity of `a` and `b` together exceeds the largest quantity.
pub open spec fn fits(a: Map<AssetId, u64>, b: Map<AssetId, u64>) -> bool {
    forall|asset: AssetId| #[trigger] amount(a, asset) + amount(b, asset) <= u64::MAX
}

/// `a` and `b` together, asset by asset. It is a value where they fit.
pub open spec fn sum(a: Map<AssetId, u64>, b: Map<AssetId, u64>) -> Map<AssetId, u64> {
    Map::new(
        |asset: AssetId| a.contains_key(asset) || b.contains_key(asset),
        |asset: AssetId| (amount(a, asset) + amount(b, asset)) as u64,
    )
}

/// `m` without its entries of quantity zero.
pub open spec fn normalized(m: Map<AssetId, u64>) -> Map<AssetId, u64> {
    Map::new(|asset: AssetId| amount(m, asset) > 0, |asset: AssetId| m[asset])
}

/// The map that a sequence of entries stands for; of two entries for one
/// asset the later one counts.
pub open spec fn entries_map(s: Seq<(AssetId, u64)>) -> Map<AssetId, u64>
    decreases s.len(),
{
    if s.len() == 0 {
        Map::empty()
    } else {
        entries_map(s.drop_last()).insert(s.last().0, s.last().1)
    }
}

/// Whether no asset has two entries.
pub open spec fn distinct_keys(s: Seq<(AssetId, u64)>) -> bool {
    forall|i: int, j: int| 0 <= i < j < s.len() ==> s[i].0 != s[j].0
}

/// The entries of a vector of pairs, each asset by its value.
pub open spec fn keyed(v: Seq<(PolicyId, u64)>) -> Seq<(AssetId, u64)> {
    Seq::new(v.len(), |i: int| (v[i].0@, v[i].1))
}

/// The place of the first entry for `asset`, or the length where there is
/// none.
pub open spec fn key_index(s: Seq<(AssetId, u64)>, asset: AssetId) -> int
    decreases s.len(),
{
    if s.len() == 0 {
        0
    } else if s[0].0 == asset {
        0
    } else {
        1 + key_index(s.drop_first(), asset)
    }
}

/// The entries `s` with `quantity` more of `asset`: in its entry where it has
/// one, else in a new last entry.
pub open spec fn entries_with(s: Seq<(AssetId, u64)>, asset: AssetId, quantity: u64) -> Seq<
    (AssetId, u64),
> {
    let at = key_index(s, asset);
    if at < s.len() {
        s.update(at, (asset, (s[at].1 + quantity) as u64))
    } else {
        s.push((asset, quantity))
    }
}

/// The entries `s` with each entry of `more` added, one after the other.
pub open spec fn entries_with_all(s: Seq<(AssetId, u64)>, more: Seq<(AssetId, u64)>) -> Seq<
    (AssetId, u64),
>
    decreases more.len(),
{
    if more.len() == 0 {
        s
    } else {
        entries_with_all(entries_with(s, more[0].0, more[0].1), more.drop_first())
    }
}

/// The entries of `s` of which something is left once `taken` is taken out,
/// each with what is left, in their order.
pub open spec fn residue(s: Seq<(AssetId, u64)>, taken: Map<AssetId, u64>) -> Seq<(AssetId, u64)>
    decreases s.len(),
{
    if s.len() == 0 {
        Seq::empty()
    } else if s.last().1 > amount(taken, s.last().0) {
        residue(s.drop_last(), taken).push(
            (s.last().0, (s.last().1 - amount(taken, s.last().0)) as u64),
        )
    } else {
        residue(s.drop_last(), taken)
    }
}

/// The first place with the given asset is within the sequence or just behind
/// it, and no earlier entry has the asset.
pub proof fn lemma_key_index(s: Seq<(AssetId, u64)>, asset: AssetId)
    ensures
        0 <= key_index(s, asset) <= s.len(),
        key_index(s, asset) < s.len() ==> s[key_index(s, asset)].0 == asset,
        forall|i: int| 0 <= i < key_index(s, asset) ==> (#[trigger] s[i]).0 != asset,
    decreases s.len(),
{
    if s.len() > 0 && s[0].0 != asset {
        let rest = s.drop_first();
        lemma_key_index(rest, asset);
        assert forall|i: int| 0 <= i < key_index(s, asset) implies (#[trigger] s[i]).0
            != asset by {
            if i > 0 {
                assert(rest[i - 1] == s[i]);
            }
        }
    }
}

/// A place that holds the asset, with none before it, is the first.
pub proof fn lemma_key_index_is(s: Seq<(AssetId, u64)>, asset: AssetId, at: int)
    requires
        0 <= at <= s.len(),
        at < s.len() ==> s[at].0 == asset,
        forall|i: int| 0 <= i < at ==> (#[trigger] s[i]).0 != asset,
    ensures
        key_index(s, asset) == at,
{
    lemma_key_index(s, asset);
    let found = key_index(s, asset);
    if found < at {
        assert(s[found].0 != asset);
    }
    if at < found {
        assert(s[at].0 != asset);
    }
}

/// Whether `asset` has an entry in `s`.
pub open spec fn has_key(s: Seq<(AssetId, u64)>, asset: AssetId) -> bool {
    exists|i: int| 0 <= i < s.len() && (#[trigger] s[i]).0 == asset
}

/// The map of a sequence without repeated assets has exactly its entries.
pub proof fn lemma_entries_map(s: Seq<(AssetId, u64)>)
    requires
        distinct_keys(s),
    ensures
        forall|asset: AssetId| #[trigger] entries_map(s).contains_key(asset) <==> has_key(s, asset),
        forall|i: int|
            0 <= i < s.len() ==> entries_map(s).contains_key((#[trigger] s[i]).0) && entries_map(
                s,
            )[s[i].0] == s[i].1,
    decreases s.len(),
{
    if s.len() > 0 {
        let init = s.drop_last();
        lemma_entries_map(init);
        assert forall|asset: AssetId| #[trigger]
            entries_map(s).contains_key(asset) implies has_key(s, asset) by {
            if asset == s.last().0 {
                assert(s[s.len() - 1].0 == asset);
            } else {
                assert(entries_map(init).contains_key(asset));
                assert(has_key(init, asset));
                let i = choose|i: int| 0 <= i < init.len() && (#[trigger] init[i]).0 == asset;
                assert(s[i].0 == asset);
            }
        }
        assert forall|asset: AssetId| has_key(s, asset) implies #[trigger] entries_map(
            s,
        ).contains_key(asset) by {
            let i = choose|i: int| 0 <= i < s.len() && (#[trigger] s[i]).0 == asset;
            if i < s.len() - 1 {
                assert(init[i].0 == asset);
                assert(has_key(init, asset));
            }
        }
        assert forall|i: int| 0 <= i < s.len() implies entries_map(s).contains_key(
            (#[trigger] s[i]).0,
        ) && entries_map(s)[s[i].0] == s[i].1 by {
            if i < s.len() - 1 {
                assert(init[i] == s[i]);
                assert(s[i].0 != s[s.len() - 1].0);
            }
        }
    }
}

/// Replacing the quantity of an entry replaces it in the map.
pub proof fn lemma_entries_map_update(s: Seq<(AssetId, u64)>, i: int, quantity: u64)
    requires
        distinct_keys(s),
        0 <= i < s.len(),
    ensures
        distinct_keys(s.update(i, (s[i].0, quantity))),
        entries_map(s.update(i, (s[i].0, quantity))) == entries_map(s).insert(s[i].0, quantity),
{
    let t = s.update(i, (s[i].0, quantity));
    assert(distinct_keys(t)) by {
        assert forall|a: int, b: int| 0 <= a < b < t.len() implies t[a].0 != t[b].0 by {
            assert(t[a].0 == s[a].0);
            assert(t[b].0 == s[b].0);
        }
    }
    lemma_entries_map(s);
    lemma_entries_map(t);
    let want = entries_map(s).insert(s[i].0, quantity);
    assert forall|asset: AssetId| entries_map(t).contains_key(asset) implies #[trigger]
        want.contains_key(asset) by {
        assert(has_key(t, asset));
        let j = choose|j: int| 0 <= j < t.len() && (#[trigger] t[j]).0 == asset;
        assert(s[j].0 == asset);
    }
    assert forall|asset: AssetId| want.contains_key(asset) implies #[trigger] entries_map(
        t,
    ).contains_key(asset) by {
        if asset == s[i].0 {
            assert(t[i].0 == asset);
        } else {
            assert(has_key(s, asset));
            let j = choose|j: int| 0 <= j < s.len() && (#[trigger] s[j]).0 == asset;
            assert(t[j].0 == asset);
        }
    }
    assert forall|asset: AssetId| #[trigger] want.contains_key(asset) implies entries_map(t)[asset]
        == want[asset] by {
        assert(entries_map(t).contains_key(asset));
        assert(has_key(t, asset));
        let j = choose|j: int| 0 <= j < t.len() && (#[trigger] t[j]).0 == asset;
        assert(entries_map(t)[t[j].0] == t[j].1);
        if j != i {
            assert(t[j] == s[j]);
            assert(entries_map(s)[s[j].0] == s[j].1);
        }
    }
    assert(entries_map(t) =~= want);
}

/// Adding an entry adds it to the map.
pub proof fn lemma_entries_map_push(s: Seq<(AssetId, u64)>, entry: (AssetId, u64))
    ensures
        entries_map(s.push(entry)) == entries_map(s).insert(entry.0, entry.1),
{
    assert(s.push(entry).drop_last() =~= s);
}

/// The quantity of an asset is that of its entry, and zero where it has none.
pub proof fn lemma_amount_of_entries(s: Seq<(AssetId, u64)>, asset: AssetId)
    requires
        distinct_keys(s),
    ensures
        key_index(s, asset) < s.len() ==> amount(entries_map(s), asset) == s[key_index(
            s,
            asset,
        )].1,
        key_index(s, asset) >= s.len() ==> amount(entries_map(s), asset) == 0,
{
    lemma_key_index(s, asset);
    lemma_entries_map(s);
    let at = key_index(s, asset);
    if at < s.len() {
        assert(entries_map(s).contains_key(s[at].0));
    } else if entries_map(s).contains_key(asset) {
        assert(has_key(s, asset));
        let i = choose|i: int| 0 <= i < s.len() && (#[trigger] s[i]).0 == asset;
        assert(s[i].0 != asset);
    }
}

/// Adding a quantity to the entries adds it in the map that they stand for,
/// and no asset gets a second entry.
pub proof fn lemma_entries_with(s: Seq<(AssetId, u64)>, asset: AssetId, quantity: u64)
    requires
        distinct_keys(s),
        amount(entries_map(s), asset) + quantity <= u64::MAX,
    ensures
        distinct_keys(entries_with(s, asset, quantity)),
        entries_map(entries_with(s, asset, quantity)) == entries_map(s).insert(
            asset,
            (amount(entries_map(s), asset) + quantity) as u64,
        ),
{
    lemma_key_index(s, asset);
    lemma_amount_of_entries(s, asset);
    let at = key_index(s, asset);
    if at < s.len() {
        lemma_entries_map_update(s, at, (s[at].1 + quantity) as u64);
    } else {
        lemma_entries_map_push(s, (asset, quantity));
    }
}

/// Adding entries one after the other adds the maps that they stand for, and
/// no asset gets a second entry.
pub proof fn lemma_entries_with_all(s: Seq<(AssetId, u64)>, more: Seq<(AssetId, u64)>)
    requires
        distinct_keys(s),
        distinct_keys(more),
        fits(entries_map(s), entries_map(more)),
    ensures
        distinct_keys(entries_with_all(s, more)),
        entries_map(entries_with_all(s, more)) == sum(entries_map(s), entries_map(more)),
    decreases more.len(),
{
    lemma_entries_map(more);
    if more.len() == 0 {
        assert(entries_map(s) =~= sum(entries_map(s), entries_map(more)));
    } else {
        let first = more[0];
        let rest = more.drop_first();
        assert(distinct_keys(rest)) by {
            assert forall|i: int, j: int| 0 <= i < j < rest.len() implies rest[i].0
                != rest[j].0 by {
                assert(rest[i] == more[i + 1] && rest[j] == more[j + 1]);
            }
        }
        lemma_entries_map(rest);
        assert(amount(entries_map(more), first.0) == first.1);
        assert(amount(entries_map(s), first.0) + amount(entries_map(more), first.0) <= u64::MAX);
        lemma_entries_with(s, first.0, first.1);
        let next = entries_with(s, first.0, first.1);
        assert forall|asset: AssetId| #[trigger]
            amount(entries_map(rest), asset) == (if asset == first.0 {
                0
            } else {
                amount(entries_map(more), asset)
            }) by {
            if entries_map(rest).contains_key(asset) {
                assert(has_key(rest, asset));
                let i = choose|i: int| 0 <= i < rest.len() && (#[trigger] rest[i]).0 == asset;
                assert(more[i + 1] == rest[i]);
                assert(more[0].0 != more[i + 1].0);
                assert(entries_map(more)[more[i + 1].0] == more[i + 1].1);
            } else if asset != first.0 && entries_map(more).contains_key(asset) {
                assert(has_key(more, asset));
                let i = choose|i: int| 0 <= i < more.len() && (#[trigger] more[i]).0 == asset;
                assert(rest[i - 1].0 == asset);
                assert(has_key(rest, asset));
            }
        }
        assert(fits(entries_map(next), entries_map(rest))) by {
            assert forall|asset: AssetId| #[trigger]
                amount(entries_map(next), asset) + amount(entries_map(rest), asset)
                    <= u64::MAX by {
                assert(amount(entries_map(s), asset) + amount(entries_map(more), asset)
                    <= u64::MAX);
            }
        }
        lemma_entries_with_all(next, rest);
        assert(sum(entries_map(next), entries_map(rest)) =~= sum(
            entries_map(s),
            entries_map(more),
        )) by {
            assert forall|asset: AssetId|
                sum(entries_map(next), entries_map(rest)).contains_key(asset) <==> sum(
                    entries_map(s),
                    entries_map(more),
                ).contains_key(asset) by {
                if entries_map(rest).contains_key(asset) {
                    assert(has_key(rest, asset));
                    let i = choose|i: int| 0 <= i < rest.len() && (#[trigger] rest[i]).0 == asset;
                    assert(more[i + 1].0 == asset);
                    assert(has_key(more, asset));
                }
                if entries_map(more).contains_key(asset) && asset != first.0 {
                    assert(has_key(more, asset));
                    let i = choose|i: int| 0 <= i < more.len() && (#[trigger] more[i]).0 == asset;
                    assert(rest[i - 1].0 == asset);
                    assert(has_key(rest, asset));
                }
                assert(more[0].0 == first.0);
                assert(has_key(more, first.0));
            }
            assert forall|asset: AssetId| #[trigger]
                amount(entries_map(next), asset) + amount(entries_map(rest), asset) == amount(
                    entries_map(s),
                    asset,
                ) + amount(entries_map(more), asset) by {}
        }
    }
}

/// What is left of the entries stands for what is left of the map, and no
/// asset gets a second entry.
pub proof fn lemma_residue(s: Seq<(AssetId, u64)>, taken: Map<AssetId, u64>)
    requires
        distinct_keys(s),
    ensures
        distinct_keys(residue(s, taken)),
        forall|asset: AssetId| has_key(residue(s, taken), asset) ==> has_key(s, asset),
        entries_map(residue(s, taken)) == difference(entries_map(s), taken),
    decreases s.len(),
{
    lemma_entries_map(s);
    if s.len() == 0 {
        assert(entries_map(residue(s, taken)) =~= difference(entries_map(s), taken));
    } else {
        let init = s.drop_last();
        let last = s.last();
        lemma_residue(init, taken);
        lemma_entries_map(init);
        let left = residue(init, taken);
        let all = residue(s, taken);
        assert forall|asset: AssetId| has_key(all, asset) implies has_key(s, asset) by {
            let i = choose|i: int| 0 <= i < all.len() && (#[trigger] all[i]).0 == asset;
            if i < left.len() {
                assert(all[i] == left[i]);
                assert(has_key(left, asset));
                assert(has_key(init, asset));
                let j = choose|j: int| 0 <= j < init.len() && (#[trigger] init[j]).0 == asset;
                assert(s[j] == init[j]);
            } else {
                assert(s[s.len() - 1].0 == asset);
            }
        }
        assert(!has_key(left, last.0)) by {
            if has_key(left, last.0) {
                assert(has_key(init, last.0));
                let j = choose|j: int| 0 <= j < init.len() && (#[trigger] init[j]).0 == last.0;
                assert(s[j].0 == s[s.len() - 1].0);
            }
        }
        assert(distinct_keys(all)) by {
            assert forall|i: int, j: int| 0 <= i < j < all.len() implies all[i].0 != all[j].0 by {
                if j < left.len() {
                    assert(all[i] == left[i] && all[j] == left[j]);
                } else {
                    assert(all[i] == left[i]);
                    assert(has_key(left, left[i].0));
                }
            }
        }
        assert(entries_map(s) =~= entries_map(init).insert(last.0, last.1));
        assert(!entries_map(init).contains_key(last.0)) by {
            if entries_map(init).contains_key(last.0) {
                assert(has_key(init, last.0));
                let j = choose|j: int| 0 <= j < init.len() && (#[trigger] init[j]).0 == last.0;
                assert(s[j].0 == s[s.len() - 1].0);
            }
        }
        if last.1 > amount(taken, last.0) {
            lemma_entries_map_push(left, (last.0, (last.1 - amount(taken, last.0)) as u64));
        }
        assert(entries_map(all) =~= difference(entries_map(s), taken));
    }
}

/// For each asset a quantity. No asset has two entries; an entry of quantity
/// zero may stand, and counts as none in `==` and where balances are compared.
#[derive(Debug, Eq)]
pub struct Values {
    values: Vec<(PolicyId, u64)>,
}

impl View for Values {
    type V = Map<AssetId, u64>;

    /// The map that the entries stand for.
    open spec fn view(&self) -> Map<AssetId, u64> {
        entries_map(self.entries())
    }
}

impl Values {
    #[verifier::type_invariant]
    spec fn well_formed(self) -> bool {
        distinct_keys(keyed(self.values@))
    }

    /// The entries in the order in which they are held.
    pub closed spec fn entries(self) -> Seq<(AssetId, u64)> {
        keyed(self.values@)
    }

    /// Whether no asset has two entries. It holds of every value that
    /// executable code can hold.
    pub open spec fn distinct(self) -> bool {
        distinct_keys(self.entries())
    }

    /// The value without any asset.
    pub fn new() -> (r: Values)
        ensures
            r@ == Map::<AssetId, u64>::empty(),
            r.entries() == Seq::<(AssetId, u64)>::empty(),
    {
        let r = Values { values: Vec::new() };
        assert(r.entries() =~= Seq::<(AssetId, u64)>::empty());
        r
    }

    /// The number of entries.
    pub fn len(&self) -> (n: usize)
        ensures
            n == self.entries().len(),
    {
        self.values.len()
    }

    /// Recalls what holds of every value: no asset has two entries, and the
    /// entries are those of the view.
    pub fn check(&self)
        ensures
            distinct_keys(self.entries()),
            self@ == entries_map(self.entries()),
    {
        proof {
            use_type_invariant(self);
        }
    }

    /// The asset and the quantity of entry `i`.
    pub fn entry(&self, i: usize) -> (r: (&PolicyId, u64))
        requires
            i < self.entries().len(),
        ensures
            (r.0@, r.1) == self.entries()[i as int],
    {
        (&self.values[i].0, self.values[i].1)
    }

    fn position(&self, policy: &PolicyId) -> (r: Option<usize>)
        ensures
            match r {
                Some(i) => i < self.values.len() && self.values[i as int].0@ == policy@
                    && key_index(keyed(self.values@), policy@) == i,
                None => key_index(keyed(self.values@), policy@) == self.values.len() && forall|
                    i: int,
                | 0 <= i < self.values.len() ==> self.values[i].0@ != policy@,
            },
    {
        let mut i: usize = 0;
        while i < self.values.len()
            invariant
                i <= self.values.len(),
                forall|j: int| 0 <= j < i ==> self.values[j].0@ != policy@,
            decreases self.values.len() - i,
        {
            if self.values[i].0 == *policy {
                proof {
                    assert forall|j: int| 0 <= j < i implies (#[trigger] keyed(self.values@)[j]).0
                        != policy@ by {}
                    lemma_key_index_is(keyed(self.values@), policy@, i as int);
                }
                return Some(i);
            }
            i += 1;
        }
        proof {
            assert forall|j: int| 0 <= j < i implies (#[trigger] keyed(self.values@)[j]).0
                != policy@ by {}
            lemma_key_index_is(keyed(self.values@), policy@, i as int);
        }
        None
    }

    /// The quantity recorded for `policy`, if it has an entry.
    pub fn get(&self, policy: &PolicyId) -> (r: Option<u64>)
        ensures
            r == if self@.contains_key(policy@) {
                Some(self@[policy@])
            } else {
                None::<u64>
            },
    {
        proof {
            use_type_invariant(self);
            lemma_entries_map(keyed(self.values@));
        }
        match self.position(policy) {
            Some(i) => {
                assert(keyed(self.values@)[i as int].0 == policy@);
                Some(self.values[i].1)
            },
            None => {
                assert forall|i: int| 0 <= i < keyed(self.values@).len() implies keyed(
                    self.values@,
                )[i].0 != policy@ by {}
                None
            },
        }
    }

    /// The quantity held of `policy`: zero where it has no entry.
    pub fn amount_of(&self, policy: &PolicyId) -> (r: u64)
        ensures
            r == amount(self@, policy@),
    {
        match self.get(policy) {
            Some(quantity) => quantity,
            None => 0,
        }
    }

    /// Adds `quantity` of `policy`, to the entry of that asset where there is
    /// one.
    pub fn add_one_value(&mut self, policy: &PolicyId, quantity: u64)
        requires
            amount(old(self)@, policy@) + quantity <= u64::MAX,
        ensures
            final(self)@ == old(self)@.insert(
                policy@,
                (amount(old(self)@, policy@) + quantity) as u64,
            ),
            final(self).entries() == entries_with(old(self).entries(), policy@, quantity),
    {
        proof {
            use_type_invariant(&*self);
            lemma_entries_map(keyed(self.values@));
        }
        let ghost before = keyed(self.values@);
        match self.position(policy) {
            Some(i) => {
                assert(before[i as int].0 == policy@);
                let total: u64 = self.values[i].1 + quantity;
                let entries = self.copied(Some(i), policy, total);
                proof {
                    lemma_entries_map_update(before, i as int, total);
                }
                self.values = entries;
            },
            None => {
                assert forall|i: int| 0 <= i < before.len() implies before[i].0 != policy@ by {}
                let entries = self.copied(None, policy, quantity);
                proof {
                    lemma_entries_map_push(before, (policy@, quantity));
                    assert(distinct_keys(before.push((policy@, quantity))));
                }
                self.values = entries;
            },
        }
    }

    /// A copy of the entries in which `policy` has `quantity`: in place of
    /// entry `at`, or as a new last entry.
    fn copied(&self, at: Option<usize>, policy: &PolicyId, quantity: u64) -> (r: Vec<
        (PolicyId, u64),
    >)
        requires
            at matches Some(i) ==> i < self.values.len(),
        ensures
            keyed(r@) == match at {
                Some(i) => keyed(self.values@).update(i as int, (policy@, quantity)),
                None => keyed(self.values@).push((policy@, quantity)),
            },
    {
        let mut entries: Vec<(PolicyId, u64)> = Vec::new();
        let mut i: usize = 0;
        while i < self.values.len()
            invariant
                i <= self.values.len(),
                entries.len() == i,
                at matches Some(k) ==> k < self.values.len(),
                forall|j: int|
                    0 <= j < i ==> (#[trigger] entries[j]).0@ == (if at == Some(j as usize) {
                        policy@
                    } else {
                        self.values[j].0@
                    }) && entries[j].1 == (if at == Some(j as usize) {
                        quantity
                    } else {
                        self.values[j].1
                    }),
            decreases self.values.len() - i,
        {
            let replace = match at {
                Some(k) => k == i,
                None => false,
            };
            if replace {
                entries.push((policy.clone(), quantity));
            } else {
                entries.push((self.values[i].0.clone(), self.values[i].1));
            }
            i += 1;
        }
        match at {
            Some(k) => {
                assert(keyed(entries@) =~= keyed(self.values@).update(
                    k as int,
                    (policy@, quantity),
                ));
            },
            None => {
                entries.push((policy.clone(), quantity));
                assert(keyed(entries@) =~= keyed(self.values@).push((policy@, quantity)));
            },
        }
        entries
    }

    /// Adds `quantity` of `policy` where the sum is a quantity. Where it is
    /// not, nothing changes.
    pub fn try_add_one_value(&mut self, policy: &PolicyId, quantity: u64) -> (r: Result<
        (),
        Error,
    >)
        ensures
            match r {
                Ok(_) => {
                    &&& amount(old(self)@, policy@) + quantity <= u64::MAX
                    &&& final(self)@ == old(self)@.insert(
                        policy@,
                        (amount(old(self)@, policy@) + quantity) as u64,
                    )
                    &&& final(self).entries() == entries_with(
                        old(self).entries(),
                        policy@,
                        quantity,
                    )
                },
                Err(e) => {
                    &&& e == Error::Arithmetic
                    &&& amount(old(self)@, policy@) + quantity > u64::MAX
                    &&& final(self)@ == old(self)@
                    &&& final(self).entries() == old(self).entries()
                },
            },
    {
        let held = self.amount_of(policy);
        if quantity > u64::MAX - held {
            Err(Error::Arithmetic)
        } else {
            self.add_one_value(policy, quantity);
            Ok(())
        }
    }

    /// Whether every quantity of `self` and `other` together is a quantity.
    pub fn fits_with(&self, other: &Values) -> (r: bool)
        ensures
            r == fits(self@, other@),
    {
        proof {
            use_type_invariant(other);
            lemma_entries_map(keyed(other.values@));
        }
        let mut i: usize = 0;
        while i < other.values.len()
            invariant
                i <= other.values.len(),
                forall|j: int|
                    0 <= j < i ==> amount(self@, (#[trigger] keyed(other.values@)[j]).0) + keyed(
                        other.values@,
                    )[j].1 <= u64::MAX,
            decreases other.values.len() - i,
        {
            let held = self.amount_of(&other.values[i].0);
            if other.values[i].1 > u64::MAX - held {
                proof {
                    use_type_invariant(other);
                    lemma_entries_map(keyed(other.values@));
                    let asset = keyed(other.values@)[i as int].0;
                    assert(other@.contains_key(asset));
                    assert(amount(self@, asset) + amount(other@, asset) > u64::MAX);
                }
                return false;
            }
            i += 1;
        }
        proof {
            assert forall|asset: AssetId| #[trigger]
                amount(self@, asset) + amount(other@, asset) <= u64::MAX by {
                if other@.contains_key(asset) {
                    assert(has_key(keyed(other.values@), asset));
                    let j = choose|j: int|
                        0 <= j < keyed(other.values@).len() && (#[trigger] keyed(
                            other.values@,
                        )[j]).0 == asset;
                    assert(amount(self@, keyed(other.values@)[j].0) + keyed(other.values@)[j].1
                        <= u64::MAX);
                }
            }
        }
        true
    }

    /// Adds every quantity of `other`.
    pub fn add_values(&mut self, other: &Values)
        requires
            fits(old(self)@, other@),
        ensures
            final(self)@ == sum(old(self)@, other@),
            final(self).entries() == entries_with_all(old(self).entries(), other.entries()),
    {
        proof {
            use_type_invariant(other);
            lemma_entries_map(keyed(other.values@));
        }
        let ghost theirs = keyed(other.values@);
        let mut i: usize = 0;
        assert(theirs.take(0) =~= Seq::<(AssetId, u64)>::empty());
        assert(theirs.skip(0) =~= theirs);
        assert(self@ =~= sum(old(self)@, entries_map(theirs.take(0))));
        while i < other.values.len()
            invariant
                i <= other.values.len(),
                theirs == keyed(other.values@),
                distinct_keys(theirs),
                other@ == entries_map(theirs),
                fits(old(self)@, other@),
                forall|j: int|
                    0 <= j < theirs.len() ==> other@.contains_key((#[trigger] theirs[j]).0)
                        && other@[theirs[j].0] == theirs[j].1,
                self@ == sum(old(self)@, entries_map(theirs.take(i as int))),
                entries_with_all(old(self).entries(), theirs) == entries_with_all(
                    self.entries(),
                    theirs.skip(i as int),
                ),
            decreases other.values.len() - i,
        {
            let ghost done = theirs.take(i as int);
            let ghost asset = theirs[i as int].0;
            proof {
                assert(distinct_keys(done));
                lemma_entries_map(done);
                assert(!entries_map(done).contains_key(asset)) by {
                    if entries_map(done).contains_key(asset) {
                        assert(has_key(done, asset));
                        let j = choose|j: int| 0 <= j < done.len() && (#[trigger] done[j]).0 == asset;
                        assert(theirs[j].0 == asset);
                    }
                }
                assert(amount(self@, asset) == amount(old(self)@, asset));
                assert(amount(old(self)@, asset) + amount(other@, asset) <= u64::MAX);
                assert(other@.contains_key(theirs[i as int].0));
            }
            let ghost before = self@;
            proof {
                assert(theirs.skip(i as int)[0] == theirs[i as int]);
                assert(theirs.skip(i as int).drop_first() =~= theirs.skip(i + 1));
            }
            self.add_one_value(&other.values[i].0, other.values[i].1);
            proof {
                assert(theirs.take(i + 1).drop_last() =~= done);
                assert(theirs.take(i + 1).last() == theirs[i as int]);
                assert(self@ =~= sum(old(self)@, entries_map(theirs.take(i + 1))));
            }
            i += 1;
        }
        assert(theirs.take(theirs.len() as int) =~= theirs);
        assert(theirs.skip(theirs.len() as int) =~= Seq::<(AssetId, u64)>::empty());
    }

    /// Adds every quantity of `other` where each sum is a quantity. Where one
    /// is not, nothing changes.
    pub fn try_add_values(&mut self, other: &Values) -> (r: Result<(), Error>)
        ensures
            match r {
                Ok(_) => fits(old(self)@, other@) && final(self)@ == sum(old(self)@, other@)
                    && final(self).entries() == entries_with_all(
                    old(self).entries(),
                    other.entries(),
                ),
                Err(e) => e == Error::Arithmetic && !fits(old(self)@, other@) && final(self)@
                    == old(self)@ && final(self).entries() == old(self).entries(),
            },
    {
        if self.fits_with(other) {
            self.add_values(other);
            Ok(())
        } else {
            Err(Error::Arithmetic)
        }
    }

    /// Whether `self` holds at least as much as `other` of every asset.
    pub fn covers(&self, other: &Values) -> (r: bool)
        ensures
            r == covers(self@, other@),
    {
        proof {
            use_type_invariant(other);
            lemma_entries_map(keyed(other.values@));
        }
        let mut i: usize = 0;
        while i < other.values.len()
            invariant
                i <= other.values.len(),
                forall|j: int|
                    0 <= j < i ==> (#[trigger] keyed(other.values@)[j]).1 <= amount(
                        self@,
                        keyed(other.values@)[j].0,
                    ),
            decreases other.values.len() - i,
        {
            let held = self.amount_of(&other.values[i].0);
            if other.values[i].1 > held {
                proof {
                    use_type_invariant(other);
                    lemma_entries_map(keyed(other.values@));
                    let asset = keyed(other.values@)[i as int].0;
                    assert(other@.contains_key(asset));
                    assert(amount(other@, asset) > amount(self@, asset));
                }
                return false;
            }
            i += 1;
        }
        proof {
            assert forall|asset: AssetId| amount(other@, asset) <= #[trigger] amount(
                self@,
                asset,
            ) by {
                if other@.contains_key(asset) {
                    assert(has_key(keyed(other.values@), asset));
                    let j = choose|j: int|
                        0 <= j < keyed(other.values@).len() && (#[trigger] keyed(
                            other.values@,
                        )[j]).0 == asset;
                    assert(keyed(other.values@)[j].1 <= amount(self@, keyed(other.values@)[j].0));
                }
            }
        }
        true
    }

    /// Takes `other` out of `self`. This fails where `self` holds less than
    /// `other` of some asset. Where nothing is left of any asset there is no
    /// value to return, and the result is `None`; a value that is returned has
    /// no entry of quantity zero.
    pub fn try_subtract(&self, other: &Values) -> (r: Result<Option<Values>, Error>)
        ensures
            match r {
                Err(e) => e == Error::Arithmetic && !covers(self@, other@),
                Ok(None) => covers(self@, other@) && difference(self@, other@) == Map::<
                    AssetId,
                    u64,
                >::empty() && residue(self.entries(), other@) == Seq::<(AssetId, u64)>::empty(),
                Ok(Some(left)) => covers(self@, other@) && left@ == difference(self@, other@)
                    && left@ != Map::<AssetId, u64>::empty() && left.entries() == residue(
                    self.entries(),
                    other@,
                ),
            },
    {
        if !self.covers(other) {
            return Err(Error::Arithmetic);
        }
        proof {
            use_type_invariant(self);
            lemma_entries_map(keyed(self.values@));
        }
        let ghost mine = keyed(self.values@);
        let mut rest: Vec<(PolicyId, u64)> = Vec::new();
        let mut i: usize = 0;
        assert(mine.take(0) =~= Seq::<(AssetId, u64)>::empty());
        assert(entries_map(keyed(rest@)) =~= difference(entries_map(mine.take(0)), other@));
        while i < self.values.len()
            invariant
                i <= self.values.len(),
                mine == keyed(self.values@),
                distinct_keys(mine),
                distinct_keys(keyed(rest@)),
                entries_map(keyed(rest@)) == difference(entries_map(mine.take(i as int)), other@),
                keyed(rest@) == residue(mine.take(i as int), other@),
            decreases self.values.len() - i,
        {
            let ghost done = mine.take(i as int);
            let ghost asset = mine[i as int].0;
            let ghost kept = keyed(rest@);
            proof {
                assert(distinct_keys(done));
                lemma_entries_map(done);
                lemma_entries_map(kept);
                assert(!entries_map(done).contains_key(asset)) by {
                    if entries_map(done).contains_key(asset) {
                        assert(has_key(done, asset));
                        let j = choose|j: int| 0 <= j < done.len() && (#[trigger] done[j]).0 == asset;
                        assert(mine[j].0 == asset);
                    }
                }
                assert(mine.take(i + 1).drop_last() =~= done);
                assert(mine.take(i + 1).last() == mine[i as int]);
            }
            let taken = other.amount_of(&self.values[i].0);
            let held = self.values[i].1;
            if held > taken {
                rest.push((self.values[i].0.clone(), held - taken));
                proof {
                    let entry = (asset, (held - taken) as u64);
                    assert(keyed(rest@) =~= kept.push(entry));
                    lemma_entries_map_push(kept, entry);
                    assert(!entries_map(kept).contains_key(asset));
                    assert(distinct_keys(kept.push(entry))) by {
                        assert forall|a: int, b: int|
                            0 <= a < b < kept.push(entry).len() implies kept.push(entry)[a].0
                            != kept.push(entry)[b].0 by {
                            if b == kept.len() {
                                assert(entries_map(kept).contains_key(kept[a].0));
                            }
                        }
                    }
                    assert(entries_map(keyed(rest@)) =~= difference(
                        entries_map(mine.take(i + 1)),
                        other@,
                    ));
                }
            } else {
                assert(entries_map(keyed(rest@)) =~= difference(
                    entries_map(mine.take(i + 1)),
                    other@,
                ));
            }
            i += 1;
        }
        assert(mine.take(mine.len() as int) =~= mine);
        if rest.len() == 0 {
            Ok(None)
        } else {
            proof {
                lemma_entries_map(keyed(rest@));
                assert(entries_map(keyed(rest@)).contains_key(keyed(rest@)[0].0));
            }
            Ok(Some(Values { values: rest }))
        }
    }

    /// Whether `other` holds the same quantity as `self` of every asset of
    /// which `self` holds any.
    fn within(&self, other: &Values) -> (r: bool)
        ensures
            r == (forall|asset: AssetId| #[trigger]
                amount(self@, asset) > 0 ==> amount(other@, asset) == amount(self@, asset)),
    {
        proof {
            use_type_invariant(self);
            lemma_entries_map(keyed(self.values@));
        }
        let mut i: usize = 0;
        while i < self.values.len()
            invariant
                i <= self.values.len(),
                forall|j: int|
                    0 <= j < i && (#[trigger] keyed(self.values@)[j]).1 > 0 ==> amount(
                        other@,
                        keyed(self.values@)[j].0,
                    ) == keyed(self.values@)[j].1,
            decreases self.values.len() - i,
        {
            let held = self.values[i].1;
            if held > 0 && other.amount_of(&self.values[i].0) != held {
                proof {
                    use_type_invariant(self);
                    lemma_entries_map(keyed(self.values@));
                    let asset = keyed(self.values@)[i as int].0;
                    assert(self@.contains_key(asset));
                    assert(amount(self@, asset) > 0 && amount(other@, asset) != amount(
                        self@,
                        asset,
                    ));
                }
                return false;
            }
            i += 1;
        }
        proof {
            assert forall|asset: AssetId| #[trigger] amount(self@, asset) > 0 implies amount(
                other@,
                asset,
            ) == amount(self@, asset) by {
                assert(self@.contains_key(asset));
                assert(has_key(keyed(self.values@), asset));
                let j = choose|j: int|
                    0 <= j < keyed(self.values@).len() && (#[trigger] keyed(self.values@)[j]).0
                        == asset;
                assert(amount(other@, keyed(self.values@)[j].0) == keyed(self.values@)[j].1);
            }
        }
        true
    }
}

/// Two maps are equal once their entries of quantity zero are dropped exactly
/// when they hold the same quantity of every asset.
pub proof fn lemma_normalized_eq(a: Map<AssetId, u64>, b: Map<AssetId, u64>)
    ensures
        (normalized(a) == normalized(b)) <==> (forall|asset: AssetId| #[trigger]
            amount(a, asset) == amount(b, asset)),
{
    if forall|asset: AssetId| #[trigger] amount(a, asset) == amount(b, asset) {
        assert(normalized(a) =~= normalized(b));
    }
    if normalized(a) == normalized(b) {
        assert forall|asset: AssetId| #[trigger] amount(a, asset) == amount(b, asset) by {
            assert(normalized(a).contains_key(asset) == normalized(b).contains_key(asset));
            if amount(a, asset) > 0 {
                assert(normalized(a)[asset] == normalized(b)[asset]);
            }
        }
    }
}

impl Clone for Values {
    fn clone(&self) -> (r: Self)
        ensures
            r@ == self@,
            r.entries() == self.entries(),
    {
        proof {
            use_type_invariant(self);
        }
        let mut values: Vec<(PolicyId, u64)> = Vec::new();
        let mut i: usize = 0;
        while i < self.values.len()
            invariant
                i <= self.values.len(),
                values.len() == i,
                forall|j: int| 0 <= j < i ==> values[j].0@ == self.values[j].0@ && values[j].1
                    == self.values[j].1,
            decreases self.values.len() - i,
        {
            values.push((self.values[i].0.clone(), self.values[i].1));
            i += 1;
        }
        assert(keyed(values@) =~= keyed(self.values@));
        Values { values }
    }
}

impl PartialEq for Values {
    fn eq(&self, other: &Self) -> (r: bool) {
        let r = self.within(other) && other.within(self);
        proof {
            lemma_normalized_eq(self@, other@);
        }
        r
    }
}

impl PartialEqSpecImpl for Values {
    open spec fn obeys_eq_spec() -> bool {
        true
    }

    open spec fn eq_spec(&self, other: &Self) -> bool {
        normalized(self@) == normalized(other@)
    }
}

impl Default for Values {
    fn default() -> (r: Values)
        ensures
            r@ == Map::<AssetId, u64>::empty(),
            r.entries() == Seq::<(AssetId, u64)>::empty(),
    {
        Values::new()
    }
}

/// Taking `b` out of `a` and adding it again gives back the quantity that `a`
/// held of every asset.
pub proof fn lemma_subtract_then_add(a: Map<AssetId, u64>, b: Map<AssetId, u64>)
    requires
        covers(a, b),
    ensures
        fits(difference(a, b), b),
        forall|asset: AssetId| #[trigger]
            amount(sum(difference(a, b), b), asset) == amount(a, asset),
        normalized(sum(difference(a, b), b)) == normalized(a),
{
    let back = sum(difference(a, b), b);
    assert forall|asset: AssetId| #[trigger] amount(back, asset) == amount(a, asset) by {
        assert(amount(b, asset) <= amount(a, asset));
    }
    assert(fits(difference(a, b), b)) by {
        assert forall|asset: AssetId| #[trigger]
            amount(difference(a, b), asset) + amount(b, asset) <= u64::MAX by {
            assert(amount(b, asset) <= amount(a, asset));
        }
    }
    lemma_normalized_eq(back, a);
}

} // verus!
