//! One side of an order book: price levels, ordered by the key of their price.

use std::collections::BTreeMap;

use vstd::arithmetic::power::pow;
use vstd::prelude::*;
use vstd::std_specs::btree::*;
use vstd::string::*;

use crate::text::Text;
use crate::types;
use crate::types::{is_zero_decimal, parse_decimal_key};

verus! {

broadcast use group_btree_axioms;

/// A price and the quantity that is offered at it, both as they were written.
pub struct BookLevel {
    pub price: String,
    pub qty: String,
}

/// What a price level holds.
pub struct LevelView {
    pub price: Text,
    pub qty: Text,
}

impl View for BookLevel {
    type V = LevelView;

    open spec fn view(&self) -> LevelView {
        LevelView { price: self.price@, qty: self.qty@ }
    }
}

/// What one side of a book holds.
pub open spec fn side_view(levels: Map<i64, BookLevel>) -> Map<i64, LevelView> {
    levels.map_values(|l: BookLevel| l@)
}

/// The key of a price, in units of which `scale` make one.
pub open spec fn price_key(price: Text, scale: int) -> i64 {
    types::decimal_key(vstd::utf8::encode_utf8(price), scale) as i64
}

/// A quantity that removes its level.
pub open spec fn removes(qty: Text) -> bool {
    types::is_zero(vstd::utf8::encode_utf8(qty))
}

/// A side after one level was set.
pub open spec fn with_level(
    side: Map<i64, LevelView>,
    scale: int,
    price: Text,
    qty: Text,
) -> Map<i64, LevelView> {
    side.insert(price_key(price, scale), LevelView { price, qty })
}

/// A side after one level was changed: set, or removed where its quantity is zero.
pub open spec fn changed(
    side: Map<i64, LevelView>,
    scale: int,
    price: Text,
    qty: Text,
) -> Map<i64, LevelView> {
    if removes(qty) {
        side.remove(price_key(price, scale))
    } else {
        with_level(side, scale, price, qty)
    }
}

/// Sets one level.
pub fn set_level(side: &mut BTreeMap<i64, BookLevel>, scale: i64, price: &str, qty: &str)
    ensures
        side_view(final(side)@) == with_level(side_view(old(side)@), scale as int, price@, qty@),
{
    let key: i64 = parse_decimal_key(price, scale);
    side.insert(key, BookLevel { price: price.to_owned(), qty: qty.to_owned() });
    assert(side_view(side@) =~= with_level(side_view(old(side)@), scale as int, price@, qty@));
}

/// Changes one level: sets it, or removes it where its quantity is zero.
pub fn change_level(side: &mut BTreeMap<i64, BookLevel>, scale: i64, price: &str, qty: &str)
    ensures
        side_view(final(side)@) == changed(side_view(old(side)@), scale as int, price@, qty@),
{
    if is_zero_decimal(qty) {
        let key: i64 = parse_decimal_key(price, scale);
        side.remove(&key);
        assert(side_view(side@) =~= side_view(old(side)@).remove(key));
    } else {
        set_level(side, scale, price, qty);
    }
}

/// Keys in strictly ascending order.
pub open spec fn increasing(keys: Seq<i64>) -> bool {
    forall|i: int, j: int| 0 <= i < j < keys.len() ==> keys[i] < keys[j]
}

/// The keys of `d`, each once, in ascending order.
pub open spec fn enumerates(keys: Seq<i64>, d: Set<i64>) -> bool {
    increasing(keys) && keys.to_set() == d
}

/// The keys of `d` in ascending order.
pub open spec fn sorted_keys(d: Set<i64>) -> Seq<i64> {
    choose|keys: Seq<i64>| enumerates(keys, d)
}

/// The levels of a side, lowest price first.
pub open spec fn ascending(side: Map<i64, LevelView>) -> Seq<LevelView> {
    sorted_keys(side.dom()).map_values(|k: i64| side[k])
}

/// The levels of a side, highest price first.
pub open spec fn descending(side: Map<i64, LevelView>) -> Seq<LevelView> {
    ascending(side).reverse()
}

/// There is only one way to list keys in ascending order.
pub proof fn enumeration_is_unique(a: Seq<i64>, b: Seq<i64>, d: Set<i64>)
    requires
        enumerates(a, d),
        enumerates(b, d),
    ensures
        a == b,
    decreases a.len(),
{
    if a.len() == 0 {
        if b.len() > 0 {
            assert(b.to_set().contains(b[0]));
            assert(a.to_set().contains(b[0]));
        }
        assert(a =~= b);
    } else {
        assert(a.to_set().contains(a[0]));
        assert(b.to_set().contains(a[0]));
        let i = b.index_of(a[0]);
        assert(b.to_set().contains(b[0]));
        assert(a.to_set().contains(b[0]));
        let j = a.index_of(b[0]);
        assert(a[0] <= a[j]);
        assert(b[0] <= b[i]);
        assert(a[0] == b[0]);
        let rest = d.remove(a[0]);
        assert(a.drop_first().to_set() =~= rest) by {
            assert forall|k: i64| a.drop_first().to_set().contains(k) <==> rest.contains(k) by {
                if a.drop_first().contains(k) {
                    let x = a.drop_first().index_of(k);
                    assert(a[x + 1] == k);
                    assert(a.to_set().contains(k));
                }
                if rest.contains(k) {
                    assert(a.to_set().contains(k));
                    let x = a.index_of(k);
                    assert(x > 0);
                    assert(a.drop_first()[x - 1] == k);
                }
            }
        }
        assert(b.drop_first().to_set() =~= rest) by {
            assert forall|k: i64| b.drop_first().to_set().contains(k) <==> rest.contains(k) by {
                if b.drop_first().contains(k) {
                    let x = b.drop_first().index_of(k);
                    assert(b[x + 1] == k);
                    assert(b.to_set().contains(k));
                }
                if rest.contains(k) {
                    assert(b.to_set().contains(k));
                    let x = b.index_of(k);
                    assert(x > 0);
                    assert(b.drop_first()[x - 1] == k);
                }
            }
        }
        enumeration_is_unique(a.drop_first(), b.drop_first(), rest);
        assert(a =~= seq![a[0]] + a.drop_first());
        assert(b =~= seq![b[0]] + b.drop_first());
    }
}

proof fn lemma_increasing(keys: Seq<i64>)
    requires
        increasing_seq(keys),
    ensures
        increasing(keys),
{
    assert forall|i: int, j: int| 0 <= i < j < keys.len() implies keys[i] < keys[j] by {
        assert(vstd::std_specs::cmp::OrdSpec::cmp_spec(&keys[i], &keys[j]) is Less);
    }
}

/// What a list of levels holds.
pub open spec fn levels_view(levels: Seq<BookLevel>) -> Seq<LevelView> {
    levels.map_values(|l: BookLevel| l@)
}

/// Lists the levels of a side, lowest price first.
pub fn list_ascending(side: &BTreeMap<i64, BookLevel>) -> (levels: Vec<BookLevel>)
    ensures
        levels_view(levels@) == ascending(side_view(side@)),
        levels@.len() == side@.dom().len(),
{
    let mut levels: Vec<BookLevel> = Vec::new();
    let ghost mut keys: Seq<i64> = seq![];
    let walk: std::collections::btree_map::Iter<'_, i64, BookLevel> = side.iter();
    assert(increasing_seq(
        vstd::std_specs::iter::IteratorSpec::remaining(&walk).map_values(
            |kv: (&i64, &BookLevel)| *kv.0,
        ),
    ));
    for (k, l) in it: walk
        invariant
            keys.len() == it.index(),
            levels@.len() == it.index(),
            forall|i: int| 0 <= i < it.index() ==> keys[i] == *it.seq()[i].0,
            forall|i: int|
                0 <= i < it.index() ==> #[trigger] levels@[i]@ == (*it.seq()[i].1)@,
    {
        levels.push(BookLevel { price: l.price.clone(), qty: l.qty.clone() });
        proof {
            keys = keys.push(*k);
        }
    }
    proof {
        let all = vstd::std_specs::iter::IteratorSpec::remaining(&spec_btree_map_iter(side));
        assert(keys =~= all.map_values(|kv: (&i64, &BookLevel)| *kv.0));
        lemma_increasing(keys);
        assert(keys.to_set() =~= side@.dom()) by {
            assert forall|k: i64| keys.to_set().contains(k) <==> side@.dom().contains(k) by {
                if keys.contains(k) {
                    let i = keys.index_of(k);
                    assert(side@.contains_key(*all[i].0));
                }
                if side@.contains_key(k) {
                    let i = all.index_of((&k, &side@[k]));
                    assert(keys[i] == k);
                }
            }
        }
        let dom = side_view(side@).dom();
        assert(dom =~= side@.dom());
        assert(enumerates(keys, dom));
        enumeration_is_unique(keys, sorted_keys(dom), dom);
        assert(levels_view(levels@) =~= ascending(side_view(side@))) by {
            assert forall|i: int| 0 <= i < levels@.len() implies levels_view(levels@)[i]
                == ascending(side_view(side@))[i] by {
                assert(levels@[i]@ == (*all[i].1)@);
                assert(side@.contains_key(*all[i].0));
                assert(side@[*all[i].0] == *all[i].1);
            }
        }
    }
    levels
}


/// A finite set of keys can be listed in ascending order.
pub proof fn enumeration_exists(d: Set<i64>)
    requires
        d.finite(),
    ensures
        enumerates(sorted_keys(d), d),
    decreases d.len(),
{
    if d.len() == 0 {
        let none: Seq<i64> = seq![];
        assert(none.to_set() =~= d);
        assert(enumerates(none, d));
    } else {
        let top = highest(d);
        lemma_highest(d);
        let rest = d.remove(top);
        enumeration_exists(rest);
        let below = sorted_keys(rest);
        let keys = below.push(top);
        assert forall|i: int, j: int| 0 <= i < j < keys.len() implies keys[i] < keys[j] by {
            if j == below.len() {
                assert(below.to_set().contains(below[i]));
            }
        }
        assert(keys.to_set() =~= d) by {
            assert forall|k: i64| keys.to_set().contains(k) <==> d.contains(k) by {
                if keys.contains(k) {
                    let i = keys.index_of(k);
                    if i < below.len() {
                        assert(below.to_set().contains(below[i]));
                    }
                }
                if d.contains(k) && k != top {
                    assert(below.to_set().contains(k));
                    let i = below.index_of(k);
                    assert(keys[i] == k);
                }
                if k == top {
                    assert(keys[below.len() as int] == top);
                }
            }
        }
        assert(enumerates(keys, d));
    }
}

/// The highest key of a set.
pub open spec fn highest(d: Set<i64>) -> i64 {
    choose|k: i64| d.contains(k) && forall|o: i64| d.contains(o) ==> o <= k
}

proof fn lemma_highest(d: Set<i64>)
    requires
        d.finite(),
        d.len() > 0,
    ensures
        d.contains(highest(d)),
        forall|o: i64| d.contains(o) ==> o <= highest(d),
    decreases d.len(),
{
    let any = d.choose();
    let rest = d.remove(any);
    if rest.len() == 0 {
        assert forall|o: i64| d.contains(o) implies o <= any by {
            if o != any {
                assert(rest.contains(o));
                vstd::set_lib::lemma_set_empty_equivalency_len(rest);
            }
        }
        assert(d.contains(any) && forall|o: i64| d.contains(o) ==> o <= any);
    } else {
        lemma_highest(rest);
        let k = if highest(rest) >= any { highest(rest) } else { any };
        assert forall|o: i64| d.contains(o) implies o <= k by {
            if o != any {
                assert(rest.contains(o));
            }
        }
        assert(d.contains(k) && forall|o: i64| d.contains(o) ==> o <= k);
    }
}

/// Listed in ascending order, each level of a side comes once, the one with the lowest
/// key first and the one with the highest key last.
pub proof fn listing_is_sorted(side: Map<i64, LevelView>)
    requires
        side.dom().finite(),
    ensures
        ascending(side).len() == side.dom().len(),
        increasing(sorted_keys(side.dom())),
        forall|i: int|
            0 <= i < ascending(side).len() ==> side.contains_pair(
                sorted_keys(side.dom())[i],
                #[trigger] ascending(side)[i],
            ),
        forall|k: i64|
            #[trigger] side.contains_key(k) ==> sorted_keys(side.dom())[0] <= k <= sorted_keys(
                side.dom(),
            ).last(),
{
    let d = side.dom();
    enumeration_exists(d);
    let keys = sorted_keys(d);
    assert(keys.no_duplicates());
    keys.unique_seq_to_set();
    assert forall|i: int| 0 <= i < ascending(side).len() implies side.contains_pair(
        keys[i],
        #[trigger] ascending(side)[i],
    ) by {
        assert(keys.to_set().contains(keys[i]));
    }
    assert forall|k: i64| #[trigger] side.contains_key(k) implies keys[0] <= k <= keys.last() by {
        assert(keys.to_set().contains(k));
        let i = keys.index_of(k);
        assert(keys[i] == k);
    }
}

/// Changing one level leaves all others as they were; a level whose quantity is zero is
/// gone, any other one is there with its quantity.
pub proof fn change_touches_one_level(
    side: Map<i64, LevelView>,
    scale: int,
    price: Text,
    qty: Text,
    other: i64,
)
    ensures
        other != price_key(price, scale) ==> (changed(side, scale, price, qty).contains_key(other)
            <==> side.contains_key(other)) && (side.contains_key(other) ==> changed(
            side,
            scale,
            price,
            qty,
        )[other] == side[other]),
        removes(qty) ==> !changed(side, scale, price, qty).contains_key(price_key(price, scale)),
        !removes(qty) ==> changed(side, scale, price, qty).contains_pair(
            price_key(price, scale),
            LevelView { price, qty },
        ),
{
}

/// A level that was set and then removed leaves the side as it was without it.
pub proof fn removal_undoes_setting(
    side: Map<i64, LevelView>,
    scale: int,
    price: Text,
    qty: Text,
    zero: Text,
)
    requires
        !side.contains_key(price_key(price, scale)),
        removes(zero),
    ensures
        changed(changed(side, scale, price, qty), scale, price, zero) == side,
{
    assert(changed(changed(side, scale, price, qty), scale, price, zero) =~= side);
}

/// The key of a plain price counts it in units of which ten to some power make one, rounded
/// down.
pub proof fn keys_count_units(price: Text, k: nat)
    ensures
        ({
            let bytes = vstd::utf8::encode_utf8(price);
            price_key(price, pow(10, k)) == types::clamped(
                types::units(bytes) * pow(10, k) / pow(10, types::places(bytes)),
            )
        }),
{
    types::key_counts_units(vstd::utf8::encode_utf8(price), k);
}

/// A quantity removes its level exactly where it is written with nothing but zeros and points.
pub proof fn only_zero_removes(qty: Text)
    ensures
        removes(qty) <==> forall|k: int|
            0 <= k < vstd::utf8::encode_utf8(qty).len() ==> #[trigger] vstd::utf8::encode_utf8(
                qty,
            )[k] == 48 || vstd::utf8::encode_utf8(qty)[k] == 46,
{
}

/// The entry at a place is the last one with a key.
pub open spec fn decides(entries: Seq<(Text, Text)>, scale: int, key: i64, i: int) -> bool {
    &&& 0 <= i < entries.len()
    &&& price_key(entries[i].0, scale) == key
    &&& forall|j: int| i < j < entries.len() ==> price_key((#[trigger] entries[j]).0, scale) != key
}

/// No entry has a key.
pub open spec fn silent(entries: Seq<(Text, Text)>, scale: int, key: i64) -> bool {
    forall|j: int| 0 <= j < entries.len() ==> price_key((#[trigger] entries[j]).0, scale) != key
}

/// Two sides show the same under a key.
pub open spec fn alike(a: Map<i64, LevelView>, b: Map<i64, LevelView>, key: i64) -> bool {
    a.contains_key(key) == b.contains_key(key) && (a.contains_key(key) ==> a[key] == b[key])
}

/// What a side shows under a key once entries have changed it: the price and the quantity of the
/// last entry with the key, no level where that quantity is zero, and what it showed before where
/// there is no such entry.
pub open spec fn shows_changes(
    before: Map<i64, LevelView>,
    after: Map<i64, LevelView>,
    entries: Seq<(Text, Text)>,
    scale: int,
    key: i64,
) -> bool {
    &&& forall|i: int| #[trigger]
        decides(entries, scale, key, i) ==> if removes(entries[i].1) {
            !after.contains_key(key)
        } else {
            after.contains_pair(key, LevelView { price: entries[i].0, qty: entries[i].1 })
        }
    &&& silent(entries, scale, key) ==> alike(before, after, key)
}

/// The keys of a side from the lowest to the highest, each once.
pub open spec fn rises_over(keys: Seq<i64>, side: Map<i64, LevelView>) -> bool {
    &&& forall|i: int, j: int| 0 <= i < j < keys.len() ==> keys[i] < keys[j]
    &&& forall|i: int| 0 <= i < keys.len() ==> side.contains_key(#[trigger] keys[i])
    &&& forall|k: i64| #[trigger] side.contains_key(k) ==> keys.contains(k)
}

/// Listed either way, every level of a side comes once: from the lowest key to the highest, or
/// from the highest to the lowest.
pub proof fn levels_are_listed_by_price(side: Map<i64, LevelView>)
    requires
        side.dom().finite(),
    ensures
        exists|keys: Seq<i64>|
            #![trigger rises_over(keys, side)]
            {
                let n = keys.len() as int;
                &&& rises_over(keys, side)
                &&& ascending(side).len() == n
                &&& descending(side).len() == n
                &&& forall|i: int|
                    0 <= i < n ==> #[trigger] ascending(side)[i] == side[keys[i]]
                &&& forall|i: int|
                    0 <= i < n ==> #[trigger] descending(side)[i] == side[keys[n - 1 - i]]
            },
{
    listing_is_sorted(side);
    enumeration_exists(side.dom());
    let keys = sorted_keys(side.dom());
    assert forall|i: int| 0 <= i < keys.len() implies side.contains_key(#[trigger] keys[i]) by {
        assert(keys.to_set().contains(keys[i]));
    }
    assert forall|k: i64| #[trigger] side.contains_key(k) implies keys.contains(k) by {
        assert(keys.to_set().contains(k));
    }
    assert(rises_over(keys, side));
}

/// A level of a side with the lowest key.
pub open spec fn is_lowest(side: Map<i64, LevelView>, l: LevelView) -> bool {
    exists|k: i64| #[trigger]
        side.contains_pair(k, l) && forall|o: i64| #[trigger] side.contains_key(o) ==> k <= o
}

/// A level of a side with the highest key.
pub open spec fn is_highest(side: Map<i64, LevelView>, l: LevelView) -> bool {
    exists|k: i64| #[trigger]
        side.contains_pair(k, l) && forall|o: i64| #[trigger] side.contains_key(o) ==> o <= k
}

/// The first level of a listing is the best one: the lowest where the listing rises, the highest
/// where it falls. A listing is empty only where the side is.
pub proof fn first_levels_are_best(side: Map<i64, LevelView>)
    requires
        side.dom().finite(),
    ensures
        ascending(side).len() == 0 <==> (forall|k: i64| !side.contains_key(k)),
        descending(side).len() == 0 <==> (forall|k: i64| !side.contains_key(k)),
        ascending(side).len() > 0 ==> is_lowest(side, ascending(side)[0]),
        descending(side).len() > 0 ==> is_highest(side, descending(side)[0]),
{
    levels_are_listed_by_price(side);
    let keys = choose|keys: Seq<i64>|
        #![trigger rises_over(keys, side)]
        {
            let n = keys.len() as int;
            &&& rises_over(keys, side)
            &&& ascending(side).len() == n
            &&& descending(side).len() == n
            &&& forall|i: int| 0 <= i < n ==> #[trigger] ascending(side)[i] == side[keys[i]]
            &&& forall|i: int|
                0 <= i < n ==> #[trigger] descending(side)[i] == side[keys[n - 1 - i]]
        };
    let n = keys.len() as int;
    if n > 0 {
        assert(side.contains_pair(keys[0], ascending(side)[0]));
        assert(side.contains_pair(keys[n - 1], descending(side)[0]));
        assert forall|o: i64| #[trigger] side.contains_key(o) implies keys[0] <= o <= keys[n - 1] by {
            let i = keys.index_of(o);
            assert(keys[i] == o);
        }
    } else {
        assert forall|k: i64| !side.contains_key(k) by {
            if side.contains_key(k) {
                assert(keys.contains(k));
            }
        }
    }
}

/// The price of a level of a side with the lowest key.
pub open spec fn is_lowest_price(side: Map<i64, LevelView>, price: Text) -> bool {
    exists|k: i64| #[trigger]
        side.contains_key(k) && side[k].price == price && forall|o: i64| #[trigger]
            side.contains_key(o) ==> k <= o
}

/// The price of a level of a side with the highest key.
pub open spec fn is_highest_price(side: Map<i64, LevelView>, price: Text) -> bool {
    exists|k: i64| #[trigger]
        side.contains_key(k) && side[k].price == price && forall|o: i64| #[trigger]
            side.contains_key(o) ==> o <= k
}

/// The prices of the first levels of a listing are the lowest and the highest one.
pub proof fn best_prices_are_those_of_best_levels(side: Map<i64, LevelView>)
    requires
        side.dom().finite(),
    ensures
        ascending(side).len() == 0 <==> side.dom().len() == 0,
        descending(side).len() == 0 <==> side.dom().len() == 0,
        ascending(side).len() > 0 ==> is_lowest_price(side, ascending(side)[0].price),
        descending(side).len() > 0 ==> is_highest_price(side, descending(side)[0].price),
{
    first_levels_are_best(side);
    listing_is_sorted(side);
    if ascending(side).len() > 0 {
        let l = ascending(side)[0];
        let k = choose|k: i64| #[trigger]
            side.contains_pair(k, l) && forall|o: i64| #[trigger] side.contains_key(o) ==> k <= o;
        assert(side.contains_key(k) && side[k].price == l.price);
        let h = descending(side)[0];
        let m = choose|m: i64| #[trigger]
            side.contains_pair(m, h) && forall|o: i64| #[trigger] side.contains_key(o) ==> o <= m;
        assert(side.contains_key(m) && side[m].price == h.price);
    }
}

/// A side after entries were applied in their order.
pub open spec fn after_all(
    side: Map<i64, LevelView>,
    entries: Seq<(Text, Text)>,
    scale: int,
) -> Map<i64, LevelView>
    decreases entries.len(),
{
    if entries.len() == 0 {
        side
    } else {
        changed(
            after_all(side, entries.drop_last(), scale),
            scale,
            entries.last().0,
            entries.last().1,
        )
    }
}

/// Entries that are applied one after another are all shown: the last one with a key decides.
pub proof fn applied_entries_are_shown(
    side: Map<i64, LevelView>,
    entries: Seq<(Text, Text)>,
    scale: int,
    key: i64,
)
    ensures
        shows_changes(side, after_all(side, entries, scale), entries, scale, key),
    decreases entries.len(),
{
    if entries.len() > 0 {
        let fewer = entries.drop_last();
        applied_entries_are_shown(side, fewer, scale, key);
        let n = entries.len() - 1;
        assert(entries[n] == entries.last());
        let after = after_all(side, entries, scale);
        assert forall|i: int| #[trigger] decides(entries, scale, key, i) implies (if removes(
            entries[i].1,
        ) {
            !after.contains_key(key)
        } else {
            after.contains_pair(key, LevelView { price: entries[i].0, qty: entries[i].1 })
        }) by {
            if i < n {
                assert(price_key(entries[n].0, scale) != key);
                assert(fewer[i] == entries[i]);
                assert forall|j: int| i < j < fewer.len() implies price_key(
                    (#[trigger] fewer[j]).0,
                    scale,
                ) != key by {
                    assert(entries[j] == fewer[j]);
                }
                assert(decides(fewer, scale, key, i));
            }
        }
        if silent(entries, scale, key) {
            assert(price_key(entries[n].0, scale) != key);
            assert forall|j: int| 0 <= j < fewer.len() implies price_key(
                (#[trigger] fewer[j]).0,
                scale,
            ) != key by {
                assert(entries[j] == fewer[j]);
            }
        }
    }
}

} // verus!
