//! How much is bonded to each validator: a list of addresses and amounts, kept in
//! the order of the addresses and without repetitions.

use vstd::prelude::*;

use crate::order::{
    comes_before, precedes, precedes_irreflexive, precedes_total, precedes_transitive,
};

verus! {

/// The amounts by address. Of several entries for one address the last one counts.
pub open spec fn stake_map(entries: Seq<(String, u128)>) -> Map<Seq<char>, int>
    decreases entries.len(),
{
    if entries.len() == 0 {
        Map::empty()
    } else {
        stake_map(entries.drop_last()).insert(entries.last().0@, entries.last().1 as int)
    }
}

/// The addresses ascend strictly.
pub open spec fn ascending(entries: Seq<(String, u128)>) -> bool {
    forall|i: int, j: int|
        0 <= i < j < entries.len() ==> precedes(#[trigger] entries[i].0@, #[trigger] entries[j].0@)
}

/// What is bonded to `address`, nothing if it does not occur.
pub open spec fn stake_of(stakes: Map<Seq<char>, int>, address: Seq<char>) -> int {
    if stakes.contains_key(address) {
        stakes[address]
    } else {
        0
    }
}

/// The stakes that are not zero.
pub open spec fn without_zeros(stakes: Map<Seq<char>, int>) -> Map<Seq<char>, int> {
    Map::new(|k: Seq<char>| stakes.contains_key(k) && stakes[k] != 0, |k: Seq<char>| stakes[k])
}

/// The sum of all amounts of a list.
pub open spec fn entries_total(entries: Seq<(String, u128)>) -> int
    decreases entries.len(),
{
    if entries.len() == 0 {
        0
    } else {
        entries_total(entries.drop_last()) + entries.last().1
    }
}

/// The sum of all stakes.
pub open spec fn stakes_total(stakes: Map<Seq<char>, int>) -> int
    decreases stakes.dom().len(),
{
    if stakes.dom().finite() && stakes.dom().len() > 0 {
        let k = stakes.dom().choose();
        stakes[k] + stakes_total(stakes.remove(k))
    } else {
        0
    }
}

/// A stake can be taken out of the sum.
pub proof fn stakes_total_remove(stakes: Map<Seq<char>, int>, key: Seq<char>)
    requires
        stakes.dom().finite(),
        stakes.contains_key(key),
    ensures
        stakes_total(stakes) == stakes[key] + stakes_total(stakes.remove(key)),
    decreases stakes.dom().len(),
{
    let k = stakes.dom().choose();
    assert(stakes.dom().contains(k));
    if k != key {
        let rest = stakes.remove(k);
        stakes_total_remove(rest, key);
        stakes_total_remove(stakes.remove(key), k);
        assert(rest.remove(key) =~= stakes.remove(key).remove(k));
    }
}

/// Setting a stake changes the sum by the difference.
pub proof fn stakes_total_insert(stakes: Map<Seq<char>, int>, key: Seq<char>, value: int)
    requires
        stakes.dom().finite(),
    ensures
        stakes_total(stakes.insert(key, value)) == stakes_total(stakes) - stake_of(stakes, key)
            + value,
        stakes.insert(key, value).dom().finite(),
{
    stakes_total_remove(stakes.insert(key, value), key);
    assert(stakes.insert(key, value).remove(key) =~= stakes.remove(key));
    if stakes.contains_key(key) {
        stakes_total_remove(stakes, key);
    } else {
        assert(stakes.remove(key) =~= stakes);
    }
}

/// Stakes of zero do not count.
pub proof fn stakes_total_without_zeros(stakes: Map<Seq<char>, int>)
    requires
        stakes.dom().finite(),
    ensures
        without_zeros(stakes).dom().finite(),
        stakes_total(without_zeros(stakes)) == stakes_total(stakes),
    decreases stakes.dom().len(),
{
    assert(without_zeros(stakes).dom().subset_of(stakes.dom()));
    vstd::set_lib::lemma_len_subset(without_zeros(stakes).dom(), stakes.dom());
    if stakes.dom().len() == 0 {
        assert(without_zeros(stakes).dom() =~= Set::empty());
    } else {
        let k = stakes.dom().choose();
        assert(stakes.dom().contains(k));
        let rest = stakes.remove(k);
        stakes_total_without_zeros(rest);
        if stakes[k] == 0 {
            assert(without_zeros(stakes) =~= without_zeros(rest));
        } else {
            stakes_total_remove(without_zeros(stakes), k);
            assert(without_zeros(stakes).remove(k) =~= without_zeros(rest));
        }
    }
}

/// The map of a list without repetitions holds exactly its entries.
pub proof fn stake_map_entries(entries: Seq<(String, u128)>)
    requires
        ascending(entries),
    ensures
        stake_map(entries).dom().finite(),
        forall|i: int|
            0 <= i < entries.len() ==> #[trigger] stake_map(entries).contains_key(entries[i].0@)
                && stake_map(entries)[entries[i].0@] == entries[i].1,
        forall|k: Seq<char>| #[trigger]
            stake_map(entries).contains_key(k) ==> exists|i: int|
                0 <= i < entries.len() && #[trigger] entries[i].0@ == k,
        stakes_total(stake_map(entries)) == entries_total(entries),
    decreases entries.len(),
{
    if entries.len() > 0 {
        let front = entries.drop_last();
        let last = entries.last();
        assert(forall|i: int| 0 <= i < front.len() ==> front[i] == entries[i]);
        stake_map_entries(front);
        let m = stake_map(front);
        assert(!m.contains_key(last.0@)) by {
            if m.contains_key(last.0@) {
                let i = choose|i: int| 0 <= i < front.len() && #[trigger] front[i].0@ == last.0@;
                assert(precedes(entries[i].0@, entries[entries.len() - 1].0@));
                precedes_irreflexive(last.0@);
            }
        }
        stakes_total_insert(m, last.0@, last.1 as int);
        assert forall|i: int| 0 <= i < entries.len() implies #[trigger] stake_map(
            entries,
        ).contains_key(entries[i].0@) && stake_map(entries)[entries[i].0@] == entries[i].1 by {
            if i < front.len() {
                assert(front[i] == entries[i]);
                assert(m.contains_key(front[i].0@));
            }
        }
        assert forall|k: Seq<char>| #[trigger] stake_map(entries).contains_key(k) implies exists|
            i: int,
        |
            0 <= i < entries.len() && #[trigger] entries[i].0@ == k by {
            if k == last.0@ {
                assert(entries[entries.len() - 1].0@ == k);
            } else {
                assert(m.contains_key(k));
                let i = choose|i: int| 0 <= i < front.len() && #[trigger] front[i].0@ == k;
                assert(entries[i].0@ == k);
            }
        }
    } else {
        assert(stake_map(entries).dom() =~= Set::empty());
    }
}

/// The map of any list is finite, and none of its stakes is negative.
pub proof fn stake_map_finite(entries: Seq<(String, u128)>)
    ensures
        stake_map(entries).dom().finite(),
        forall|k: Seq<char>| #[trigger]
            stake_map(entries).contains_key(k) ==> stake_map(entries)[k] >= 0,
    decreases entries.len(),
{
    if entries.len() > 0 {
        stake_map_finite(entries.drop_last());
    } else {
        assert(stake_map(entries).dom() =~= Set::empty());
    }
}

/// The place of `address` in the list: its index if it occurs, else where it belongs.
fn place(entries: &Vec<(String, u128)>, address: &String) -> (r: (usize, bool))
    requires
        ascending(entries@),
    ensures
        r.0 <= entries@.len(),
        forall|i: int| 0 <= i < r.0 ==> precedes(#[trigger] entries@[i].0@, address@),
        r.1 ==> r.0 < entries@.len() && entries@[r.0 as int].0@ == address@,
        !r.1 ==> forall|i: int|
            r.0 <= i < entries@.len() ==> precedes(address@, #[trigger] entries@[i].0@),
{
    let mut i: usize = 0;
    while i < entries.len()
        invariant
            i <= entries@.len(),
            ascending(entries@),
            forall|j: int| 0 <= j < i ==> precedes(#[trigger] entries@[j].0@, address@),
        decreases entries@.len() - i,
    {
        let here = &entries[i].0;
        if *here == *address {
            return (i, true);
        }
        if comes_before(address.as_str(), here.as_str()) {
            assert forall|j: int| i <= j < entries@.len() implies precedes(
                address@,
                #[trigger] entries@[j].0@,
            ) by {
                if j > i {
                    assert(precedes(entries@[i as int].0@, entries@[j].0@));
                    precedes_transitive(address@, entries@[i as int].0@, entries@[j].0@);
                }
            }
            return (i, false);
        }
        proof {
            precedes_total(here@, address@);
        }
        i += 1;
    }
    (i, false)
}

/// What is bonded to `address`.
pub fn stake(entries: &Vec<(String, u128)>, address: &String) -> (r: Option<u128>)
    requires
        ascending(entries@),
    ensures
        match r {
            Some(amount) => stake_map(entries@).contains_key(address@) && stake_map(
                entries@,
            )[address@] == amount,
            None => !stake_map(entries@).contains_key(address@),
        },
{
    let (at, found) = place(entries, address);
    proof {
        stake_map_entries(entries@);
        if !found && stake_map(entries@).contains_key(address@) {
            let i = choose|i: int|
                0 <= i < entries@.len() && #[trigger] entries@[i].0@ == address@;
            precedes_irreflexive(address@);
        }
    }
    if found {
        Some(entries[at].1)
    } else {
        None
    }
}

/// Sets what is bonded to `address`.
pub fn set_stake(entries: &mut Vec<(String, u128)>, address: &String, amount: u128)
    requires
        ascending(old(entries)@),
    ensures
        ascending(final(entries)@),
        stake_map(final(entries)@) == stake_map(old(entries)@).insert(address@, amount as int),
{
    let (at, found) = place(entries, address);
    let ghost before = entries@;
    if found {
        entries.set(at, (address.clone(), amount));
        assert(entries@ == before.update(at as int, entries@[at as int]));
    } else {
        entries.insert(at, (address.clone(), amount));
    }
    proof {
        assert forall|i: int, j: int| 0 <= i < j < entries@.len() implies precedes(
            #[trigger] entries@[i].0@,
            #[trigger] entries@[j].0@,
        ) by {
            if found {
                assert(precedes(before[i].0@, before[j].0@));
            } else if i < at && j > at {
                assert(precedes(before[i].0@, before[j - 1].0@));
            } else if i > at {
                assert(precedes(before[i - 1].0@, before[j - 1].0@));
            } else if j < at {
                assert(precedes(before[i].0@, before[j].0@));
            } else if i == at {
                assert(precedes(address@, before[j - 1].0@));
            } else {
                assert(precedes(before[i].0@, address@));
            }
        }
        stake_map_entries(before);
        stake_map_entries(entries@);
        let m = stake_map(before);
        let n = stake_map(entries@);
        assert forall|k: Seq<char>| n.contains_key(k) implies m.insert(
            address@,
            amount as int,
        ).contains_key(k) && n[k] == m.insert(address@, amount as int)[k] by {
            let i = choose|i: int| 0 <= i < entries@.len() && #[trigger] entries@[i].0@ == k;
            if i == at {
            } else if found || i < at {
                assert(before[i] == entries@[i]);
                assert(m.contains_key(before[i].0@));
                if k == address@ {
                    precedes_irreflexive(k);
                    assert(i < at ==> precedes(entries@[i].0@, entries@[at as int].0@));
                    assert(i > at ==> precedes(entries@[at as int].0@, entries@[i].0@));
                }
            } else {
                assert(before[i - 1] == entries@[i]);
                assert(m.contains_key(before[i - 1].0@));
                if k == address@ {
                    precedes_irreflexive(k);
                    assert(precedes(entries@[at as int].0@, entries@[i].0@));
                }
            }
        }
        assert forall|k: Seq<char>| #[trigger] m.insert(address@, amount as int).contains_key(
            k,
        ) implies n.contains_key(k) by {
            if k == address@ {
                assert(entries@[at as int].0@ == address@);
            } else {
                let i = choose|i: int| 0 <= i < before.len() && #[trigger] before[i].0@ == k;
                if found || i < at {
                    assert(entries@[i].0@ == k);
                } else {
                    assert(entries@[i + 1].0@ == k);
                }
            }
        }
        assert(n =~= m.insert(address@, amount as int));
    }
}

/// Puts a list in order; of several entries for one address the last one stays.
pub fn collect(entries: &Vec<(String, u128)>) -> (r: Vec<(String, u128)>)
    ensures
        ascending(r@),
        stake_map(r@) == stake_map(entries@),
{
    let mut r: Vec<(String, u128)> = Vec::new();
    let mut i: usize = 0;
    assert(entries@.take(0) =~= Seq::empty());
    while i < entries.len()
        invariant
            i <= entries@.len(),
            ascending(r@),
            stake_map(r@) == stake_map(entries@.take(i as int)),
        decreases entries@.len() - i,
    {
        set_stake(&mut r, &entries[i].0, entries[i].1);
        assert(entries@.take(i + 1).drop_last() =~= entries@.take(i as int));
        i += 1;
    }
    assert(entries@.take(i as int) =~= entries@);
    r
}

/// Leaves out the stakes that are zero.
pub fn drop_zeros(entries: &Vec<(String, u128)>) -> (r: Vec<(String, u128)>)
    requires
        ascending(entries@),
    ensures
        ascending(r@),
        stake_map(r@) == without_zeros(stake_map(entries@)),
{
    let mut r: Vec<(String, u128)> = Vec::new();
    let mut i: usize = 0;
    assert(entries@.take(0) =~= Seq::empty());
    assert(without_zeros(stake_map(entries@.take(0))) =~= Map::empty());
    while i < entries.len()
        invariant
            i <= entries@.len(),
            ascending(entries@),
            ascending(r@),
            stake_map(r@) == without_zeros(stake_map(entries@.take(i as int))),
        decreases entries@.len() - i,
    {
        let ghost so_far = stake_map(entries@.take(i as int));
        let ghost here = entries@[i as int];
        proof {
            assert(entries@.take(i + 1).drop_last() =~= entries@.take(i as int));
            assert(ascending(entries@.take(i as int)));
            stake_map_entries(entries@.take(i as int));
            if so_far.contains_key(here.0@) {
                let j = choose|j: int|
                    0 <= j < i && #[trigger] entries@.take(i as int)[j].0@ == here.0@;
                assert(precedes(entries@[j].0@, entries@[i as int].0@));
                precedes_irreflexive(here.0@);
            }
        }
        if entries[i].1 != 0 {
            set_stake(&mut r, &entries[i].0, entries[i].1);
            assert(stake_map(r@) =~= without_zeros(stake_map(entries@.take(i + 1))));
        } else {
            assert(stake_map(r@) =~= without_zeros(stake_map(entries@.take(i + 1))));
        }
        i += 1;
    }
    assert(entries@.take(i as int) =~= entries@);
    r
}

/// The longer a list, the larger its sum.
proof fn entries_total_grows(entries: Seq<(String, u128)>, n: int)
    requires
        0 <= n <= entries.len(),
    ensures
        0 <= entries_total(entries.take(n)) <= entries_total(entries),
    decreases entries.len(),
{
    if entries.len() == 0 {
        assert(entries.take(n) =~= entries);
    } else if n == entries.len() {
        assert(entries.take(n) =~= entries);
        entries_total_grows(entries.drop_last(), n - 1);
        assert(entries.drop_last().take(n - 1) =~= entries.drop_last());
    } else {
        entries_total_grows(entries.drop_last(), n);
        assert(entries.drop_last().take(n) =~= entries.take(n));
    }
}

/// Adds up all amounts of a list; `None` if the sum does not fit.
pub fn sum_entries(entries: &Vec<(String, u128)>) -> (r: Option<u128>)
    ensures
        match r {
            Some(total) => total == entries_total(entries@),
            None => entries_total(entries@) > u128::MAX,
        },
{
    let mut total: u128 = 0;
    let mut i: usize = 0;
    assert(entries@.take(0) =~= Seq::empty());
    while i < entries.len()
        invariant
            i <= entries@.len(),
            total == entries_total(entries@.take(i as int)),
        decreases entries@.len() - i,
    {
        assert(entries@.take(i + 1).drop_last() =~= entries@.take(i as int));
        match total.checked_add(entries[i].1) {
            Some(sum) => {
                total = sum;
            },
            None => {
                proof {
                    entries_total_grows(entries@, i + 1);
                }
                return None;
            },
        }
        i += 1;
    }
    assert(entries@.take(i as int) =~= entries@);
    Some(total)
}

} // verus!
