//! Splitting an amount among weighted validators, and moving stake accordingly.

use vstd::prelude::*;

use crate::decimal::{portion, Decimal};
use crate::stakes::{
    ascending, set_stake, stake, stake_map, stake_map_finite, stake_of, stakes_total,
    stakes_total_insert, stakes_total_remove,
};

verus! {

/// The sum of a list of numbers.
pub open spec fn sum(amounts: Seq<int>) -> int
    decreases amounts.len(),
{
    if amounts.len() == 0 {
        0
    } else {
        sum(amounts.drop_last()) + amounts.last()
    }
}

/// The numbers of a list of machine integers.
pub open spec fn numbers(amounts: Seq<u128>) -> Seq<int> {
    amounts.map_values(|a: u128| a as int)
}

/// What each validator gets of `total` by its weight alone, rounded down.
pub open spec fn portions(total: int, validators: Seq<(String, Decimal)>) -> Seq<int> {
    validators.map_values(|v: (String, Decimal)| portion(total, v.1))
}

/// What is left of `total` when every validator has been given its portion.
pub open spec fn remainder(total: int, validators: Seq<(String, Decimal)>) -> int {
    total - sum(portions(total, validators))
}

/// What each validator is given of `total`: its portion, and the first one what is
/// lost by rounding on top.
pub open spec fn delegations(total: int, validators: Seq<(String, Decimal)>) -> Seq<int> {
    portions(total, validators).update(
        0,
        portions(total, validators)[0] + remainder(total, validators),
    )
}

/// The stake of each validator in the list, `-1` for one that has none.
pub open spec fn limits(
    validators: Seq<(String, Decimal)>,
    stakes: Map<Seq<char>, int>,
) -> Seq<int> {
    validators.map_values(
        |v: (String, Decimal)|
            if stakes.contains_key(v.0@) {
                stakes[v.0@]
            } else {
                -1
            },
    )
}

/// `amount` and as much of `extra` as stays within `limit`.
pub open spec fn topped_up(amount: int, extra: int, limit: int) -> int {
    if amount + extra <= limit {
        amount + extra
    } else {
        limit
    }
}

/// Adds `extra` to the amounts, to the first ones first, to none beyond its limit.
pub open spec fn absorbed(amounts: Seq<int>, limits: Seq<int>, extra: int) -> Seq<int>
    decreases amounts.len(),
{
    if amounts.len() == 0 || extra == 0 {
        amounts
    } else {
        let first = topped_up(amounts[0], extra, limits[0]);
        seq![first] + absorbed(
            amounts.drop_first(),
            limits.drop_first(),
            extra - (first - amounts[0]),
        )
    }
}

/// As long as something of `extra` is left, the amounts are within their limits.
pub open spec fn absorbable(amounts: Seq<int>, limits: Seq<int>, extra: int) -> bool
    decreases amounts.len(),
{
    amounts.len() == 0 || extra == 0 || {
        let first = topped_up(amounts[0], extra, limits[0]);
        &&& amounts[0] <= limits[0]
        &&& absorbable(
            amounts.drop_first(),
            limits.drop_first(),
            extra - (first - amounts[0]),
        )
    }
}

/// What is undelegated from each validator in order to raise `total`: its portion,
/// and what is lost by rounding from the first ones that have enough stake.
pub open spec fn undelegations(
    total: int,
    validators: Seq<(String, Decimal)>,
    stakes: Map<Seq<char>, int>,
) -> Seq<int> {
    absorbed(portions(total, validators), limits(validators, stakes), remainder(total, validators))
}

/// The stakes after every validator in the list has been given its amount.
pub open spec fn moved(
    stakes: Map<Seq<char>, int>,
    validators: Seq<(String, Decimal)>,
    amounts: Seq<int>,
) -> Map<Seq<char>, int>
    decreases validators.len(),
{
    if validators.len() == 0 {
        stakes
    } else {
        let before = moved(stakes, validators.drop_last(), amounts.drop_last());
        let address = validators.last().0@;
        before.insert(address, stake_of(before, address) + amounts.last())
    }
}

/// The amounts with the opposite sign.
pub open spec fn negated(amounts: Seq<int>) -> Seq<int> {
    amounts.map_values(|a: int| -a)
}

/// Every validator in the list has the stake that is taken from it.
pub open spec fn covered(
    stakes: Map<Seq<char>, int>,
    validators: Seq<(String, Decimal)>,
    amounts: Seq<int>,
) -> bool {
    forall|i: int|
        0 <= i < validators.len() ==> stakes.contains_key(#[trigger] validators[i].0@) && moved(
            stakes,
            validators,
            negated(amounts),
        )[validators[i].0@] >= 0
}

/// The sum of a front of a list of numbers that are not negative.
pub proof fn sum_front(amounts: Seq<int>, n: int)
    requires
        0 <= n <= amounts.len(),
        forall|i: int| 0 <= i < amounts.len() ==> #[trigger] amounts[i] >= 0,
    ensures
        0 <= sum(amounts.take(n)) <= sum(amounts),
    decreases amounts.len(),
{
    if n == amounts.len() {
        assert(amounts.take(n) =~= amounts);
        if n > 0 {
            sum_front(amounts.drop_last(), n - 1);
            assert(amounts.drop_last().take(n - 1) =~= amounts.drop_last());
        }
    } else {
        sum_front(amounts.drop_last(), n);
        assert(amounts.drop_last().take(n) =~= amounts.take(n));
    }
}

/// Changing one number changes the sum by as much.
pub proof fn sum_update(amounts: Seq<int>, i: int, value: int)
    requires
        0 <= i < amounts.len(),
    ensures
        sum(amounts.update(i, value)) == sum(amounts) - amounts[i] + value,
    decreases amounts.len(),
{
    if i == amounts.len() - 1 {
        assert(amounts.update(i, value).drop_last() =~= amounts.drop_last());
    } else {
        assert(amounts.update(i, value).drop_last() =~= amounts.drop_last().update(i, value));
        sum_update(amounts.drop_last(), i, value);
    }
}

/// The first number can be taken out of the sum.
pub proof fn sum_first(amounts: Seq<int>)
    requires
        amounts.len() > 0,
    ensures
        sum(amounts) == amounts[0] + sum(amounts.drop_first()),
    decreases amounts.len(),
{
    if amounts.len() == 1 {
        assert(amounts.drop_last() =~= Seq::empty());
        assert(amounts.drop_first() =~= Seq::empty());
        assert(sum(amounts.drop_last()) == 0);
    } else {
        sum_first(amounts.drop_last());
        assert(amounts.drop_last().drop_first() =~= amounts.drop_first().drop_last());
    }
}

/// Changing all signs changes that of the sum.
pub proof fn sum_negated(amounts: Seq<int>)
    ensures
        sum(negated(amounts)) == -sum(amounts),
    decreases amounts.len(),
{
    if amounts.len() > 0 {
        assert(negated(amounts).drop_last() =~= negated(amounts.drop_last()));
        sum_negated(amounts.drop_last());
    }
}

/// No portion is negative.
pub proof fn portions_natural(total: int, validators: Seq<(String, Decimal)>)
    requires
        total >= 0,
    ensures
        forall|i: int|
            0 <= i < validators.len() ==> #[trigger] portions(total, validators)[i] >= 0,
{
    assert forall|i: int| 0 <= i < validators.len() implies #[trigger] portions(
        total,
        validators,
    )[i] >= 0 by {
        let w = validators[i].1.atomics as int;
        assert(total * w >= 0) by (nonlinear_arith)
            requires
                total >= 0,
                w >= 0,
        ;
    }
}

/// Portions out `total` and says what is left of it; `None` if the portions are
/// more than there is.
pub fn portion_out(total: u128, validators: &Vec<(String, Decimal)>) -> (r: Option<
    (Vec<u128>, u128),
>)
    ensures
        r is Some <==> sum(portions(total as int, validators@)) <= total,
        r matches Some((amounts, rest)) ==> numbers(amounts@) == portions(
            total as int,
            validators@,
        ) && rest == remainder(total as int, validators@),
{
    let ghost all = portions(total as int, validators@);
    let mut amounts: Vec<u128> = Vec::new();
    let mut rest: u128 = total;
    let mut i: usize = 0;
    proof {
        portions_natural(total as int, validators@);
        assert(all.take(0) =~= Seq::empty());
        assert(numbers(amounts@) =~= all.take(0));
    }
    while i < validators.len()
        invariant
            i <= validators@.len(),
            all == portions(total as int, validators@),
            forall|j: int| 0 <= j < all.len() ==> #[trigger] all[j] >= 0,
            numbers(amounts@) == all.take(i as int),
            rest == total - sum(all.take(i as int)),
        decreases validators@.len() - i,
    {
        proof {
            assert(all.take(i + 1).drop_last() =~= all.take(i as int));
            assert(all[i as int] == portion(total as int, validators@[i as int].1));
            sum_front(all, i + 1);
            sum_front(all, i as int);
        }
        let amount = match validators[i].1.of(total) {
            Some(amount) => amount,
            None => {
                return None;
            },
        };
        if amount > rest {
            return None;
        }
        rest = rest - amount;
        amounts.push(amount);
        assert(numbers(amounts@) =~= all.take(i + 1));
        i += 1;
    }
    assert(all.take(i as int) =~= all);
    Some((amounts, rest))
}

/// One amount after the other is topped up.
proof fn absorbed_step(amounts: Seq<int>, limits: Seq<int>, extra: int)
    requires
        amounts.len() > 0,
        extra != 0,
    ensures
        ({
            let first = topped_up(amounts[0], extra, limits[0]);
            let rest = absorbed(
                amounts.drop_first(),
                limits.drop_first(),
                extra - (first - amounts[0]),
            );
            absorbed(amounts, limits, extra) == seq![first] + rest
        }),
{
}

/// Spreads `extra` over the amounts, to the first ones first and to none beyond the
/// stake of its validator; `None` if one of them is beyond it already.
pub fn absorb(
    amounts: Vec<u128>,
    extra: u128,
    validators: &Vec<(String, Decimal)>,
    entries: &Vec<(String, u128)>,
) -> (r: Option<Vec<u128>>)
    requires
        amounts@.len() == validators@.len(),
        ascending(entries@),
        sum(numbers(amounts@)) + extra <= u128::MAX,
    ensures
        r is Some <==> absorbable(
            numbers(amounts@),
            limits(validators@, stake_map(entries@)),
            extra as int,
        ),
        r matches Some(after) ==> numbers(after@) == absorbed(
            numbers(amounts@),
            limits(validators@, stake_map(entries@)),
            extra as int,
        ),
{
    let ghost given = numbers(amounts@);
    let ghost caps = limits(validators@, stake_map(entries@));
    let mut after: Vec<u128> = amounts;
    let mut extra_left: u128 = extra;
    let mut i: usize = 0;
    proof {
        assert(given.skip(0) =~= given);
        assert(caps.skip(0) =~= caps);
        assert(numbers(after@).take(0) =~= Seq::empty());
        assert(numbers(after@).take(0) + absorbed(given, caps, extra as int) =~= absorbed(
            given,
            caps,
            extra as int,
        ));
    }
    while i < validators.len() && extra_left != 0
        invariant
            i <= validators@.len(),
            after@.len() == validators@.len(),
            given == numbers(amounts@),
            given.len() == validators@.len(),
            forall|j: int| 0 <= j < given.len() ==> #[trigger] given[j] >= 0,
            extra_left <= extra,
            sum(given) + extra <= u128::MAX,
            ascending(entries@),
            caps == limits(validators@, stake_map(entries@)),
            forall|j: int| i <= j < after@.len() ==> #[trigger] after@[j] as int == given[j],
            absorbable(given, caps, extra as int) == absorbable(
                given.skip(i as int),
                caps.skip(i as int),
                extra_left as int,
            ),
            absorbed(given, caps, extra as int) == numbers(after@).take(i as int) + absorbed(
                given.skip(i as int),
                caps.skip(i as int),
                extra_left as int,
            ),
        decreases validators@.len() - i,
    {
        let amount = after[i];
        proof {
            assert(given.skip(i as int)[0] == amount as int);
            assert(caps.skip(i as int)[0] == caps[i as int]);
            assert(given.skip(i as int).drop_first() =~= given.skip(i + 1));
            assert(caps.skip(i as int).drop_first() =~= caps.skip(i + 1));
            sum_front(given, i as int);
            sum_front(given, i + 1);
            assert(given.take(i + 1).drop_last() =~= given.take(i as int));
        }
        let limit = match stake(entries, &validators[i].0) {
            Some(limit) => limit,
            None => {
                return None;
            },
        };
        if limit < amount {
            return None;
        }
        let raised = amount + extra_left;
        let topped = if raised <= limit {
            raised
        } else {
            limit
        };
        let ghost before = after@;
        proof {
            absorbed_step(given.skip(i as int), caps.skip(i as int), extra_left as int);
        }
        extra_left = extra_left - (topped - amount);
        after.set(i, topped);
        proof {
            let rest = absorbed(given.skip(i + 1), caps.skip(i + 1), extra_left as int);
            assert(numbers(after@).take(i + 1) =~= numbers(before).take(i as int) + seq![
                topped as int,
            ]);
            assert(numbers(before).take(i as int) + (seq![topped as int] + rest) =~= numbers(
                after@,
            ).take(i + 1) + rest);
        }
        i += 1;
    }
    proof {
        assert(numbers(after@).take(i as int) + given.skip(i as int) =~= numbers(after@));
    }
    Some(after)
}

/// The stakes of a list stay finite, and their sum changes by what is moved.
pub proof fn moved_total(
    stakes: Map<Seq<char>, int>,
    validators: Seq<(String, Decimal)>,
    amounts: Seq<int>,
)
    requires
        stakes.dom().finite(),
        amounts.len() == validators.len(),
    ensures
        moved(stakes, validators, amounts).dom().finite(),
        stakes_total(moved(stakes, validators, amounts)) == stakes_total(stakes) + sum(amounts),
    decreases validators.len(),
{
    if validators.len() > 0 {
        let before = moved(stakes, validators.drop_last(), amounts.drop_last());
        moved_total(stakes, validators.drop_last(), amounts.drop_last());
        let address = validators.last().0@;
        stakes_total_insert(before, address, stake_of(before, address) + amounts.last());
    }
}

/// A single stake is never more than all stakes together.
proof fn stake_within_total(stakes: Map<Seq<char>, int>, key: Seq<char>)
    requires
        stakes.dom().finite(),
        forall|k: Seq<char>| #[trigger] stakes.contains_key(k) ==> stakes[k] >= 0,
    ensures
        0 <= stake_of(stakes, key) <= stakes_total(stakes),
    decreases stakes.dom().len(),
{
    if stakes.contains_key(key) {
        stakes_total_remove(stakes, key);
        stake_within_total(stakes.remove(key), key);
    } else if stakes.dom().len() > 0 {
        let k = stakes.dom().choose();
        assert(stakes.dom().contains(k));
        stakes_total_remove(stakes, k);
        stake_within_total(stakes.remove(k), key);
    }
}

/// Giving more leaves no stake negative.
proof fn moved_natural(
    stakes: Map<Seq<char>, int>,
    validators: Seq<(String, Decimal)>,
    amounts: Seq<int>,
)
    requires
        amounts.len() == validators.len(),
        forall|k: Seq<char>| #[trigger] stakes.contains_key(k) ==> stakes[k] >= 0,
        forall|i: int| 0 <= i < amounts.len() ==> #[trigger] amounts[i] >= 0,
    ensures
        forall|k: Seq<char>| #[trigger]
            moved(stakes, validators, amounts).contains_key(k) ==> moved(
                stakes,
                validators,
                amounts,
            )[k] >= 0,
    decreases validators.len(),
{
    if validators.len() > 0 {
        assert(amounts[amounts.len() - 1] >= 0);
        moved_natural(stakes, validators.drop_last(), amounts.drop_last());
        let before = moved(stakes, validators.drop_last(), amounts.drop_last());
        assert(stake_of(before, validators.last().0@) >= 0);
    }
}

/// The stakes after a front of the list has been served.
proof fn moved_step(
    stakes: Map<Seq<char>, int>,
    validators: Seq<(String, Decimal)>,
    amounts: Seq<int>,
    n: int,
)
    requires
        0 <= n < validators.len(),
        amounts.len() == validators.len(),
    ensures
        ({
            let before = moved(stakes, validators.take(n), amounts.take(n));
            moved(stakes, validators.take(n + 1), amounts.take(n + 1)) == before.insert(
                validators[n].0@,
                stake_of(before, validators[n].0@) + amounts[n],
            )
        }),
{
    assert(validators.take(n + 1).drop_last() =~= validators.take(n));
    assert(amounts.take(n + 1).drop_last() =~= amounts.take(n));
}

/// Gives every validator in the list its amount; `None` if the stakes together
/// would no longer fit.
pub fn give(
    entries: Vec<(String, u128)>,
    validators: &Vec<(String, Decimal)>,
    amounts: &Vec<u128>,
) -> (r: Option<Vec<(String, u128)>>)
    requires
        ascending(entries@),
        amounts@.len() == validators@.len(),
    ensures
        r matches Some(after) ==> ascending(after@) && stake_map(after@) == moved(
            stake_map(entries@),
            validators@,
            numbers(amounts@),
        ),
        r is None ==> stakes_total(
            moved(stake_map(entries@), validators@, numbers(amounts@)),
        ) > u128::MAX,
{
    let ghost stakes = stake_map(entries@);
    let ghost all = numbers(amounts@);
    let mut after: Vec<(String, u128)> = entries;
    let mut i: usize = 0;
    proof {
        assert(validators@.take(0) =~= Seq::empty());
    }
    while i < validators.len()
        invariant
            i <= validators@.len(),
            amounts@.len() == validators@.len(),
            all == numbers(amounts@),
            stakes == stake_map(entries@),
            ascending(after@),
            stake_map(after@) == moved(stakes, validators@.take(i as int), all.take(i as int)),
        decreases validators@.len() - i,
    {
        let address = &validators[i].0;
        let had = match stake(&after, address) {
            Some(had) => had,
            None => 0,
        };
        proof {
            moved_step(stakes, validators@, all, i as int);
        }
        match had.checked_add(amounts[i]) {
            Some(has) => {
                set_stake(&mut after, address, has);
            },
            None => {
                proof {
                    let n = i + 1;
                    let served = moved(stakes, validators@.take(n), all.take(n));
                    stake_map_finite(entries@);
                    moved_natural(stakes, validators@.take(n), all.take(n));
                    moved_total(stakes, validators@.take(n), all.take(n));
                    moved_total(stakes, validators@, all);
                    stake_within_total(served, address@);
                    sum_front(all, n);
                }
                return None;
            },
        }
        i += 1;
    }
    proof {
        assert(validators@.take(i as int) =~= validators@);
        assert(all.take(i as int) =~= all);
    }
    Some(after)
}

/// Taking leaves the same validators, and takes no more at first than in the end.
proof fn taken_front(
    stakes: Map<Seq<char>, int>,
    validators: Seq<(String, Decimal)>,
    amounts: Seq<int>,
    n: int,
)
    requires
        0 <= n <= validators.len(),
        amounts.len() == validators.len(),
        forall|i: int| 0 <= i < amounts.len() ==> #[trigger] amounts[i] <= 0,
    ensures
        forall|k: Seq<char>|
            stake_of(moved(stakes, validators, amounts), k) <= #[trigger] stake_of(
                moved(stakes, validators.take(n), amounts.take(n)),
                k,
            ),
    decreases validators.len(),
{
    if n == validators.len() {
        assert(validators.take(n) =~= validators);
        assert(amounts.take(n) =~= amounts);
    } else {
        taken_front(stakes, validators.drop_last(), amounts.drop_last(), n);
        assert(validators.drop_last().take(n) =~= validators.take(n));
        assert(amounts.drop_last().take(n) =~= amounts.take(n));
    }
}

/// Taking from validators that have stake adds none to the list.
pub proof fn moved_domain(
    stakes: Map<Seq<char>, int>,
    validators: Seq<(String, Decimal)>,
    amounts: Seq<int>,
)
    requires
        forall|i: int|
            0 <= i < validators.len() ==> stakes.contains_key(#[trigger] validators[i].0@),
    ensures
        moved(stakes, validators, amounts).dom() == stakes.dom(),
    decreases validators.len(),
{
    if validators.len() > 0 {
        let front = validators.drop_last();
        assert(forall|i: int| 0 <= i < front.len() ==> front[i] == validators[i]);
        moved_domain(stakes, front, amounts.drop_last());
        assert(stakes.contains_key(validators[validators.len() - 1].0@));
        assert(moved(stakes, validators, amounts).dom() =~= stakes.dom());
    }
}

/// Takes from every validator in the list its amount; `None` if one of them does
/// not have it.
pub fn take(
    entries: Vec<(String, u128)>,
    validators: &Vec<(String, Decimal)>,
    amounts: &Vec<u128>,
) -> (r: Option<Vec<(String, u128)>>)
    requires
        ascending(entries@),
        amounts@.len() == validators@.len(),
    ensures
        r is Some <==> covered(stake_map(entries@), validators@, numbers(amounts@)),
        r matches Some(after) ==> ascending(after@) && stake_map(after@) == moved(
            stake_map(entries@),
            validators@,
            negated(numbers(amounts@)),
        ),
{
    let ghost stakes = stake_map(entries@);
    let ghost all = negated(numbers(amounts@));
    let mut after: Vec<(String, u128)> = entries;
    let mut i: usize = 0;
    proof {
        assert(validators@.take(0) =~= Seq::empty());
    }
    while i < validators.len()
        invariant
            i <= validators@.len(),
            amounts@.len() == validators@.len(),
            all == negated(numbers(amounts@)),
            stakes == stake_map(entries@),
            ascending(after@),
            forall|j: int| 0 <= j < i ==> stakes.contains_key(#[trigger] validators@[j].0@),
            stake_map(after@) == moved(stakes, validators@.take(i as int), all.take(i as int)),
        decreases validators@.len() - i,
    {
        let address = &validators[i].0;
        proof {
            moved_domain(stakes, validators@.take(i as int), all.take(i as int));
            moved_step(stakes, validators@, all, i as int);
        }
        let had = match stake(&after, address) {
            Some(had) => had,
            None => {
                assert(!stakes.contains_key(validators@[i as int].0@));
                return None;
            },
        };
        assert(stakes.contains_key(validators@[i as int].0@));
        if had < amounts[i] {
            proof {
                taken_front(stakes, validators@, all, i + 1);
                let served = moved(stakes, validators@.take(i + 1), all.take(i + 1));
                assert(stake_of(served, address@) < 0);
                assert(stake_of(moved(stakes, validators@, all), address@) < 0);
                assert(validators@[i as int].0@ == address@);
            }
            return None;
        }
        set_stake(&mut after, address, had - amounts[i]);
        i += 1;
    }
    proof {
        assert(validators@.take(i as int) =~= validators@);
        assert(all.take(i as int) =~= all);
        stake_map_finite(after@);
        moved_domain(stakes, validators@, all);
        assert forall|j: int| 0 <= j < validators@.len() implies stakes.contains_key(
            #[trigger] validators@[j].0@,
        ) && moved(stakes, validators@, all)[validators@[j].0@] >= 0 by {
            assert(stake_map(after@).contains_key(validators@[j].0@));
        }
    }
    Some(after)
}

} // verus!
