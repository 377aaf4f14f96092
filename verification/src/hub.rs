//! The whole state of the hub.

use vstd::prelude::*;

use crate::decimal::Decimal;
use crate::stakes::{stake_map, stakes_total};
use crate::state::{Config, Timestamp};
use crate::supply::Supply;

verus! {

/// The validators that new stake goes to, each with its weight.
#[derive(Clone, Debug, PartialEq, Eq)]
pub struct StakeInfo {
    pub validators: Vec<(String, Decimal)>,
}

/// Stake that is being released by one validator.
#[derive(Clone, Debug, PartialEq, Eq)]
pub struct Unbonding {
    pub validator: String,
    pub amount: u128,
}

/// All stake that is released at the same second.
#[derive(Clone, Debug, PartialEq, Eq)]
pub struct UnbondingEntry {
    pub time: u64,
    pub unbondings: Vec<Unbonding>,
}

/// The whole state of the hub.
#[derive(Clone, Debug, PartialEq, Eq)]
pub struct Hub {
    pub config: Config,
    pub supply: Supply,
    pub stake_info: StakeInfo,
    /// What is bonded to each validator.
    pub bonded: Vec<(String, u128)>,
    /// What is being released, by the second of its release.
    pub unbonding: Vec<UnbondingEntry>,
    /// The native tokens at hand when the last reinvestment began, none before the
    /// first one.
    pub tmp_balance: Option<u128>,
}

/// What is released by all validators of a list together.
pub open spec fn unbondings_total(unbondings: Seq<Unbonding>) -> int
    decreases unbondings.len(),
{
    if unbondings.len() == 0 {
        0
    } else {
        unbondings_total(unbondings.drop_last()) + unbondings.last().amount
    }
}

/// What is released at any time.
pub open spec fn queue_total(queue: Seq<UnbondingEntry>) -> int
    decreases queue.len(),
{
    if queue.len() == 0 {
        0
    } else {
        queue_total(queue.drop_last()) + unbondings_total(queue.last().unbondings@)
    }
}

/// The entries that are not released at `now` yet.
pub open spec fn pending(queue: Seq<UnbondingEntry>, now: int) -> Seq<UnbondingEntry> {
    queue.filter(|e: UnbondingEntry| e.time > now)
}

/// What has been released at `now`.
pub open spec fn matured(queue: Seq<UnbondingEntry>, now: int) -> int {
    queue_total(queue) - queue_total(pending(queue, now))
}

/// No second has two entries.
pub open spec fn one_per_second(queue: Seq<UnbondingEntry>) -> bool {
    forall|i: int, j: int|
        0 <= i < j < queue.len() ==> (#[trigger] queue[i]).time != (#[trigger] queue[j]).time
}

/// Any part of a queue consists of entries of the queue, and has no second twice if
/// the queue has none.
pub proof fn filtered_once(queue: Seq<UnbondingEntry>, keep: spec_fn(UnbondingEntry) -> bool)
    requires
        one_per_second(queue),
    ensures
        one_per_second(queue.filter(keep)),
        forall|i: int|
            0 <= i < queue.filter(keep).len() ==> keep(#[trigger] queue.filter(keep)[i])
                && exists|j: int| 0 <= j < queue.len() && queue[j] == queue.filter(keep)[i],
    decreases queue.len(),
{
    reveal(Seq::filter);
    if queue.len() > 0 {
        let front = queue.drop_last();
        let last = queue.len() - 1;
        let kept = front.filter(keep);
        let all = queue.filter(keep);
        assert forall|i: int, j: int| 0 <= i < j < front.len() implies (
        #[trigger] front[i]).time != (#[trigger] front[j]).time by {
            assert(queue[i].time != queue[j].time);
        }
        filtered_once(front, keep);
        assert forall|i: int| 0 <= i < all.len() implies keep(#[trigger] all[i]) && exists|j: int|
            0 <= j < queue.len() && queue[j] == all[i] by {
            if i < kept.len() {
                assert(all[i] == kept[i]);
                let j = choose|j: int| 0 <= j < front.len() && front[j] == kept[i];
                assert(queue[j] == all[i]);
            } else {
                assert(queue[last] == all[i]);
            }
        }
        assert forall|i: int, j: int| 0 <= i < j < all.len() implies (#[trigger] all[i]).time != (
        #[trigger] all[j]).time by {
            assert(all[i] == kept[i]);
            if j < kept.len() {
                assert(all[j] == kept[j]);
            } else {
                let k = choose|k: int| 0 <= k < front.len() && front[k] == kept[i];
                assert(queue[k].time != queue[last].time);
            }
        }
    }
}

/// No list releases less than nothing.
pub proof fn unbondings_natural(unbondings: Seq<Unbonding>)
    ensures
        unbondings_total(unbondings) >= 0,
    decreases unbondings.len(),
{
    if unbondings.len() > 0 {
        unbondings_natural(unbondings.drop_last());
    }
}

/// No front of a list releases more than the list.
proof fn unbondings_front(unbondings: Seq<Unbonding>, n: int)
    requires
        0 <= n <= unbondings.len(),
    ensures
        0 <= unbondings_total(unbondings.take(n)) <= unbondings_total(unbondings),
    decreases unbondings.len(),
{
    if n == unbondings.len() {
        assert(unbondings.take(n) =~= unbondings);
        unbondings_natural(unbondings);
    } else {
        unbondings_front(unbondings.drop_last(), n);
        assert(unbondings.drop_last().take(n) =~= unbondings.take(n));
    }
}

/// No queue releases less than nothing.
pub proof fn queue_natural(queue: Seq<UnbondingEntry>)
    ensures
        queue_total(queue) >= 0,
    decreases queue.len(),
{
    if queue.len() > 0 {
        queue_natural(queue.drop_last());
        unbondings_natural(queue.last().unbondings@);
    }
}

/// No front of a queue releases more than the queue.
proof fn queue_front(queue: Seq<UnbondingEntry>, n: int)
    requires
        0 <= n <= queue.len(),
    ensures
        0 <= queue_total(queue.take(n)) <= queue_total(queue),
    decreases queue.len(),
{
    if n == queue.len() {
        assert(queue.take(n) =~= queue);
        queue_natural(queue);
    } else {
        queue_front(queue.drop_last(), n);
        assert(queue.drop_last().take(n) =~= queue.take(n));
        unbondings_natural(queue.last().unbondings@);
    }
}

/// What any part of a queue releases is at most what the queue does.
pub proof fn filtered_total(queue: Seq<UnbondingEntry>, keep: spec_fn(UnbondingEntry) -> bool)
    ensures
        0 <= queue_total(queue.filter(keep)) <= queue_total(queue),
    decreases queue.len(),
{
    reveal(Seq::filter);
    if queue.len() > 0 {
        filtered_total(queue.drop_last(), keep);
        unbondings_natural(queue.last().unbondings@);
        let front = queue.drop_last().filter(keep);
        assert(front.push(queue.last()).drop_last() =~= front);
    }
}

/// A queue with one entry less.
proof fn queue_push(queue: Seq<UnbondingEntry>, entry: UnbondingEntry)
    ensures
        queue_total(queue.push(entry)) == queue_total(queue) + unbondings_total(entry.unbondings@),
{
    assert(queue.push(entry).drop_last() =~= queue);
}

/// What one more entry adds to what has been released.
proof fn matured_step(queue: Seq<UnbondingEntry>, now: int, n: int)
    requires
        0 <= n < queue.len(),
    ensures
        matured(queue.take(n + 1), now) == matured(queue.take(n), now) + if queue[n].time > now {
            0
        } else {
            unbondings_total(queue[n].unbondings@)
        },
        pending(queue.take(n + 1), now) == if queue[n].time > now {
            pending(queue.take(n), now).push(queue[n])
        } else {
            pending(queue.take(n), now)
        },
{
    let keep = |e: UnbondingEntry| e.time > now;
    assert(queue.take(n + 1) =~= queue.take(n).push(queue[n]));
    queue.take(n).lemma_filter_push(queue[n], keep);
    queue_push(queue.take(n), queue[n]);
    queue_push(pending(queue.take(n), now), queue[n]);
}

/// No front of a queue has released more than the queue.
proof fn matured_front(queue: Seq<UnbondingEntry>, now: int, n: int)
    requires
        0 <= n <= queue.len(),
    ensures
        0 <= matured(queue.take(n), now) <= matured(queue, now),
    decreases queue.len() - n,
{
    filtered_total(queue.take(n), |e: UnbondingEntry| e.time > now);
    if n == queue.len() {
        assert(queue.take(n) =~= queue);
    } else {
        matured_step(queue, now, n);
        matured_front(queue, now, n + 1);
        unbondings_natural(queue[n].unbondings@);
    }
}

/// Takes what a list releases off `total`.
fn release(total: u128, unbondings: &Vec<Unbonding>) -> (r: u128)
    requires
        unbondings_total(unbondings@) <= total,
    ensures
        r == total - unbondings_total(unbondings@),
{
    let mut left: u128 = total;
    let mut i: usize = 0;
    assert(unbondings@.take(0) =~= Seq::empty());
    while i < unbondings.len()
        invariant
            i <= unbondings@.len(),
            unbondings_total(unbondings@) <= total,
            left == total - unbondings_total(unbondings@.take(i as int)),
        decreases unbondings@.len() - i,
    {
        proof {
            assert(unbondings@.take(i + 1).drop_last() =~= unbondings@.take(i as int));
            unbondings_front(unbondings@, i + 1);
        }
        left = left - unbondings[i].amount;
        i += 1;
    }
    assert(unbondings@.take(i as int) =~= unbondings@);
    left
}

/// Adds up what a list releases; `None` if the sum does not fit.
pub fn sum_unbondings(unbondings: &Vec<Unbonding>) -> (r: Option<u128>)
    ensures
        match r {
            Some(total) => total == unbondings_total(unbondings@),
            None => unbondings_total(unbondings@) > u128::MAX,
        },
{
    let mut total: u128 = 0;
    let mut i: usize = 0;
    assert(unbondings@.take(0) =~= Seq::empty());
    while i < unbondings.len()
        invariant
            i <= unbondings@.len(),
            total == unbondings_total(unbondings@.take(i as int)),
        decreases unbondings@.len() - i,
    {
        proof {
            assert(unbondings@.take(i + 1).drop_last() =~= unbondings@.take(i as int));
            unbondings_front(unbondings@, i + 1);
        }
        match total.checked_add(unbondings[i].amount) {
            Some(sum) => {
                total = sum;
            },
            None => {
                return None;
            },
        }
        i += 1;
    }
    assert(unbondings@.take(i as int) =~= unbondings@);
    Some(total)
}

/// Whether no second has two entries.
fn seconds_differ(queue: &Vec<UnbondingEntry>) -> (r: bool)
    ensures
        r == one_per_second(queue@),
{
    let mut i: usize = 0;
    while i < queue.len()
        invariant
            i <= queue@.len(),
            one_per_second(queue@.take(i as int)),
        decreases queue@.len() - i,
    {
        let mut j: usize = 0;
        while j < i
            invariant
                j <= i < queue@.len(),
                forall|k: int| 0 <= k < j ==> (#[trigger] queue@[k]).time != queue@[i as int].time,
            decreases i - j,
        {
            if queue[j].time == queue[i].time {
                return false;
            }
            j += 1;
        }
        proof {
            let front = queue@.take(i as int);
            let more = queue@.take(i + 1);
            assert forall|k: int, m: int| 0 <= k < m < more.len() implies (
            #[trigger] more[k]).time != (#[trigger] more[m]).time by {
                if m < i {
                    assert(front[k].time != front[m].time);
                } else {
                    assert(queue@[k].time != queue@[i as int].time);
                }
            }
        }
        i += 1;
    }
    assert(queue@.take(i as int) =~= queue@);
    true
}

impl Hub {
    /// The settings are within their limits, no second has two entries in the queue,
    /// and everything in the queue is part of what the books say is being released.
    pub open spec fn wf(&self) -> bool {
        &&& self.config.wf()
        &&& one_per_second(self.unbonding@)
        &&& queue_total(self.unbonding@) <= self.supply.total_unbonding
    }

    /// The books agree with the stakes.
    pub open spec fn balanced(&self) -> bool {
        self.supply.total_bonded == stakes_total(stake_map(self.bonded@))
    }

    /// The books without what has been released at `now`.
    pub open spec fn cleaned_supply(&self, now: int) -> Supply {
        Supply {
            total_unbonding: (self.supply.total_unbonding - matured(
                self.unbonding@,
                now,
            )) as u128,
            ..self.supply
        }
    }

    /// `self` is `before` without what has been released at `now`.
    pub open spec fn is_cleaned(&self, before: Hub, now: int) -> bool {
        &&& self.config == before.config
        &&& self.supply == before.cleaned_supply(now)
        &&& self.stake_info == before.stake_info
        &&& self.bonded == before.bonded
        &&& self.unbonding@ == pending(before.unbonding@, now)
        &&& self.tmp_balance == before.tmp_balance
    }

    /// Whether the state can be worked with.
    pub fn valid(&self) -> (r: bool)
        ensures
            r == self.wf(),
    {
        let mut left: u128 = self.supply.total_unbonding;
        let mut i: usize = 0;
        assert(self.unbonding@.take(0) =~= Seq::empty());
        while i < self.unbonding.len()
            invariant
                i <= self.unbonding@.len(),
                left == self.supply.total_unbonding - queue_total(self.unbonding@.take(i as int)),
            decreases self.unbonding@.len() - i,
        {
            proof {
                assert(self.unbonding@.take(i + 1) =~= self.unbonding@.take(i as int).push(
                    self.unbonding@[i as int],
                ));
                queue_push(self.unbonding@.take(i as int), self.unbonding@[i as int]);
                queue_front(self.unbonding@, i + 1);
            }
            match sum_unbondings(&self.unbonding[i].unbondings) {
                Some(sum) => {
                    if sum > left {
                        return false;
                    }
                    left = left - sum;
                },
                None => {
                    return false;
                },
            }
            i += 1;
        }
        assert(self.unbonding@.take(i as int) =~= self.unbonding@);
        self.config.valid() && seconds_differ(&self.unbonding)
    }

    /// The books without what has been released at `now`.
    pub fn current_supply(&self, now: Timestamp) -> (r: Supply)
        requires
            self.wf(),
        ensures
            r == self.cleaned_supply(now.secs()),
    {
        let seconds = now.seconds();
        let mut total: u128 = self.supply.total_unbonding;
        let mut i: usize = 0;
        let ghost queue = self.unbonding@;
        proof {
            assert(queue.take(0) =~= Seq::empty());
            reveal(Seq::filter);
            assert(pending(queue.take(0), seconds as int) =~= Seq::empty());
            filtered_total(queue, |e: UnbondingEntry| e.time > seconds as int);
        }
        while i < self.unbonding.len()
            invariant
                i <= self.unbonding@.len(),
                queue == self.unbonding@,
                matured(queue, seconds as int) <= self.supply.total_unbonding,
                total == self.supply.total_unbonding - matured(
                    queue.take(i as int),
                    seconds as int,
                ),
            decreases self.unbonding@.len() - i,
        {
            proof {
                matured_step(queue, seconds as int, i as int);
                matured_front(queue, seconds as int, i + 1);
            }
            if self.unbonding[i].time <= seconds {
                total = release(total, &self.unbonding[i].unbondings);
            }
            i += 1;
        }
        assert(queue.take(i as int) =~= queue);
        Supply {
            bond_denom: self.supply.bond_denom.clone(),
            issued: self.supply.issued,
            total_bonded: self.supply.total_bonded,
            claims: self.supply.claims,
            total_unbonding: total,
        }
    }

    /// Strikes out what has been released at `now`.
    pub fn clean(&mut self, now: Timestamp)
        requires
            old(self).wf(),
        ensures
            final(self).is_cleaned(*old(self), now.secs()),
            final(self).wf(),
    {
        let seconds = now.seconds();
        let supply = self.current_supply(now);
        let ghost queue = self.unbonding@;
        let ghost keep = |e: UnbondingEntry| e.time > seconds as int;
        let ghost mut n: int = 0;
        let mut i: usize = 0;
        proof {
            assert(queue.take(0) =~= Seq::empty());
            reveal(Seq::filter);
            assert(queue.take(0).filter(keep) =~= Seq::empty());
            assert(queue.take(0).filter(keep) + queue.skip(0) =~= queue);
        }
        while i < self.unbonding.len()
            invariant
                0 <= n <= queue.len(),
                i <= self.unbonding@.len(),
                i == queue.take(n).filter(keep).len(),
                keep == (|e: UnbondingEntry| e.time > seconds as int),
                self.unbonding@ == queue.take(n).filter(keep) + queue.skip(n),
                self.config == old(self).config,
                self.supply == old(self).supply,
                self.stake_info == old(self).stake_info,
                self.bonded == old(self).bonded,
                self.tmp_balance == old(self).tmp_balance,
            decreases self.unbonding@.len() - i,
        {
            proof {
                assert(n < queue.len());
                assert(self.unbonding@[i as int] == queue[n]);
                assert(queue.take(n + 1) =~= queue.take(n).push(queue[n]));
                queue.take(n).lemma_filter_push(queue[n], keep);
            }
            if self.unbonding[i].time <= seconds {
                self.unbonding.remove(i);
                assert(self.unbonding@ =~= queue.take(n + 1).filter(keep) + queue.skip(n + 1));
            } else {
                i += 1;
                assert(self.unbonding@ =~= queue.take(n + 1).filter(keep) + queue.skip(n + 1));
            }
            proof {
                n = n + 1;
            }
        }
        proof {
            assert(queue.skip(n).len() == 0);
            assert(queue.take(n) =~= queue);
            assert(self.unbonding@ =~= pending(queue, seconds as int));
            filtered_total(queue, keep);
            filtered_once(queue, keep);
        }
        self.supply = supply;
    }
}

} // verus!
