//! All-or-nothing batches of locks and releases: every item is checked before
//! any escrow changes.

use vstd::prelude::*;

use super::{
    lemma_records_wf_insert, records_wf, BountyEscrowContract, BountyRecord, Config,
    Error, Escrow, EscrowStatus, Transfer, escrow_step, escrows_step, scheduled_total,
};
use crate::address::Address;

verus! {

broadcast use vstd::std_specs::hash::group_hash_axioms;

/// One escrow to create in a batch lock.
#[derive(Debug)]
pub struct LockFundsItem {
    pub bounty_id: u64,
    pub depositor: Address,
    pub amount: i128,
    pub deadline: u64,
}

/// One escrow to release in a batch release.
#[derive(Debug)]
pub struct ReleaseFundsItem {
    pub bounty_id: u64,
    pub contributor: Address,
}

/// Some item of `items` has the bounty id `id`.
pub open spec fn lock_items_name(items: Seq<LockFundsItem>, id: u64) -> bool {
    exists|j: int| 0 <= j < items.len() && (#[trigger] items[j]).bounty_id == id
}

/// Some item of `items` has the bounty id `id`.
pub open spec fn release_items_name(items: Seq<ReleaseFundsItem>, id: u64) -> bool {
    exists|j: int| 0 <= j < items.len() && (#[trigger] items[j]).bounty_id == id
}

/// The first check that locking `item` fails, `earlier` being the items
/// before it in the batch.
pub open spec fn lock_item_check(
    bounties: Map<u64, BountyRecord>,
    caller: Address,
    earlier: Seq<LockFundsItem>,
    item: LockFundsItem,
    now: u64,
) -> Option<Error> {
    if caller@ != item.depositor@ {
        Some(Error::Unauthorized)
    } else if bounties.contains_key(item.bounty_id) {
        Some(Error::BountyExists)
    } else if lock_items_name(earlier, item.bounty_id) {
        Some(Error::DuplicateBatchId)
    } else if item.amount <= 0 {
        Some(Error::InvalidAmount)
    } else if item.deadline <= now {
        Some(Error::InvalidDeadline)
    } else {
        None
    }
}

/// The first check that fails over `items`, taken in order.
pub open spec fn lock_items_check(
    bounties: Map<u64, BountyRecord>,
    caller: Address,
    items: Seq<LockFundsItem>,
    now: u64,
) -> Option<Error>
    decreases items.len(),
{
    if items.len() == 0 {
        None
    } else {
        match lock_items_check(bounties, caller, items.drop_last(), now) {
            Some(e) => Some(e),
            None => lock_item_check(bounties, caller, items.drop_last(), items.last(), now),
        }
    }
}

/// The first check that a batch lock of `items` by `caller` fails.
pub open spec fn batch_lock_check(
    config: Option<Config>,
    bounties: Map<u64, BountyRecord>,
    caller: Address,
    items: Seq<LockFundsItem>,
    now: u64,
) -> Option<Error> {
    if config is None {
        Some(Error::NotInitialized)
    } else {
        lock_items_check(bounties, caller, items, now)
    }
}

/// The first check that releasing `item` fails, `earlier` being the items
/// before it in the batch.
pub open spec fn release_item_check(
    bounties: Map<u64, BountyRecord>,
    earlier: Seq<ReleaseFundsItem>,
    item: ReleaseFundsItem,
) -> Option<Error> {
    if !bounties.contains_key(item.bounty_id) {
        Some(Error::BountyNotFound)
    } else if bounties[item.bounty_id].escrow.status != EscrowStatus::Locked {
        Some(Error::FundsNotLocked)
    } else if release_items_name(earlier, item.bounty_id) {
        Some(Error::DuplicateBatchId)
    } else {
        None
    }
}

/// The first check that fails over `items`, taken in order.
pub open spec fn release_items_check(bounties: Map<u64, BountyRecord>, items: Seq<ReleaseFundsItem>) -> Option<
    Error,
>
    decreases items.len(),
{
    if items.len() == 0 {
        None
    } else {
        match release_items_check(bounties, items.drop_last()) {
            Some(e) => Some(e),
            None => release_item_check(bounties, items.drop_last(), items.last()),
        }
    }
}

/// The first check that a batch release of `items` by `caller` fails.
pub open spec fn batch_release_check(
    config: Option<Config>,
    bounties: Map<u64, BountyRecord>,
    caller: Address,
    items: Seq<ReleaseFundsItem>,
) -> Option<Error> {
    match config {
        None => Some(Error::NotInitialized),
        Some(c) => if caller@ != c.admin@ {
            Some(Error::Unauthorized)
        } else {
            release_items_check(bounties, items)
        },
    }
}

/// The batch names a bounty id twice, or one that already has an escrow.
pub open spec fn batch_reuses_id(bounties: Map<u64, BountyRecord>, items: Seq<LockFundsItem>) -> bool {
    ||| exists|i: int, j: int|
        0 <= i < j < items.len() && (#[trigger] items[i]).bounty_id == (#[trigger] items[j]).bounty_id
    ||| exists|i: int| 0 <= i < items.len() && bounties.contains_key((#[trigger] items[i]).bounty_id)
}

/// The deposits a successful batch lock of `items` asks for, in batch order.
pub open spec fn lock_deposits(items: Seq<LockFundsItem>) -> Seq<Transfer> {
    Seq::new(
        items.len(),
        |i: int| Transfer::Deposit { from: items[i].depositor, amount: items[i].amount },
    )
}

/// The payouts a successful batch release of `items` asks for, in batch order.
pub open spec fn release_payouts(bounties: Map<u64, BountyRecord>, items: Seq<ReleaseFundsItem>) -> Seq<
    Transfer,
> {
    Seq::new(
        items.len(),
        |i: int|
            Transfer::Payout {
                to: items[i].contributor,
                amount: bounties[items[i].bounty_id].escrow.amount,
            },
    )
}

/// Once a prefix of the batch fails a check, the whole batch fails it.
proof fn lemma_lock_items_check_prefix(
    bounties: Map<u64, BountyRecord>,
    caller: Address,
    items: Seq<LockFundsItem>,
    k: int,
    now: u64,
)
    requires
        0 <= k <= items.len(),
        lock_items_check(bounties, caller, items.take(k), now) is Some,
    ensures
        lock_items_check(bounties, caller, items, now) == lock_items_check(
            bounties,
            caller,
            items.take(k),
            now,
        ),
    decreases items.len(),
{
    if k == items.len() {
        assert(items.take(k) =~= items);
    } else {
        assert(items.drop_last().take(k) =~= items.take(k));
        lemma_lock_items_check_prefix(bounties, caller, items.drop_last(), k, now);
    }
}

/// A batch that passes every check passes each item's check.
proof fn lemma_lock_items_pass(
    bounties: Map<u64, BountyRecord>,
    caller: Address,
    items: Seq<LockFundsItem>,
    now: u64,
)
    requires
        lock_items_check(bounties, caller, items, now) is None,
    ensures
        forall|i: int|
            0 <= i < items.len() ==> lock_item_check(bounties, caller, items.take(i), #[trigger] items[i], now)
                is None,
    decreases items.len(),
{
    if items.len() > 0 {
        let d = items.drop_last();
        lemma_lock_items_pass(bounties, caller, d, now);
        assert forall|i: int| 0 <= i < items.len() implies lock_item_check(
            bounties,
            caller,
            items.take(i),
            #[trigger] items[i],
            now,
        ) is None by {
            if i < d.len() {
                assert(d.take(i) =~= items.take(i));
                assert(d[i] == items[i]);
            } else {
                assert(d =~= items.take(i));
            }
        }
    }
}

/// Once a prefix of the batch fails a check, the whole batch fails it.
proof fn lemma_release_items_check_prefix(bounties: Map<u64, BountyRecord>, items: Seq<ReleaseFundsItem>, k: int)
    requires
        0 <= k <= items.len(),
        release_items_check(bounties, items.take(k)) is Some,
    ensures
        release_items_check(bounties, items) == release_items_check(bounties, items.take(k)),
    decreases items.len(),
{
    if k == items.len() {
        assert(items.take(k) =~= items);
    } else {
        assert(items.drop_last().take(k) =~= items.take(k));
        lemma_release_items_check_prefix(bounties, items.drop_last(), k);
    }
}

/// A batch that passes every check passes each item's check.
proof fn lemma_release_items_pass(bounties: Map<u64, BountyRecord>, items: Seq<ReleaseFundsItem>)
    requires
        release_items_check(bounties, items) is None,
    ensures
        forall|i: int|
            0 <= i < items.len() ==> release_item_check(bounties, items.take(i), #[trigger] items[i])
                is None,
    decreases items.len(),
{
    if items.len() > 0 {
        let d = items.drop_last();
        lemma_release_items_pass(bounties, d);
        assert forall|i: int| 0 <= i < items.len() implies release_item_check(
            bounties,
            items.take(i),
            #[trigger] items[i],
        ) is None by {
            if i < d.len() {
                assert(d.take(i) =~= items.take(i));
                assert(d[i] == items[i]);
            } else {
                assert(d =~= items.take(i));
            }
        }
    }
}

/// A batch lock that reuses a bounty id, within the batch or from an
/// existing escrow, fails one of the checks, so it creates no escrow.
pub proof fn lemma_batch_lock_funds_reused_id_fails(
    config: Option<Config>,
    bounties: Map<u64, BountyRecord>,
    caller: Address,
    items: Seq<LockFundsItem>,
    now: u64,
)
    requires
        batch_reuses_id(bounties, items),
    ensures
        batch_lock_check(config, bounties, caller, items, now) is Some,
{
    if config is Some {
        if lock_items_check(bounties, caller, items, now) is None {
            lemma_lock_items_pass(bounties, caller, items, now);
            if exists|i: int, j: int|
                0 <= i < j < items.len() && (#[trigger] items[i]).bounty_id == (#[trigger] items[j]).bounty_id {
                let (i, j) = choose|i: int, j: int|
                    0 <= i < j < items.len() && (#[trigger] items[i]).bounty_id == (#[trigger] items[j]).bounty_id;
                assert(items.take(j)[i] == items[i]);
                assert(lock_items_name(items.take(j), items[j].bounty_id));
                assert(lock_item_check(bounties, caller, items.take(j), items[j], now) is None);
            } else {
                let i = choose|i: int| 0 <= i < items.len() && bounties.contains_key((#[trigger] items[i]).bounty_id);
                assert(lock_item_check(bounties, caller, items.take(i), items[i], now) is None);
            }
        }
    }
}

impl LockFundsItem {
    fn duplicate(&self) -> (r: Self)
        ensures
            r == *self,
    {
        LockFundsItem {
            bounty_id: self.bounty_id,
            depositor: self.depositor.clone(),
            amount: self.amount,
            deadline: self.deadline,
        }
    }
}

impl BountyEscrowContract {
    /// Locks every item of `items` or none of them. `caller` must be the
    /// depositor of every item; `now` is the ledger time. The whole batch is
    /// checked before anything changes. Returns the deposits the host must
    /// make, in batch order; their number is the number of escrows created.
    pub fn batch_lock_funds(&mut self, caller: &Address, items: Vec<LockFundsItem>, now: u64) -> (r:
        Result<Vec<Transfer>, Error>)
        requires
            old(self).wf(),
        ensures
            final(self).wf(),
            final(self).spec_config() == old(self).spec_config(),
            escrows_step(old(self).spec_bounties(), final(self).spec_bounties()),
            batch_reuses_id(old(self).spec_bounties(), items@) ==> r is Err && *final(self) == *old(
                self,
            ),
            match batch_lock_check(old(self).spec_config(), old(self).spec_bounties(), *caller, items@, now) {
                Some(e) => r == Err::<Vec<Transfer>, Error>(e) && *final(self) == *old(self),
                None => {
                    let prev = old(self).spec_bounties();
                    let next = final(self).spec_bounties();
                    &&& r matches Ok(t) && t@ == lock_deposits(items@)
                    &&& forall|id: u64|
                        #![trigger next.contains_key(id)]
                        next.contains_key(id) <==> prev.contains_key(id) || lock_items_name(items@, id)
                    &&& forall|id: u64| #![trigger prev.contains_key(id)] prev.contains_key(id) ==> next[id] == prev[id]
                    &&& forall|i: int|
                        0 <= i < items@.len() ==> next[(#[trigger] items@[i]).bounty_id].is_fresh(
                            items@[i].depositor,
                            items@[i].amount,
                            items@[i].deadline,
                        )
                },
            },
    {
        proof {
            if batch_reuses_id(old(self).spec_bounties(), items@) {
                lemma_batch_lock_funds_reused_id_fails(
                    old(self).spec_config(),
                    old(self).spec_bounties(),
                    *caller,
                    items@,
                    now,
                );
            }
        }
        if self.config.is_none() {
            return Err(Error::NotInitialized);
        }
        let ghost prev = self.bounties@;
        let ghost all = items@;
        let n = items.len();
        let mut i: usize = 0;
        while i < n
            invariant
                n == all.len(),
                all == items@,
                prev == self.bounties@,
                *self == *old(self),
                self.wf(),
                self.config is Some,
                i <= n,
                lock_items_check(prev, *caller, all.take(i as int), now) is None,
            decreases n - i,
        {
            let item = &items[i];
            let ghost earlier = all.take(i as int);
            proof {
                assert(all.take(i + 1).drop_last() =~= earlier);
                assert(all.take(i + 1).last() == all[i as int]);
            }
            let failure = if !(*caller == item.depositor) {
                Some(Error::Unauthorized)
            } else if self.bounties.contains_key(&item.bounty_id) {
                Some(Error::BountyExists)
            } else {
                let mut j: usize = 0;
                let mut seen = false;
                while j < i
                    invariant
                        j <= i < n,
                        n == all.len(),
                        all == items@,
                        earlier == all.take(i as int),
                        *item == all[i as int],
                        !seen ==> forall|m: int| 0 <= m < j ==> (#[trigger] earlier[m]).bounty_id != item.bounty_id,
                        seen ==> lock_items_name(earlier, item.bounty_id),
                    decreases i - j,
                {
                    if !seen && items[j].bounty_id == item.bounty_id {
                        seen = true;
                        assert(earlier[j as int] == items@[j as int]);
                    }
                    j += 1;
                }
                if seen {
                    Some(Error::DuplicateBatchId)
                } else if item.amount <= 0 {
                    Some(Error::InvalidAmount)
                } else if item.deadline <= now {
                    Some(Error::InvalidDeadline)
                } else {
                    None
                }
            };
            if let Some(e) = failure {
                proof {
                    lemma_lock_items_check_prefix(prev, *caller, all, i + 1, now);
                }
                return Err(e);
            }
            i += 1;
        }
        proof {
            assert(all.take(n as int) =~= all);
            lemma_lock_items_pass(prev, *caller, all, now);
        }
        let mut deposits: Vec<Transfer> = Vec::new();
        let mut i: usize = 0;
        while i < n
            invariant
                n == all.len(),
                all == items@,
                i <= n,
                records_wf(self.bounties@),
                self.config == old(self).config,
                self.config is Some,
                forall|k: int|
                    0 <= k < all.len() ==> lock_item_check(prev, *caller, all.take(k), #[trigger] all[k], now)
                        is None,
                forall|id: u64|
                    #![trigger self.bounties@.contains_key(id)]
                    self.bounties@.contains_key(id) <==> prev.contains_key(id) || lock_items_name(
                        all.take(i as int),
                        id,
                    ),
                forall|id: u64| #![trigger prev.contains_key(id)] prev.contains_key(id) ==> self.bounties@[id] == prev[id],
                forall|k: int|
                    0 <= k < i ==> self.bounties@[(#[trigger] all[k]).bounty_id].is_fresh(
                        all[k].depositor,
                        all[k].amount,
                        all[k].deadline,
                    ),
                deposits@ == lock_deposits(all).take(i as int),
            decreases n - i,
        {
            let item = items[i].duplicate();
            let ghost id = item.bounty_id;
            proof {
                assert(lock_item_check(prev, *caller, all.take(i as int), all[i as int], now) is None);
                assert forall|k: int| 0 <= k < i implies (#[trigger] all[k]).bounty_id != id by {
                    assert(all.take(i as int)[k] == all[k]);
                }
                assert(!self.bounties@.contains_key(id));
            }
            let record = BountyRecord {
                escrow: Escrow {
                    depositor: item.depositor.clone(),
                    amount: item.amount,
                    status: EscrowStatus::Locked,
                    deadline: item.deadline,
                },
                metadata: None,
                schedules: Vec::new(),
                history: Vec::new(),
            };
            assert(record.schedules@.len() == 0 && scheduled_total(record.schedules@) == 0);
            proof {
                lemma_records_wf_insert(self.bounties@, item.bounty_id, record);
            }
            let ghost before = self.bounties@;
            self.bounties.insert(item.bounty_id, record);
            deposits.push(Transfer::Deposit { from: item.depositor, amount: item.amount });
            proof {
                assert forall|id2: u64| #![trigger self.bounties@.contains_key(id2)]
                    self.bounties@.contains_key(id2) <==> prev.contains_key(id2) || lock_items_name(
                        all.take(i + 1),
                        id2,
                    ) by {
                    if lock_items_name(all.take(i as int), id2) {
                        let m = choose|m: int| 0 <= m < i && (#[trigger] all.take(i as int)[m]).bounty_id == id2;
                        assert(all.take(i + 1)[m] == all.take(i as int)[m]);
                    }
                    if id2 == id {
                        assert(all.take(i + 1)[i as int] == all[i as int]);
                    }
                    if lock_items_name(all.take(i + 1), id2) && id2 != id {
                        let m = choose|m: int| 0 <= m < i + 1 && (#[trigger] all.take(i + 1)[m]).bounty_id == id2;
                        assert(all.take(i as int)[m] == all.take(i + 1)[m]);
                    }
                }
                assert forall|k: int| 0 <= k < i + 1 implies self.bounties@[(#[trigger] all[k]).bounty_id].is_fresh(
                    all[k].depositor,
                    all[k].amount,
                    all[k].deadline,
                ) by {
                    if k < i {
                        assert(before.contains_key(all[k].bounty_id)) by {
                            assert(all.take(i as int)[k] == all[k]);
                        }
                    }
                }
                assert(deposits@ =~= lock_deposits(all).take(i + 1));
            }
            i += 1;
        }
        proof {
            assert(all.take(n as int) =~= all);
            assert(deposits@ =~= lock_deposits(all));
        }
        Ok(deposits)
    }

    /// Releases every item of `items` or none of them: each escrow pays its
    /// amount to the item's contributor. `caller` must be the
    /// controller. The whole batch is checked before anything changes.
    /// Returns the payouts the host must make, in batch order; their number
    /// is the number of escrows released.
    pub fn batch_release_funds(&mut self, caller: &Address, items: Vec<ReleaseFundsItem>) -> (r:
        Result<Vec<Transfer>, Error>)
        requires
            old(self).wf(),
        ensures
            final(self).wf(),
            final(self).spec_config() == old(self).spec_config(),
            escrows_step(old(self).spec_bounties(), final(self).spec_bounties()),
            match batch_release_check(old(self).spec_config(), old(self).spec_bounties(), *caller, items@) {
                Some(e) => r == Err::<Vec<Transfer>, Error>(e) && *final(self) == *old(self),
                None => {
                    let prev = old(self).spec_bounties();
                    let next = final(self).spec_bounties();
                    &&& r matches Ok(t) && t@ == release_payouts(prev, items@)
                    &&& next.dom() == prev.dom()
                    &&& forall|id: u64|
                        #![trigger next[id]]
                        prev.contains_key(id) ==> next[id] == if release_items_name(items@, id) {
                            prev[id].with_status(EscrowStatus::Released)
                        } else {
                            prev[id]
                        }
                },
            },
    {
        let config = match &self.config {
            Some(c) => c,
            None => return Err(Error::NotInitialized),
        };
        if !(*caller == config.admin) {
            return Err(Error::Unauthorized);
        }
        let ghost prev = self.bounties@;
        let ghost all = items@;
        let n = items.len();
        let mut i: usize = 0;
        while i < n
            invariant
                n == all.len(),
                all == items@,
                prev == self.bounties@,
                *self == *old(self),
                self.wf(),
                batch_release_check(self.config, prev, *caller, all) == release_items_check(prev, all),
                i <= n,
                release_items_check(prev, all.take(i as int)) is None,
            decreases n - i,
        {
            let item = &items[i];
            let ghost earlier = all.take(i as int);
            proof {
                assert(all.take(i + 1).drop_last() =~= earlier);
                assert(all.take(i + 1).last() == all[i as int]);
            }
            let failure = match self.bounties.get(&item.bounty_id) {
                None => Some(Error::BountyNotFound),
                Some(rec) => if rec.escrow.status != EscrowStatus::Locked {
                    Some(Error::FundsNotLocked)
                } else {
                    let mut j: usize = 0;
                    let mut seen = false;
                    while j < i
                        invariant
                            j <= i < n,
                            n == all.len(),
                            all == items@,
                            earlier == all.take(i as int),
                            *item == all[i as int],
                            !seen ==> forall|m: int|
                                0 <= m < j ==> (#[trigger] earlier[m]).bounty_id != item.bounty_id,
                            seen ==> release_items_name(earlier, item.bounty_id),
                        decreases i - j,
                    {
                        if !seen && items[j].bounty_id == item.bounty_id {
                            seen = true;
                            assert(earlier[j as int] == items@[j as int]);
                        }
                        j += 1;
                    }
                    if seen {
                        Some(Error::DuplicateBatchId)
                    } else {
                        None
                    }
                },
            };
            if let Some(e) = failure {
                proof {
                    lemma_release_items_check_prefix(prev, all, i + 1);
                }
                return Err(e);
            }
            i += 1;
        }
        proof {
            assert(all.take(n as int) =~= all);
            lemma_release_items_pass(prev, all);
        }
        let mut payouts: Vec<Transfer> = Vec::new();
        let mut i: usize = 0;
        while i < n
            invariant
                n == all.len(),
                all == items@,
                i <= n,
                records_wf(self.bounties@),
                self.config == old(self).config,
                forall|k: int|
                    0 <= k < all.len() ==> release_item_check(prev, all.take(k), #[trigger] all[k]) is None,
                self.bounties@.dom() == prev.dom(),
                escrows_step(prev, self.bounties@),
                forall|id: u64|
                    #![trigger self.bounties@[id]]
                    prev.contains_key(id) ==> self.bounties@[id] == if release_items_name(
                        all.take(i as int),
                        id,
                    ) {
                        prev[id].with_status(EscrowStatus::Released)
                    } else {
                        prev[id]
                    },
                payouts@ == release_payouts(prev, all).take(i as int),
            decreases n - i,
        {
            let id = items[i].bounty_id;
            proof {
                assert(release_item_check(prev, all.take(i as int), all[i as int]) is None);
                assert(!release_items_name(all.take(i as int), id));
                assert(self.bounties@[id] == prev[id]);
            }
            let amount = match self.bounties.get(&id) {
                Some(rec) => rec.escrow.amount,
                None => 0,
            };
            let ghost before = self.bounties@;
            self.set_status(id, EscrowStatus::Released);
            payouts.push(Transfer::Payout { to: items[i].contributor.clone(), amount });
            proof {
                assert forall|x: u64| #![trigger prev.contains_key(x)] prev.contains_key(x) implies self.bounties@.contains_key(x)
                    && escrow_step(prev[x].escrow, self.bounties@[x].escrow) by {
                    assert(before.contains_key(x));
                }
                assert forall|x: u64| #![trigger self.bounties@[x]] prev.contains_key(x) implies self.bounties@[x] == if release_items_name(
                    all.take(i + 1),
                    x,
                ) {
                    prev[x].with_status(EscrowStatus::Released)
                } else {
                    prev[x]
                } by {
                    assert(before[x] == if release_items_name(all.take(i as int), x) {
                        prev[x].with_status(EscrowStatus::Released)
                    } else {
                        prev[x]
                    });
                    if release_items_name(all.take(i as int), x) {
                        let m = choose|m: int| 0 <= m < i && (#[trigger] all.take(i as int)[m]).bounty_id == x;
                        assert(all.take(i + 1)[m] == all.take(i as int)[m]);
                    }
                    if x == id {
                        assert(all.take(i + 1)[i as int] == all[i as int]);
                    }
                    if release_items_name(all.take(i + 1), x) && x != id {
                        let m = choose|m: int| 0 <= m < i + 1 && (#[trigger] all.take(i + 1)[m]).bounty_id == x;
                        assert(all.take(i as int)[m] == all.take(i + 1)[m]);
                    }
                }
                assert(self.bounties@.dom() =~= prev.dom());
                assert(payouts@ =~= release_payouts(prev, all).take(i + 1));
            }
            i += 1;
        }
        proof {
            assert(all.take(n as int) =~= all);
            assert(payouts@ =~= release_payouts(prev, all));
        }
        Ok(payouts)
    }
}

} // verus!
