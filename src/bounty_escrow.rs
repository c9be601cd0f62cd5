//! Per-bounty escrows: lock, release and refund, metadata, and the records
//! kept for each bounty id.

use std::collections::HashMap;
use vstd::prelude::*;

use crate::address::Address;
use crate::metadata::{escrow_metadata_fits, validate_metadata_size, EscrowMetadata};

mod batch;
mod schedule;

pub use batch::{
    batch_lock_check, batch_release_check, batch_reuses_id, lemma_batch_lock_funds_reused_id_fails,
    lock_deposits, lock_item_check, lock_items_check, lock_items_name, release_item_check,
    release_items_check, release_items_name, release_payouts, LockFundsItem, ReleaseFundsItem,
};

pub use schedule::{
    create_schedule_check, manual_release_check, schedule_release_check, schedule_selected,
    selected_schedules,
};

verus! {

broadcast use vstd::std_specs::hash::group_hash_axioms;

/// Failures of the bounty escrow's operations.
#[derive(Clone, Copy, Debug, PartialEq, Eq, Structural)]
pub enum Error {
    /// The contract has already been initialized.
    AlreadyInitialized,
    /// The contract has not been initialized yet.
    NotInitialized,
    /// An escrow already exists for the bounty id.
    BountyExists,
    /// No escrow exists for the bounty id.
    BountyNotFound,
    /// The escrow is no longer locked.
    FundsNotLocked,
    /// The escrow's deadline has not been reached.
    DeadlineNotPassed,
    /// The caller is not the principal the operation requires.
    Unauthorized,
    /// The metadata exceeds the escrow metadata limits.
    MetadataTooLarge,
    /// The amount is not positive, or exceeds what is left to schedule.
    InvalidAmount,
    /// The deadline is not after the current ledger time.
    InvalidDeadline,
    /// The bounty has no schedule with that id.
    ScheduleNotFound,
    /// The schedule has already been released.
    AlreadyReleased,
    /// The schedule's release time has not been reached.
    TooEarly,
    /// A batch names the same bounty id twice.
    DuplicateBatchId,
    /// The bounty has used every schedule id.
    ScheduleIdsExhausted,
}

/// Where an escrow stands: `Locked` until it is released or refunded, both final.
#[derive(Clone, Copy, Debug, PartialEq, Eq, Structural)]
pub enum EscrowStatus {
    Locked,
    Released,
    Refunded,
}

/// The funds a depositor locked for one bounty.
#[derive(Debug, PartialEq, Eq)]
pub struct Escrow {
    pub depositor: Address,
    pub amount: i128,
    pub status: EscrowStatus,
    pub deadline: u64,
}

impl Clone for Escrow {
    fn clone(&self) -> (r: Self)
        ensures
            r == *self,
    {
        Escrow {
            depositor: self.depositor.clone(),
            amount: self.amount,
            status: self.status,
            deadline: self.deadline,
        }
    }
}

/// An escrow together with its metadata, if any was set.
#[derive(Debug)]
pub struct EscrowWithMetadata<'a> {
    pub escrow: Escrow,
    pub metadata: Option<&'a EscrowMetadata>,
}

/// A token movement the host must carry out for an operation to take effect.
#[derive(Debug, PartialEq, Eq)]
pub enum Transfer {
    /// `amount` moves from `from` into the contract.
    Deposit { from: Address, amount: i128 },
    /// `amount` moves from the contract to `to`.
    Payout { to: Address, amount: i128 },
}

/// How a schedule was released.
#[derive(Clone, Copy, Debug, PartialEq, Eq, Structural)]
pub enum ReleaseType {
    /// By the controller, at any time.
    Manual,
    /// By anyone, once its release time was reached.
    Automatic,
}

/// A planned partial disbursement of a bounty's escrow.
#[derive(Debug, PartialEq, Eq)]
pub struct ReleaseSchedule {
    pub bounty_id: u64,
    pub schedule_id: u64,
    pub amount: i128,
    pub release_timestamp: u64,
    pub recipient: Address,
    pub released: bool,
    pub released_at: Option<u64>,
    pub released_by: Option<Address>,
    pub release_type: Option<ReleaseType>,
}

fn clone_optional_address(a: &Option<Address>) -> (r: Option<Address>)
    ensures
        r == *a,
{
    match a {
        Some(x) => Some(x.clone()),
        None => None,
    }
}

impl Clone for ReleaseSchedule {
    fn clone(&self) -> (r: Self)
        ensures
            r == *self,
    {
        ReleaseSchedule {
            bounty_id: self.bounty_id,
            schedule_id: self.schedule_id,
            amount: self.amount,
            release_timestamp: self.release_timestamp,
            recipient: self.recipient.clone(),
            released: self.released,
            released_at: self.released_at,
            released_by: clone_optional_address(&self.released_by),
            release_type: self.release_type,
        }
    }
}

/// One completed schedule release, as kept in a bounty's history.
#[derive(Debug, PartialEq, Eq)]
pub struct ReleaseHistory {
    pub bounty_id: u64,
    pub schedule_id: u64,
    pub amount: i128,
    pub recipient: Address,
    pub release_type: ReleaseType,
    pub released_at: u64,
    pub released_by: Address,
}

/// Everything kept for one bounty id.
#[derive(Debug)]
pub struct BountyRecord {
    pub escrow: Escrow,
    pub metadata: Option<EscrowMetadata>,
    /// Schedule `k` (ids start at 1) stands at index `k - 1`.
    pub schedules: Vec<ReleaseSchedule>,
    /// Completed schedule releases, in the order they happened.
    pub history: Vec<ReleaseHistory>,
}

/// The contract's configuration, fixed at initialization.
#[derive(Debug)]
pub struct Config {
    /// The controller: the principal allowed to release funds.
    pub admin: Address,
    /// The token that escrows hold.
    pub token: Address,
}

/// Sum of the amounts of `s`.
pub open spec fn scheduled_total(s: Seq<ReleaseSchedule>) -> int
    decreases s.len(),
{
    if s.len() == 0 {
        0
    } else {
        scheduled_total(s.drop_last()) + s.last().amount
    }
}

impl ReleaseSchedule {
    /// The release fields are set exactly when the schedule is released.
    pub open spec fn wf(&self) -> bool {
        &&& self.amount > 0
        &&& self.released == self.released_at is Some
        &&& self.released == self.released_by is Some
        &&& self.released == self.release_type is Some
    }
}

impl BountyRecord {
    /// A record kept under `id`: a positive escrow, schedules numbered from 1
    /// in creation order, and schedules that together never exceed the escrow.
    pub open spec fn wf(&self, id: u64) -> bool {
        &&& self.escrow.amount > 0
        &&& forall|i: int|
            0 <= i < self.schedules@.len() ==> {
                &&& (#[trigger] self.schedules@[i]).wf()
                &&& self.schedules@[i].schedule_id == i + 1
                &&& self.schedules@[i].bounty_id == id
            }
        &&& scheduled_total(self.schedules@) <= self.escrow.amount
    }

    /// A record just created by locking `amount` from `depositor` until `deadline`.
    pub open spec fn is_fresh(&self, depositor: Address, amount: i128, deadline: u64) -> bool {
        &&& self.escrow == (Escrow { depositor, amount, status: EscrowStatus::Locked, deadline })
        &&& self.metadata is None
        &&& self.schedules@.len() == 0
        &&& self.history@.len() == 0
    }

    /// This record with its escrow's status set to `status`.
    pub open spec fn with_status(self, status: EscrowStatus) -> BountyRecord {
        BountyRecord { escrow: Escrow { status, ..self.escrow }, ..self }
    }
}

/// `next` may follow `prev` in an escrow's life: depositor, amount and deadline
/// never change, and the status changes only by leaving `Locked`.
pub open spec fn escrow_step(prev: Escrow, next: Escrow) -> bool {
    &&& next.depositor == prev.depositor
    &&& next.amount == prev.amount
    &&& next.deadline == prev.deadline
    &&& (next.status == prev.status || prev.status == EscrowStatus::Locked)
}

/// No escrow of `prev` disappears from `next`, and each took an [`escrow_step`].
pub open spec fn escrows_step(prev: Map<u64, BountyRecord>, next: Map<u64, BountyRecord>) -> bool {
    forall|id: u64|
        #![trigger prev.contains_key(id)]
        prev.contains_key(id) ==> next.contains_key(id) && escrow_step(
            prev[id].escrow,
            next[id].escrow,
        )
}

/// An escrow's status only ever leaves `Locked`, for `Released` or for
/// `Refunded`; once it has left, it never changes again, so an escrow is
/// never both released and refunded and never locked again.
pub proof fn lemma_status_transitions(prev: Escrow, next: Escrow)
    requires
        escrow_step(prev, next),
    ensures
        next.status != prev.status ==> prev.status == EscrowStatus::Locked && (next.status
            == EscrowStatus::Released || next.status == EscrowStatus::Refunded),
        prev.status != EscrowStatus::Locked ==> next.status == prev.status,
{
}

/// Steps compose: over any run of operations, each escrow present at the
/// start is still present and has taken a single [`escrow_step`] overall.
pub proof fn lemma_escrows_step_transitive(
    a: Map<u64, BountyRecord>,
    b: Map<u64, BountyRecord>,
    c: Map<u64, BountyRecord>,
)
    requires
        escrows_step(a, b),
        escrows_step(b, c),
    ensures
        escrows_step(a, c),
{
    assert forall|id: u64| #![trigger a.contains_key(id)] a.contains_key(id) implies c.contains_key(id)
        && escrow_step(a[id].escrow, c[id].escrow) by {
        assert(b.contains_key(id));
    }
}

/// The schedules created for a bounty never add up to more than the amount
/// locked in its escrow.
pub proof fn lemma_schedules_within_escrow(contract: &BountyEscrowContract, bounty_id: u64)
    requires
        contract.wf(),
        contract.spec_bounties().contains_key(bounty_id),
    ensures
        scheduled_total(contract.spec_bounties()[bounty_id].schedules@)
            <= contract.spec_bounties()[bounty_id].escrow.amount,
{
}

/// The first check that locking fails, in the order the checks are made.
pub open spec fn lock_check(
    config: Option<Config>,
    bounties: Map<u64, BountyRecord>,
    caller: Address,
    depositor: Address,
    bounty_id: u64,
    amount: i128,
    deadline: u64,
    now: u64,
) -> Option<Error> {
    if caller@ != depositor@ {
        Some(Error::Unauthorized)
    } else if config is None {
        Some(Error::NotInitialized)
    } else if bounties.contains_key(bounty_id) {
        Some(Error::BountyExists)
    } else if amount <= 0 {
        Some(Error::InvalidAmount)
    } else if deadline <= now {
        Some(Error::InvalidDeadline)
    } else {
        None
    }
}

/// The first check that releasing `bounty_id` by `caller` fails.
pub open spec fn release_check(
    config: Option<Config>,
    bounties: Map<u64, BountyRecord>,
    caller: Address,
    bounty_id: u64,
) -> Option<Error> {
    match config {
        None => Some(Error::NotInitialized),
        Some(c) => if caller@ != c.admin@ {
            Some(Error::Unauthorized)
        } else if !bounties.contains_key(bounty_id) {
            Some(Error::BountyNotFound)
        } else if bounties[bounty_id].escrow.status != EscrowStatus::Locked {
            Some(Error::FundsNotLocked)
        } else {
            None
        },
    }
}

/// The first check that refunding `bounty_id` at time `now` fails.
pub open spec fn refund_check(bounties: Map<u64, BountyRecord>, bounty_id: u64, now: u64) -> Option<
    Error,
> {
    if !bounties.contains_key(bounty_id) {
        Some(Error::BountyNotFound)
    } else if bounties[bounty_id].escrow.status != EscrowStatus::Locked {
        Some(Error::FundsNotLocked)
    } else if now < bounties[bounty_id].escrow.deadline {
        Some(Error::DeadlineNotPassed)
    } else {
        None
    }
}

/// Every record of `m` is well formed for its id.
pub open spec fn records_wf(m: Map<u64, BountyRecord>) -> bool {
    forall|id: u64| #![trigger m.contains_key(id)] m.contains_key(id) ==> m[id].wf(id)
}

/// Replacing one record by a well-formed one keeps a map of records well formed.
proof fn lemma_records_wf_insert(m: Map<u64, BountyRecord>, id: u64, rec: BountyRecord)
    requires
        records_wf(m),
        rec.wf(id),
    ensures
        records_wf(m.insert(id, rec)),
{
    assert forall|k: u64| #[trigger] m.insert(id, rec).contains_key(k) implies m.insert(id, rec)[k].wf(
        k,
    ) by {
        if k != id {
            assert(m.contains_key(k));
        }
    }
}

/// For schedules of positive amounts, no prefix schedules more than the whole.
proof fn lemma_schedule_totals(s: Seq<ReleaseSchedule>, k: int)
    requires
        0 <= k <= s.len(),
        forall|i: int| 0 <= i < s.len() ==> #[trigger] s[i].amount > 0,
    ensures
        0 <= scheduled_total(s.take(k)) <= scheduled_total(s),
    decreases s.len(),
{
    if s.len() > 0 {
        let d = s.drop_last();
        if k == s.len() {
            assert(s.take(k) =~= s);
            lemma_schedule_totals(d, 0);
        } else {
            assert(d.take(k) =~= s.take(k));
            lemma_schedule_totals(d, k);
        }
    } else {
        assert(s.take(k) =~= s);
    }
}

/// `records` can be loaded as a contract's state: its ids are distinct and
/// each record is well formed for its id.
pub open spec fn restorable(records: Seq<(u64, BountyRecord)>) -> bool {
    &&& forall|i: int, j: int|
        0 <= i < j < records.len() ==> (#[trigger] records[i]).0 != (#[trigger] records[j]).0
    &&& forall|i: int| 0 <= i < records.len() ==> (#[trigger] records[i]).1.wf(records[i].0)
}

/// Some entry of `records` has the id `id`.
pub open spec fn names_id(records: Seq<(u64, BountyRecord)>, id: u64) -> bool {
    exists|i: int| 0 <= i < records.len() && (#[trigger] records[i]).0 == id
}

/// Whether `rec` is well formed for `id`.
fn record_is_wf(rec: &BountyRecord, id: u64) -> (r: bool)
    ensures
        r == rec.wf(id),
{
    if rec.escrow.amount <= 0 {
        return false;
    }
    let ghost s = rec.schedules@;
    let mut total: i128 = 0;
    let mut i: usize = 0;
    while i < rec.schedules.len()
        invariant
            s == rec.schedules@,
            rec.escrow.amount > 0,
            i <= s.len(),
            total == scheduled_total(s.take(i as int)),
            0 <= total <= rec.escrow.amount,
            forall|j: int|
                0 <= j < i ==> {
                    &&& (#[trigger] s[j]).wf()
                    &&& s[j].schedule_id == j + 1
                    &&& s[j].bounty_id == id
                },
        decreases s.len() - i,
    {
        let sched = &rec.schedules[i];
        proof {
            assert(s.take(i + 1).drop_last() =~= s.take(i as int));
        }
        let ok = sched.amount > 0 && sched.released == sched.released_at.is_some()
            && sched.released == sched.released_by.is_some() && sched.released
            == sched.release_type.is_some() && sched.schedule_id >= 1 && sched.schedule_id - 1
            == i as u64 && sched.bounty_id == id;
        if !ok {
            return false;
        }
        if sched.amount > rec.escrow.amount - total {
            proof {
                if forall|j: int| 0 <= j < s.len() ==> #[trigger] s[j].amount > 0 {
                    lemma_schedule_totals(s, i + 1);
                }
            }
            return false;
        }
        total = total + sched.amount;
        i += 1;
    }
    assert(s.take(i as int) =~= s);
    true
}

/// The bounty escrow contract: per-bounty escrows with their schedules and
/// histories, and the configuration set at initialization.
pub struct BountyEscrowContract {
    config: Option<Config>,
    bounties: HashMap<u64, BountyRecord>,
}

impl BountyEscrowContract {
    /// The configuration; `None` before initialization.
    pub closed spec fn spec_config(&self) -> Option<Config> {
        self.config
    }

    /// The record kept under each bounty id.
    pub closed spec fn spec_bounties(&self) -> Map<u64, BountyRecord> {
        self.bounties@
    }

    /// Every record is well formed for its id.
    pub open spec fn wf(&self) -> bool {
        records_wf(self.spec_bounties())
    }

    /// An uninitialized contract without escrows.
    pub fn new() -> (r: Self)
        ensures
            r.wf(),
            r.spec_config() is None,
            r.spec_bounties() == Map::<u64, BountyRecord>::empty(),
    {
        BountyEscrowContract { config: None, bounties: HashMap::new() }
    }

    /// Sets the controller and the token, once.
    pub fn init(&mut self, admin: Address, token: Address) -> (r: Result<(), Error>)
        requires
            old(self).wf(),
        ensures
            final(self).wf(),
            final(self).spec_bounties() == old(self).spec_bounties(),
            r == if old(self).spec_config() is Some {
                Err::<(), Error>(Error::AlreadyInitialized)
            } else {
                Ok(())
            },
            r is Err ==> *final(self) == *old(self),
            r is Ok ==> final(self).spec_config() == Some(Config { admin, token }),
    {
        if self.config.is_some() {
            return Err(Error::AlreadyInitialized);
        }
        self.config = Some(Config { admin, token });
        assert(self.spec_bounties() == old(self).spec_bounties());
        assert(self.wf());
        Ok(())
    }

    /// The configuration set at initialization.
    pub fn get_config(&self) -> (r: Result<&Config, Error>)
        ensures
            match self.spec_config() {
                Some(c) => r == Ok::<&Config, Error>(&c),
                None => r == Err::<&Config, Error>(Error::NotInitialized),
            },
    {
        match &self.config {
            Some(c) => Ok(c),
            None => Err(Error::NotInitialized),
        }
    }

    /// Locks `amount` from `depositor` for `bounty_id` until `deadline`.
    /// `caller` must be the depositor; `now` is the ledger time. Returns the
    /// deposit the host must make into the contract.
    pub fn lock_funds(
        &mut self,
        caller: &Address,
        depositor: Address,
        bounty_id: u64,
        amount: i128,
        deadline: u64,
        now: u64,
    ) -> (r: Result<Transfer, Error>)
        requires
            old(self).wf(),
        ensures
            final(self).wf(),
            final(self).spec_config() == old(self).spec_config(),
            escrows_step(old(self).spec_bounties(), final(self).spec_bounties()),
            match lock_check(
                old(self).spec_config(),
                old(self).spec_bounties(),
                *caller,
                depositor,
                bounty_id,
                amount,
                deadline,
                now,
            ) {
                Some(e) => r == Err::<Transfer, Error>(e) && *final(self) == *old(self),
                None => {
                    &&& r == Ok::<Transfer, Error>(Transfer::Deposit { from: depositor, amount })
                    &&& final(self).spec_bounties() == old(self).spec_bounties().insert(
                        bounty_id,
                        final(self).spec_bounties()[bounty_id],
                    )
                    &&& final(self).spec_bounties()[bounty_id].is_fresh(depositor, amount, deadline)
                },
            },
    {
        if !(*caller == depositor) {
            return Err(Error::Unauthorized);
        }
        if self.config.is_none() {
            return Err(Error::NotInitialized);
        }
        if self.bounties.contains_key(&bounty_id) {
            return Err(Error::BountyExists);
        }
        if amount <= 0 {
            return Err(Error::InvalidAmount);
        }
        if deadline <= now {
            return Err(Error::InvalidDeadline);
        }
        let record = BountyRecord {
            escrow: Escrow { depositor: depositor.clone(), amount, status: EscrowStatus::Locked, deadline },
            metadata: None,
            schedules: Vec::new(),
            history: Vec::new(),
        };
        assert(record.schedules@.len() == 0 && scheduled_total(record.schedules@) == 0);
        proof {
            lemma_records_wf_insert(self.bounties@, bounty_id, record);
        }
        self.bounties.insert(bounty_id, record);
        Ok(Transfer::Deposit { from: depositor, amount })
    }

    /// Releases the escrow of `bounty_id`: pays its amount to `contributor`
    /// and marks it `Released`. `caller` must be the
    /// controller. Returns the payout the host must make.
    pub fn release_funds(&mut self, caller: &Address, bounty_id: u64, contributor: Address) -> (r:
        Result<Transfer, Error>)
        requires
            old(self).wf(),
        ensures
            final(self).wf(),
            final(self).spec_config() == old(self).spec_config(),
            escrows_step(old(self).spec_bounties(), final(self).spec_bounties()),
            old(self).spec_bounties().contains_key(bounty_id) && old(self).spec_bounties()[bounty_id].escrow.status
                != EscrowStatus::Locked ==> r is Err,
            match release_check(old(self).spec_config(), old(self).spec_bounties(), *caller, bounty_id) {
                Some(e) => r == Err::<Transfer, Error>(e) && *final(self) == *old(self),
                None => {
                    let rec = old(self).spec_bounties()[bounty_id];
                    &&& r == Ok::<Transfer, Error>(
                        Transfer::Payout { to: contributor, amount: rec.escrow.amount },
                    )
                    &&& final(self).spec_bounties() == old(self).spec_bounties().insert(
                        bounty_id,
                        rec.with_status(EscrowStatus::Released),
                    )
                },
            },
    {
        let config = match &self.config {
            Some(c) => c,
            None => return Err(Error::NotInitialized),
        };
        if !(*caller == config.admin) {
            return Err(Error::Unauthorized);
        }
        let amount = match self.bounties.get(&bounty_id) {
            None => return Err(Error::BountyNotFound),
            Some(rec) => {
                if rec.escrow.status != EscrowStatus::Locked {
                    return Err(Error::FundsNotLocked);
                }
                rec.escrow.amount
            },
        };
        self.set_status(bounty_id, EscrowStatus::Released);
        Ok(Transfer::Payout { to: contributor, amount })
    }

    /// Returns the amount of the escrow of `bounty_id` to its depositor, once the ledger time `now` has reached its deadline, and marks it
    /// `Refunded`. Anyone may call it. Returns the payout the host must make.
    pub fn refund(&mut self, bounty_id: u64, now: u64) -> (r: Result<Transfer, Error>)
        requires
            old(self).wf(),
        ensures
            final(self).wf(),
            final(self).spec_config() == old(self).spec_config(),
            escrows_step(old(self).spec_bounties(), final(self).spec_bounties()),
            old(self).spec_bounties().contains_key(bounty_id) && now < old(self).spec_bounties()[bounty_id].escrow.deadline
                ==> r is Err,
            match refund_check(old(self).spec_bounties(), bounty_id, now) {
                Some(e) => r == Err::<Transfer, Error>(e) && *final(self) == *old(self),
                None => {
                    let rec = old(self).spec_bounties()[bounty_id];
                    &&& r == Ok::<Transfer, Error>(
                        Transfer::Payout { to: rec.escrow.depositor, amount: rec.escrow.amount },
                    )
                    &&& final(self).spec_bounties() == old(self).spec_bounties().insert(
                        bounty_id,
                        rec.with_status(EscrowStatus::Refunded),
                    )
                },
            },
    {
        let (amount, depositor) = match self.bounties.get(&bounty_id) {
            None => return Err(Error::BountyNotFound),
            Some(rec) => {
                if rec.escrow.status != EscrowStatus::Locked {
                    return Err(Error::FundsNotLocked);
                }
                if now < rec.escrow.deadline {
                    return Err(Error::DeadlineNotPassed);
                }
                (rec.escrow.amount, rec.escrow.depositor.clone())
            },
        };
        self.set_status(bounty_id, EscrowStatus::Refunded);
        Ok(Transfer::Payout { to: depositor, amount })
    }

    /// Closes the locked escrow of `bounty_id` with `status`.
    fn set_status(&mut self, bounty_id: u64, status: EscrowStatus)
        requires
            old(self).wf(),
            old(self).spec_bounties().contains_key(bounty_id),
            old(self).spec_bounties()[bounty_id].escrow.status == EscrowStatus::Locked,
        ensures
            final(self).wf(),
            final(self).spec_config() == old(self).spec_config(),
            escrows_step(old(self).spec_bounties(), final(self).spec_bounties()),
            final(self).spec_bounties() == old(self).spec_bounties().insert(
                bounty_id,
                old(self).spec_bounties()[bounty_id].with_status(status),
            ),
    {
        let mut rec = self.bounties.remove(&bounty_id).unwrap();
        let ghost prev = rec;
        rec.escrow.status = status;
        assert(rec == prev.with_status(status));
        proof {
            lemma_records_wf_insert(old(self).spec_bounties(), bounty_id, rec);
            assert(old(self).spec_bounties().remove(bounty_id).insert(bounty_id, rec)
                =~= old(self).spec_bounties().insert(bounty_id, rec));
        }
        self.bounties.insert(bounty_id, rec);
    }

    /// Attaches `metadata` to the escrow of `bounty_id`, replacing any earlier
    /// metadata. `caller` must be the escrow's depositor; `encoded_len` is the
    /// size in bytes of the host's encoding of `metadata`.
    pub fn set_escrow_metadata(
        &mut self,
        caller: &Address,
        bounty_id: u64,
        metadata: EscrowMetadata,
        encoded_len: usize,
    ) -> (r: Result<(), Error>)
        requires
            old(self).wf(),
        ensures
            final(self).wf(),
            final(self).spec_config() == old(self).spec_config(),
            escrows_step(old(self).spec_bounties(), final(self).spec_bounties()),
            r is Err ==> *final(self) == *old(self),
            !old(self).spec_bounties().contains_key(bounty_id) ==> r == Err::<(), Error>(
                Error::BountyNotFound,
            ),
            old(self).spec_bounties().contains_key(bounty_id) ==> {
                let rec = old(self).spec_bounties()[bounty_id];
                if caller@ != rec.escrow.depositor@ {
                    r == Err::<(), Error>(Error::Unauthorized)
                } else if !escrow_metadata_fits(metadata, encoded_len as nat) {
                    r == Err::<(), Error>(Error::MetadataTooLarge)
                } else {
                    &&& r is Ok
                    &&& final(self).spec_bounties() == old(self).spec_bounties().insert(
                        bounty_id,
                        (BountyRecord { metadata: Some(metadata), ..rec }),
                    )
                }
            },
    {
        match self.bounties.get(&bounty_id) {
            None => return Err(Error::BountyNotFound),
            Some(rec) => {
                if !(*caller == rec.escrow.depositor) {
                    return Err(Error::Unauthorized);
                }
            },
        }
        if !validate_metadata_size(&metadata, encoded_len) {
            return Err(Error::MetadataTooLarge);
        }
        let mut rec = self.bounties.remove(&bounty_id).unwrap();
        rec.metadata = Some(metadata);
        proof {
            lemma_records_wf_insert(old(self).spec_bounties(), bounty_id, rec);
            assert(old(self).spec_bounties().remove(bounty_id).insert(bounty_id, rec)
                =~= old(self).spec_bounties().insert(bounty_id, rec));
        }
        self.bounties.insert(bounty_id, rec);
        Ok(())
    }

    /// The escrow of `bounty_id`.
    pub fn get_escrow_info(&self, bounty_id: u64) -> (r: Result<Escrow, Error>)
        ensures
            self.spec_bounties().contains_key(bounty_id) ==> r == Ok::<Escrow, Error>(
                self.spec_bounties()[bounty_id].escrow,
            ),
            !self.spec_bounties().contains_key(bounty_id) ==> r == Err::<Escrow, Error>(
                Error::BountyNotFound,
            ),
    {
        match self.bounties.get(&bounty_id) {
            Some(rec) => Ok(rec.escrow.clone()),
            None => Err(Error::BountyNotFound),
        }
    }

    /// The metadata of the escrow of `bounty_id`, `None` if none was set.
    pub fn get_escrow_metadata(&self, bounty_id: u64) -> (r: Result<Option<&EscrowMetadata>, Error>)
        ensures
            !self.spec_bounties().contains_key(bounty_id) ==> r == Err::<
                Option<&EscrowMetadata>,
                Error,
            >(Error::BountyNotFound),
            self.spec_bounties().contains_key(bounty_id) ==> (r matches Ok(m) && match self.spec_bounties()[bounty_id].metadata {
                Some(meta) => m == Some(&meta),
                None => m is None,
            }),
    {
        match self.bounties.get(&bounty_id) {
            Some(rec) => match &rec.metadata {
                Some(m) => Ok(Some(m)),
                None => Ok(None),
            },
            None => Err(Error::BountyNotFound),
        }
    }

    /// The escrow of `bounty_id` together with its metadata.
    pub fn get_escrow_with_metadata(&self, bounty_id: u64) -> (r: Result<EscrowWithMetadata<'_>, Error>)
        ensures
            !self.spec_bounties().contains_key(bounty_id) ==> (r is Err && r->Err_0
                == Error::BountyNotFound),
            self.spec_bounties().contains_key(bounty_id) ==> (r matches Ok(v) && v.escrow
                == self.spec_bounties()[bounty_id].escrow && match self.spec_bounties()[bounty_id].metadata {
                Some(meta) => v.metadata == Some(&meta),
                None => v.metadata is None,
            }),
    {
        let escrow = self.get_escrow_info(bounty_id)?;
        let metadata = self.get_escrow_metadata(bounty_id)?;
        Ok(EscrowWithMetadata { escrow, metadata })
    }

    /// Rebuilds a contract from a configuration and stored records; `None`
    /// if two records share an id or one is not well formed for its id.
    pub fn restore(config: Option<Config>, records: Vec<(u64, BountyRecord)>) -> (r: Option<Self>)
        ensures
            r is Some <==> restorable(records@),
            r matches Some(c) ==> {
                &&& c.wf()
                &&& c.spec_config() == config
                &&& forall|id: u64|
                    #![trigger c.spec_bounties().contains_key(id)]
                    c.spec_bounties().contains_key(id) <==> names_id(records@, id)
                &&& forall|i: int|
                    0 <= i < records@.len() ==> c.spec_bounties()[(#[trigger] records@[i]).0]
                        == records@[i].1
            },
    {
        let ghost all = records@;
        let mut rest = records;
        let mut bounties: HashMap<u64, BountyRecord> = HashMap::new();
        while rest.len() > 0
            invariant
                all == records@,
                rest@.len() <= all.len(),
                rest@ == all.take(rest@.len() as int),
                records_wf(bounties@),
                forall|i: int, j: int|
                    rest@.len() <= i < j < all.len() ==> (#[trigger] all[i]).0 != (#[trigger] all[j]).0,
                forall|i: int| rest@.len() <= i < all.len() ==> (#[trigger] all[i]).1.wf(all[i].0),
                forall|id: u64|
                    #![trigger bounties@.contains_key(id)]
                    bounties@.contains_key(id) <==> exists|i: int|
                        rest@.len() <= i < all.len() && (#[trigger] all[i]).0 == id,
                forall|i: int| rest@.len() <= i < all.len() ==> bounties@[(#[trigger] all[i]).0] == all[i].1,
            decreases rest@.len(),
        {
            let ghost k = rest@.len() - 1;
            let (id, rec) = rest.pop().unwrap();
            proof {
                assert(all[k] == (id, rec));
                assert(rest@ =~= all.take(k));
            }
            if bounties.contains_key(&id) {
                proof {
                    let j = choose|j: int| k + 1 <= j < all.len() && (#[trigger] all[j]).0 == id;
                    assert(all[k].0 == all[j].0);
                    assert(!restorable(all));
                }
                return None;
            }
            if !record_is_wf(&rec, id) {
                assert(!all[k].1.wf(all[k].0));
                assert(!restorable(all));
                return None;
            }
            proof {
                lemma_records_wf_insert(bounties@, id, rec);
            }
            bounties.insert(id, rec);
            proof {
                assert forall|x: u64| #![trigger bounties@.contains_key(x)] bounties@.contains_key(x) <==> exists|i: int|
                    k <= i < all.len() && (#[trigger] all[i]).0 == x by {
                    if x == id {
                        assert(all[k].0 == x);
                    }
                }
            }
        }
        proof {
            assert forall|id: u64| #![trigger bounties@.contains_key(id)] bounties@.contains_key(id) <==> names_id(all, id) by {
                if names_id(all, id) {
                    let i = choose|i: int| 0 <= i < all.len() && (#[trigger] all[i]).0 == id;
                    assert(0 <= i < all.len() && all[i].0 == id);
                }
            }
        }
        Some(BountyEscrowContract { config, bounties })
    }
}

} // verus!
