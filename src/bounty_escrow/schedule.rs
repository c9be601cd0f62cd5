//! Release schedules: timed or controller-triggered partial disbursements of
//! an escrow, with the history of completed releases.

use vstd::prelude::*;

use super::{
    lemma_records_wf_insert, BountyEscrowContract, BountyRecord, Config, Error, EscrowStatus,
    ReleaseHistory, ReleaseSchedule, ReleaseType, Transfer, escrows_step, scheduled_total,
};
use crate::address::Address;

verus! {

broadcast use vstd::std_specs::hash::group_hash_axioms;

/// The first check that creating a schedule of `amount` for `bounty_id` fails.
pub open spec fn create_schedule_check(
    config: Option<Config>,
    bounties: Map<u64, BountyRecord>,
    caller: Address,
    bounty_id: u64,
    amount: i128,
) -> Option<Error> {
    match config {
        None => Some(Error::NotInitialized),
        Some(c) => if caller@ != c.admin@ {
            Some(Error::Unauthorized)
        } else if !bounties.contains_key(bounty_id) {
            Some(Error::BountyNotFound)
        } else if bounties[bounty_id].escrow.status != EscrowStatus::Locked {
            Some(Error::FundsNotLocked)
        } else if amount <= 0 || amount > bounties[bounty_id].escrow.amount - scheduled_total(
            bounties[bounty_id].schedules@,
        ) {
            Some(Error::InvalidAmount)
        } else if bounties[bounty_id].schedules@.len() >= u64::MAX {
            Some(Error::ScheduleIdsExhausted)
        } else {
            None
        },
    }
}

/// The first check that a release of schedule `schedule_id` of `bounty_id`
/// fails. `automatic_at` is the ledger time of an automatic release, which
/// must wait for the schedule's release time; `None` for a manual one. Any
/// release needs the escrow still locked.
pub open spec fn schedule_release_check(
    bounties: Map<u64, BountyRecord>,
    bounty_id: u64,
    schedule_id: u64,
    automatic_at: Option<u64>,
) -> Option<Error> {
    if !bounties.contains_key(bounty_id) {
        Some(Error::BountyNotFound)
    } else if schedule_id == 0 || schedule_id > bounties[bounty_id].schedules@.len() {
        Some(Error::ScheduleNotFound)
    } else if bounties[bounty_id].schedules@[schedule_id - 1].released {
        Some(Error::AlreadyReleased)
    } else if automatic_at matches Some(now) && now
        < bounties[bounty_id].schedules@[schedule_id - 1].release_timestamp {
        Some(Error::TooEarly)
    } else if bounties[bounty_id].escrow.status != EscrowStatus::Locked {
        Some(Error::FundsNotLocked)
    } else {
        None
    }
}

/// The first check that a manual release by `caller` fails.
pub open spec fn manual_release_check(
    config: Option<Config>,
    bounties: Map<u64, BountyRecord>,
    caller: Address,
    bounty_id: u64,
    schedule_id: u64,
) -> Option<Error> {
    match config {
        None => Some(Error::NotInitialized),
        Some(c) => if caller@ != c.admin@ {
            Some(Error::Unauthorized)
        } else {
            schedule_release_check(bounties, bounty_id, schedule_id, None)
        },
    }
}

/// `s` is unreleased and, when `due_at` is given, its release time has come by then.
pub open spec fn schedule_selected(s: ReleaseSchedule, due_at: Option<u64>) -> bool {
    &&& !s.released
    &&& (due_at matches Some(now) ==> s.release_timestamp <= now)
}

/// The schedules of `s` that [`schedule_selected`] keeps, in creation order.
pub open spec fn selected_schedules(s: Seq<ReleaseSchedule>, due_at: Option<u64>) -> Seq<
    ReleaseSchedule,
> {
    s.filter(|x: ReleaseSchedule| schedule_selected(x, due_at))
}

impl BountyRecord {
    /// `next` is this record with one more schedule, numbered after the
    /// existing ones: unreleased, for `amount` to `recipient` at
    /// `release_timestamp`.
    pub open spec fn adds_schedule(
        &self,
        next: BountyRecord,
        bounty_id: u64,
        amount: i128,
        release_timestamp: u64,
        recipient: Address,
    ) -> bool {
        &&& next.escrow == self.escrow
        &&& next.metadata == self.metadata
        &&& next.history == self.history
        &&& next.schedules@ == self.schedules@.push(
            ReleaseSchedule {
                bounty_id,
                schedule_id: (self.schedules@.len() + 1) as u64,
                amount,
                release_timestamp,
                recipient,
                released: false,
                released_at: None,
                released_by: None,
                release_type: None,
            },
        )
    }

    /// `next` is this record after `by` released its schedule at index `k`
    /// at time `now` in the way `kind`: the schedule is marked released and
    /// one entry is appended to the history.
    pub open spec fn releases_schedule(
        &self,
        next: BountyRecord,
        k: int,
        by: Address,
        now: u64,
        kind: ReleaseType,
    ) -> bool {
        let s = self.schedules@[k];
        &&& next.escrow == self.escrow
        &&& next.metadata == self.metadata
        &&& next.schedules@ == self.schedules@.update(
            k,
            ReleaseSchedule {
                released: true,
                released_at: Some(now),
                released_by: Some(by),
                release_type: Some(kind),
                ..s
            },
        )
        &&& next.history@ == self.history@.push(
            ReleaseHistory {
                bounty_id: s.bounty_id,
                schedule_id: s.schedule_id,
                amount: s.amount,
                recipient: s.recipient,
                release_type: kind,
                released_at: now,
                released_by: by,
            },
        )
    }
}

/// Schedules whose amounts agree one by one have the same total.
proof fn lemma_scheduled_total_same_amounts(a: Seq<ReleaseSchedule>, b: Seq<ReleaseSchedule>)
    requires
        a.len() == b.len(),
        forall|i: int| 0 <= i < a.len() ==> #[trigger] a[i].amount == b[i].amount,
    ensures
        scheduled_total(a) == scheduled_total(b),
    decreases a.len(),
{
    if a.len() > 0 {
        lemma_scheduled_total_same_amounts(a.drop_last(), b.drop_last());
    }
}

/// Keeps the schedules of `v` that [`schedule_selected`] accepts.
fn select_schedules(v: &Vec<ReleaseSchedule>, due_at: Option<u64>) -> (r: Vec<ReleaseSchedule>)
    ensures
        r@ == selected_schedules(v@, due_at),
{
    let mut out: Vec<ReleaseSchedule> = Vec::new();
    let mut i: usize = 0;
    while i < v.len()
        invariant
            i <= v@.len(),
            out@ == selected_schedules(v@.take(i as int), due_at),
        decreases v@.len() - i,
    {
        let s = &v[i];
        let keep = !s.released && match due_at {
            Some(now) => s.release_timestamp <= now,
            None => true,
        };
        proof {
            let t = v@.take(i + 1);
            assert(t.drop_last() =~= v@.take(i as int));
            assert(t.last() == v@[i as int]);
            reveal_with_fuel(Seq::filter, 1);
        }
        if keep {
            out.push(s.clone());
        }
        i += 1;
    }
    assert(v@.take(i as int) =~= v@);
    out
}

impl BountyEscrowContract {
    /// Plans the release of `amount` of the escrow of `bounty_id` to
    /// `recipient` at `release_timestamp`. `caller` must be the controller.
    /// Returns the new schedule's id: one more than the bounty's schedule count.
    pub fn create_release_schedule(
        &mut self,
        caller: &Address,
        bounty_id: u64,
        amount: i128,
        release_timestamp: u64,
        recipient: Address,
    ) -> (r: Result<u64, Error>)
        requires
            old(self).wf(),
        ensures
            final(self).wf(),
            final(self).spec_config() == old(self).spec_config(),
            escrows_step(old(self).spec_bounties(), final(self).spec_bounties()),
            match create_schedule_check(
                old(self).spec_config(),
                old(self).spec_bounties(),
                *caller,
                bounty_id,
                amount,
            ) {
                Some(e) => r == Err::<u64, Error>(e) && *final(self) == *old(self),
                None => {
                    let rec = old(self).spec_bounties()[bounty_id];
                    &&& r == Ok::<u64, Error>((rec.schedules@.len() + 1) as u64)
                    &&& final(self).spec_bounties() == old(self).spec_bounties().insert(
                        bounty_id,
                        final(self).spec_bounties()[bounty_id],
                    )
                    &&& rec.adds_schedule(
                        final(self).spec_bounties()[bounty_id],
                        bounty_id,
                        amount,
                        release_timestamp,
                        recipient,
                    )
                },
            },
    {
        let config = match &self.config {
            Some(c) => c,
            None => return Err(Error::NotInitialized),
        };
        if !(*caller == config.admin) {
            return Err(Error::Unauthorized);
        }
        let count = match self.bounties.get(&bounty_id) {
            None => return Err(Error::BountyNotFound),
            Some(rec) => {
                if rec.escrow.status != EscrowStatus::Locked {
                    return Err(Error::FundsNotLocked);
                }
                let scheduled = scheduled_amount(rec, Ghost(bounty_id));
                if amount <= 0 || amount > rec.escrow.amount - scheduled {
                    return Err(Error::InvalidAmount);
                }
                if rec.schedules.len() as u64 >= u64::MAX {
                    return Err(Error::ScheduleIdsExhausted);
                }
                rec.schedules.len() as u64
            },
        };
        let mut rec = self.bounties.remove(&bounty_id).unwrap();
        let ghost prev = rec;
        let schedule_id = count + 1;
        rec.schedules.push(
            ReleaseSchedule {
                bounty_id,
                schedule_id,
                amount,
                release_timestamp,
                recipient,
                released: false,
                released_at: None,
                released_by: None,
                release_type: None,
            },
        );
        proof {
            assert(rec.schedules@.drop_last() =~= prev.schedules@);
            lemma_records_wf_insert(old(self).spec_bounties(), bounty_id, rec);
            assert(old(self).spec_bounties().remove(bounty_id).insert(bounty_id, rec)
                =~= old(self).spec_bounties().insert(bounty_id, rec));
        }
        self.bounties.insert(bounty_id, rec);
        Ok(schedule_id)
    }

    /// Releases schedule `schedule_id` of `bounty_id` now, whatever its
    /// release time, provided the escrow is still locked. `caller` must be
    /// the controller; `now` is the ledger time. Returns the payout the host
    /// must make.
    pub fn release_schedule_manual(
        &mut self,
        caller: &Address,
        bounty_id: u64,
        schedule_id: u64,
        now: u64,
    ) -> (r: Result<Transfer, Error>)
        requires
            old(self).wf(),
        ensures
            final(self).wf(),
            final(self).spec_config() == old(self).spec_config(),
            escrows_step(old(self).spec_bounties(), final(self).spec_bounties()),
            match manual_release_check(
                old(self).spec_config(),
                old(self).spec_bounties(),
                *caller,
                bounty_id,
                schedule_id,
            ) {
                Some(e) => r == Err::<Transfer, Error>(e) && *final(self) == *old(self),
                None => {
                    let rec = old(self).spec_bounties()[bounty_id];
                    let s = rec.schedules@[schedule_id - 1];
                    &&& r == Ok::<Transfer, Error>(Transfer::Payout { to: s.recipient, amount: s.amount })
                    &&& final(self).spec_bounties() == old(self).spec_bounties().insert(
                        bounty_id,
                        final(self).spec_bounties()[bounty_id],
                    )
                    &&& rec.releases_schedule(
                        final(self).spec_bounties()[bounty_id],
                        schedule_id - 1,
                        *caller,
                        now,
                        ReleaseType::Manual,
                    )
                },
            },
    {
        let config = match &self.config {
            Some(c) => c,
            None => return Err(Error::NotInitialized),
        };
        if !(*caller == config.admin) {
            return Err(Error::Unauthorized);
        }
        self.release_schedule(caller, bounty_id, schedule_id, now, None)
    }

    /// Releases schedule `schedule_id` of `bounty_id` once the ledger time
    /// `now` has reached its release time, provided the escrow is still
    /// locked. Anyone may call it; `caller` is recorded as the releaser.
    /// Returns the payout the host must make.
    pub fn release_schedule_automatic(
        &mut self,
        caller: &Address,
        bounty_id: u64,
        schedule_id: u64,
        now: u64,
    ) -> (r: Result<Transfer, Error>)
        requires
            old(self).wf(),
        ensures
            final(self).wf(),
            final(self).spec_config() == old(self).spec_config(),
            escrows_step(old(self).spec_bounties(), final(self).spec_bounties()),
            match schedule_release_check(old(self).spec_bounties(), bounty_id, schedule_id, Some(now)) {
                Some(e) => r == Err::<Transfer, Error>(e) && *final(self) == *old(self),
                None => {
                    let rec = old(self).spec_bounties()[bounty_id];
                    let s = rec.schedules@[schedule_id - 1];
                    &&& r == Ok::<Transfer, Error>(Transfer::Payout { to: s.recipient, amount: s.amount })
                    &&& final(self).spec_bounties() == old(self).spec_bounties().insert(
                        bounty_id,
                        final(self).spec_bounties()[bounty_id],
                    )
                    &&& rec.releases_schedule(
                        final(self).spec_bounties()[bounty_id],
                        schedule_id - 1,
                        *caller,
                        now,
                        ReleaseType::Automatic,
                    )
                },
            },
    {
        self.release_schedule(caller, bounty_id, schedule_id, now, Some(now))
    }

    /// Checks and performs a schedule release by `by`; automatic when
    /// `automatic_at` is given.
    fn release_schedule(
        &mut self,
        by: &Address,
        bounty_id: u64,
        schedule_id: u64,
        now: u64,
        automatic_at: Option<u64>,
    ) -> (r: Result<Transfer, Error>)
        requires
            old(self).wf(),
            automatic_at matches Some(t) ==> t == now,
        ensures
            final(self).wf(),
            final(self).spec_config() == old(self).spec_config(),
            escrows_step(old(self).spec_bounties(), final(self).spec_bounties()),
            match schedule_release_check(old(self).spec_bounties(), bounty_id, schedule_id, automatic_at) {
                Some(e) => r == Err::<Transfer, Error>(e) && *final(self) == *old(self),
                None => {
                    let rec = old(self).spec_bounties()[bounty_id];
                    let s = rec.schedules@[schedule_id - 1];
                    &&& r == Ok::<Transfer, Error>(Transfer::Payout { to: s.recipient, amount: s.amount })
                    &&& final(self).spec_bounties() == old(self).spec_bounties().insert(
                        bounty_id,
                        final(self).spec_bounties()[bounty_id],
                    )
                    &&& rec.releases_schedule(
                        final(self).spec_bounties()[bounty_id],
                        schedule_id - 1,
                        *by,
                        now,
                        if automatic_at is Some {
                            ReleaseType::Automatic
                        } else {
                            ReleaseType::Manual
                        },
                    )
                },
            },
    {
        match self.bounties.get(&bounty_id) {
            None => return Err(Error::BountyNotFound),
            Some(rec) => {
                if schedule_id == 0 || schedule_id > rec.schedules.len() as u64 {
                    return Err(Error::ScheduleNotFound);
                }
                let s = &rec.schedules[(schedule_id - 1) as usize];
                if s.released {
                    return Err(Error::AlreadyReleased);
                }
                if let Some(t) = automatic_at {
                    if t < s.release_timestamp {
                        return Err(Error::TooEarly);
                    }
                }
                if rec.escrow.status != EscrowStatus::Locked {
                    return Err(Error::FundsNotLocked);
                }
            },
        }
        let kind = match automatic_at {
            Some(_) => ReleaseType::Automatic,
            None => ReleaseType::Manual,
        };
        let k = (schedule_id - 1) as usize;
        let mut rec = self.bounties.remove(&bounty_id).unwrap();
        let ghost prev = rec;
        let s = rec.schedules[k].clone();
        let entry = ReleaseHistory {
            bounty_id: s.bounty_id,
            schedule_id: s.schedule_id,
            amount: s.amount,
            recipient: s.recipient.clone(),
            release_type: kind,
            released_at: now,
            released_by: by.clone(),
        };
        let transfer = Transfer::Payout { to: s.recipient.clone(), amount: s.amount };
        let released = ReleaseSchedule {
            released: true,
            released_at: Some(now),
            released_by: Some(by.clone()),
            release_type: Some(kind),
            ..s
        };
        rec.schedules.set(k, released);
        rec.history.push(entry);
        proof {
            lemma_scheduled_total_same_amounts(prev.schedules@, rec.schedules@);
            assert forall|i: int| 0 <= i < rec.schedules@.len() implies {
                &&& (#[trigger] rec.schedules@[i]).wf()
                &&& rec.schedules@[i].schedule_id == i + 1
                &&& rec.schedules@[i].bounty_id == bounty_id
            } by {
                assert(prev.schedules@[i].wf());
            }
            lemma_records_wf_insert(old(self).spec_bounties(), bounty_id, rec);
            assert(old(self).spec_bounties().remove(bounty_id).insert(bounty_id, rec)
                =~= old(self).spec_bounties().insert(bounty_id, rec));
        }
        self.bounties.insert(bounty_id, rec);
        Ok(transfer)
    }

    /// Schedule `schedule_id` of `bounty_id`.
    pub fn get_release_schedule(&self, bounty_id: u64, schedule_id: u64) -> (r: Result<&ReleaseSchedule, Error>)
        ensures
            !self.spec_bounties().contains_key(bounty_id) ==> r == Err::<&ReleaseSchedule, Error>(
                Error::BountyNotFound,
            ),
            self.spec_bounties().contains_key(bounty_id) ==> {
                let s = self.spec_bounties()[bounty_id].schedules@;
                if 1 <= schedule_id <= s.len() {
                    r == Ok::<&ReleaseSchedule, Error>(&s[schedule_id - 1])
                } else {
                    r == Err::<&ReleaseSchedule, Error>(Error::ScheduleNotFound)
                }
            },
    {
        match self.bounties.get(&bounty_id) {
            None => Err(Error::BountyNotFound),
            Some(rec) => {
                if schedule_id == 0 || schedule_id > rec.schedules.len() as u64 {
                    Err(Error::ScheduleNotFound)
                } else {
                    Ok(&rec.schedules[(schedule_id - 1) as usize])
                }
            },
        }
    }

    /// Every schedule of `bounty_id`, in creation order.
    pub fn get_all_release_schedules(&self, bounty_id: u64) -> (r: Result<&Vec<ReleaseSchedule>, Error>)
        ensures
            match self.spec_bounties().get(bounty_id) {
                Some(rec) => r matches Ok(v) && v@ == rec.schedules@,
                None => r == Err::<&Vec<ReleaseSchedule>, Error>(Error::BountyNotFound),
            },
    {
        match self.bounties.get(&bounty_id) {
            None => Err(Error::BountyNotFound),
            Some(rec) => Ok(&rec.schedules),
        }
    }

    /// The unreleased schedules of `bounty_id`, in creation order.
    pub fn get_pending_schedules(&self, bounty_id: u64) -> (r: Result<Vec<ReleaseSchedule>, Error>)
        ensures
            match self.spec_bounties().get(bounty_id) {
                Some(rec) => r matches Ok(v) && v@ == selected_schedules(rec.schedules@, None),
                None => r == Err::<Vec<ReleaseSchedule>, Error>(Error::BountyNotFound),
            },
    {
        match self.bounties.get(&bounty_id) {
            None => Err(Error::BountyNotFound),
            Some(rec) => Ok(select_schedules(&rec.schedules, None)),
        }
    }

    /// The unreleased schedules of `bounty_id` whose release time is at or
    /// before the ledger time `now`, in creation order.
    pub fn get_due_schedules(&self, bounty_id: u64, now: u64) -> (r: Result<Vec<ReleaseSchedule>, Error>)
        ensures
            match self.spec_bounties().get(bounty_id) {
                Some(rec) => r matches Ok(v) && v@ == selected_schedules(rec.schedules@, Some(now)),
                None => r == Err::<Vec<ReleaseSchedule>, Error>(Error::BountyNotFound),
            },
    {
        match self.bounties.get(&bounty_id) {
            None => Err(Error::BountyNotFound),
            Some(rec) => Ok(select_schedules(&rec.schedules, Some(now))),
        }
    }

    /// The completed releases of `bounty_id`, in the order they happened.
    pub fn get_release_history(&self, bounty_id: u64) -> (r: Result<&Vec<ReleaseHistory>, Error>)
        ensures
            match self.spec_bounties().get(bounty_id) {
                Some(rec) => r matches Ok(v) && v@ == rec.history@,
                None => r == Err::<&Vec<ReleaseHistory>, Error>(Error::BountyNotFound),
            },
    {
        match self.bounties.get(&bounty_id) {
            None => Err(Error::BountyNotFound),
            Some(rec) => Ok(&rec.history),
        }
    }
}

/// Sum of the amounts of the schedules of `rec`.
fn scheduled_amount(rec: &BountyRecord, Ghost(id): Ghost<u64>) -> (r: i128)
    requires
        rec.wf(id),
    ensures
        r == scheduled_total(rec.schedules@),
        0 <= r <= rec.escrow.amount,
{
    let ghost s = rec.schedules@;
    let mut total: i128 = 0;
    let mut i: usize = 0;
    while i < rec.schedules.len()
        invariant
            rec.wf(id),
            s == rec.schedules@,
            i <= s.len(),
            total == scheduled_total(s.take(i as int)),
        decreases s.len() - i,
    {
        proof {
            assert(s.take(i + 1).drop_last() =~= s.take(i as int));
            super::lemma_schedule_totals(s, i + 1);
            super::lemma_schedule_totals(s.take(i + 1), 0);
        }
        total = total + rec.schedules[i].amount;
        i += 1;
    }
    assert(s.take(i as int) =~= s);
    proof {
        super::lemma_schedule_totals(s, 0);
    }
    total
}

} // verus!
