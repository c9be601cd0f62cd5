//! The payout pool of a program: one shared balance paid out to many
//! recipients, with a history that accounts for every payout.

use vstd::prelude::*;

use crate::address::Address;
use crate::metadata::{program_metadata_fits, validate_program_metadata_size, ProgramMetadata};

verus! {

/// Failures of the payout pool's operations.
#[derive(Clone, Copy, Debug, PartialEq, Eq, Structural)]
pub enum Error {
    /// The pool has already been initialized.
    AlreadyInitialized,
    /// The pool has not been initialized yet.
    NotInitialized,
    /// The payout exceeds the pool's remaining balance.
    InsufficientBalance,
    /// The caller is not the pool's authorized payout key.
    Unauthorized,
    /// An amount is not positive, or a total does not fit in 128 bits.
    InvalidAmount,
    /// The recipient and amount lists differ in length or are empty.
    BatchMismatch,
    /// The metadata exceeds the program metadata limits.
    MetadataTooLarge,
}

/// One completed payout from the pool.
#[derive(Debug, PartialEq, Eq)]
pub struct PayoutRecord {
    pub recipient: Address,
    pub amount: i128,
    pub timestamp: u64,
}

impl Clone for PayoutRecord {
    fn clone(&self) -> (r: Self)
        ensures
            r == *self,
    {
        PayoutRecord { recipient: self.recipient.clone(), amount: self.amount, timestamp: self.timestamp }
    }
}

/// The pool's record: what was ever locked, what is left, and who was paid.
#[derive(Debug, PartialEq, Eq)]
pub struct ProgramData {
    pub program_id: String,
    pub total_funds: i128,
    pub remaining_balance: i128,
    pub authorized_payout_key: Address,
    pub payout_history: Vec<PayoutRecord>,
    pub token_address: Address,
}

/// The pool's record together with its metadata, if any was set.
#[derive(Debug)]
pub struct ProgramWithMetadata<'a> {
    pub program: &'a ProgramData,
    pub metadata: Option<&'a ProgramMetadata>,
}

/// Sum of the amounts of `h`.
pub open spec fn payout_total(h: Seq<PayoutRecord>) -> int
    decreases h.len(),
{
    if h.len() == 0 {
        0
    } else {
        payout_total(h.drop_last()) + h.last().amount
    }
}

/// Sum of `a`.
pub open spec fn amounts_total(a: Seq<i128>) -> int
    decreases a.len(),
{
    if a.len() == 0 {
        0
    } else {
        amounts_total(a.drop_last()) + a.last()
    }
}

/// Every amount of `a` is positive and their sum fits in an `i128`.
pub open spec fn payout_amounts_valid(a: Seq<i128>) -> bool {
    &&& forall|i: int| 0 <= i < a.len() ==> #[trigger] a[i] > 0
    &&& amounts_total(a) <= i128::MAX
}

/// The records that paying `amounts[i]` to `recipients[i]` at time `now` appends.
pub open spec fn payout_records(recipients: Seq<Address>, amounts: Seq<i128>, now: u64) -> Seq<
    PayoutRecord,
> {
    Seq::new(
        recipients.len(),
        |i: int| PayoutRecord { recipient: recipients[i], amount: amounts[i], timestamp: now },
    )
}

/// The first check that a batch payout by `caller` of `amounts` to
/// `recipients` fails, in the order the checks are made; `None` if all pass.
pub open spec fn batch_payout_check(
    program: Option<ProgramData>,
    caller: Address,
    recipients: Seq<Address>,
    amounts: Seq<i128>,
) -> Option<Error> {
    match program {
        None => Some(Error::NotInitialized),
        Some(p) => if caller@ != p.authorized_payout_key@ {
            Some(Error::Unauthorized)
        } else if recipients.len() != amounts.len() || recipients.len() == 0 {
            Some(Error::BatchMismatch)
        } else if !payout_amounts_valid(amounts) {
            Some(Error::InvalidAmount)
        } else if amounts_total(amounts) > p.remaining_balance {
            Some(Error::InsufficientBalance)
        } else {
            None
        },
    }
}

/// The first check that a payout by `caller` of `amount` fails, in the order
/// the checks are made; `None` if all pass.
pub open spec fn single_payout_check(program: Option<ProgramData>, caller: Address, amount: i128) -> Option<
    Error,
> {
    match program {
        None => Some(Error::NotInitialized),
        Some(p) => if caller@ != p.authorized_payout_key@ {
            Some(Error::Unauthorized)
        } else if amount <= 0 {
            Some(Error::InvalidAmount)
        } else if amount > p.remaining_balance {
            Some(Error::InsufficientBalance)
        } else {
            None
        },
    }
}

/// In a sequence of positive amounts, no prefix sums to more than the whole.
proof fn lemma_prefix_total_le(a: Seq<i128>, k: int)
    requires
        0 <= k <= a.len(),
        forall|i: int| 0 <= i < a.len() ==> #[trigger] a[i] > 0,
    ensures
        amounts_total(a.take(k)) <= amounts_total(a),
    decreases a.len(),
{
    if k == a.len() {
        assert(a.take(k) =~= a);
    } else {
        let d = a.drop_last();
        assert(d.take(k) =~= a.take(k));
        lemma_prefix_total_le(d, k);
    }
}

/// The sum of `amounts`, or `None` if one is not positive or the sum does not
/// fit in an `i128`.
fn checked_payout_total(amounts: &Vec<i128>) -> (r: Option<i128>)
    ensures
        r is Some <==> payout_amounts_valid(amounts@),
        r matches Some(t) ==> t == amounts_total(amounts@),
{
    let mut total: i128 = 0;
    let mut i: usize = 0;
    while i < amounts.len()
        invariant
            i <= amounts@.len(),
            total == amounts_total(amounts@.take(i as int)),
            forall|j: int| 0 <= j < i ==> #[trigger] amounts@[j] > 0,
        decreases amounts@.len() - i,
    {
        let amount = amounts[i];
        assert(amounts@.take(i + 1).drop_last() =~= amounts@.take(i as int));
        if amount <= 0 {
            return None;
        }
        match total.checked_add(amount) {
            Some(t) => total = t,
            None => {
                proof {
                    if forall|j: int| 0 <= j < amounts@.len() ==> #[trigger] amounts@[j] > 0 {
                        lemma_prefix_total_le(amounts@, i + 1);
                    }
                }
                return None;
            },
        }
        i += 1;
    }
    assert(amounts@.take(i as int) =~= amounts@);
    Some(total)
}

impl ProgramData {
    /// `next` is this record after paying out `records`: the history grows by
    /// `records`, the remaining balance shrinks by their sum, the rest stays.
    pub open spec fn pays_out(&self, next: ProgramData, records: Seq<PayoutRecord>) -> bool {
        &&& next.payout_history@ == self.payout_history@ + records
        &&& next.remaining_balance == self.remaining_balance - payout_total(records)
        &&& next.program_id == self.program_id
        &&& next.total_funds == self.total_funds
        &&& next.authorized_payout_key == self.authorized_payout_key
        &&& next.token_address == self.token_address
    }

    /// A record just created for `program_id`: nothing locked, nothing paid.
    pub open spec fn is_fresh(&self, program_id: String, key: Address, token: Address) -> bool {
        &&& self.program_id == program_id
        &&& self.total_funds == 0
        &&& self.remaining_balance == 0
        &&& self.authorized_payout_key == key
        &&& self.payout_history@.len() == 0
        &&& self.token_address == token
    }

    /// The pool's balance equation: nothing is left that was not locked, and
    /// what is left is what was locked less what was paid out.
    pub open spec fn wf(&self) -> bool {
        &&& forall|i: int|
            0 <= i < self.payout_history@.len() ==> #[trigger] self.payout_history@[i].amount > 0
        &&& self.remaining_balance == self.total_funds - payout_total(self.payout_history@)
        &&& 0 <= self.remaining_balance <= self.total_funds
    }
}

/// In a history of positive payouts, no prefix sums to more than the whole.
proof fn lemma_payout_prefix_le(h: Seq<PayoutRecord>, k: int)
    requires
        0 <= k <= h.len(),
        forall|i: int| 0 <= i < h.len() ==> #[trigger] h[i].amount > 0,
    ensures
        0 <= payout_total(h.take(k)) <= payout_total(h),
    decreases h.len(),
{
    if h.len() > 0 {
        let d = h.drop_last();
        if k == h.len() {
            assert(h.take(k) =~= h);
            lemma_payout_prefix_le(d, 0);
        } else {
            assert(d.take(k) =~= h.take(k));
            lemma_payout_prefix_le(d, k);
        }
    } else {
        assert(h.take(k) =~= h);
    }
}

/// Whether `data` satisfies its balance equation.
fn program_data_is_wf(data: &ProgramData) -> (r: bool)
    ensures
        r == data.wf(),
{
    let ghost h = data.payout_history@;
    let mut paid: i128 = 0;
    let mut i: usize = 0;
    while i < data.payout_history.len()
        invariant
            h == data.payout_history@,
            i <= h.len(),
            paid == payout_total(h.take(i as int)),
            paid >= 0,
            forall|j: int| 0 <= j < i ==> #[trigger] h[j].amount > 0,
        decreases h.len() - i,
    {
        let amount = data.payout_history[i].amount;
        proof {
            assert(h.take(i + 1).drop_last() =~= h.take(i as int));
        }
        if amount <= 0 {
            return false;
        }
        match paid.checked_add(amount) {
            Some(t) => paid = t,
            None => {
                proof {
                    if forall|j: int| 0 <= j < h.len() ==> #[trigger] h[j].amount > 0 {
                        lemma_payout_prefix_le(h, i + 1);
                    }
                }
                return false;
            },
        }
        i += 1;
    }
    assert(h.take(i as int) =~= h);
    data.remaining_balance >= 0 && data.remaining_balance <= data.total_funds && data.total_funds
        >= paid && data.remaining_balance == data.total_funds - paid
}

/// In every state the pool reaches, nothing remains that was not locked, and
/// what remains is what was locked less the sum of every payout made.
pub proof fn lemma_pool_balance(pool: &ProgramEscrowContract)
    requires
        pool.wf(),
    ensures
        pool.spec_program() matches Some(p) ==> {
            &&& 0 <= p.remaining_balance <= p.total_funds
            &&& p.remaining_balance == p.total_funds - payout_total(p.payout_history@)
        },
{
}

/// The payout pool of one program: a single shared balance paid out to many
/// recipients by the program's authorized payout key.
pub struct ProgramEscrowContract {
    program: Option<ProgramData>,
    metadata: Option<ProgramMetadata>,
}

impl ProgramEscrowContract {
    /// The pool's record; `None` before initialization.
    pub closed spec fn spec_program(&self) -> Option<ProgramData> {
        self.program
    }

    /// The pool's metadata, if set.
    pub closed spec fn spec_metadata(&self) -> Option<ProgramMetadata> {
        self.metadata
    }

    /// The pool, once initialized, satisfies its balance equation.
    pub open spec fn wf(&self) -> bool {
        self.spec_program() matches Some(p) ==> p.wf()
    }

    /// An uninitialized pool.
    pub fn new() -> (r: Self)
        ensures
            r.wf(),
            r.spec_program() is None,
            r.spec_metadata() is None,
    {
        ProgramEscrowContract { program: None, metadata: None }
    }

    /// Creates the pool with zero balances and an empty history.
    pub fn init_program(
        &mut self,
        program_id: String,
        authorized_payout_key: Address,
        token_address: Address,
    ) -> (r: Result<(), Error>)
        requires
            old(self).wf(),
        ensures
            final(self).wf(),
            final(self).spec_metadata() == old(self).spec_metadata(),
            r == if old(self).spec_program() is Some {
                Err::<(), Error>(Error::AlreadyInitialized)
            } else {
                Ok(())
            },
            r is Err ==> *final(self) == *old(self),
            r is Ok ==> (final(self).spec_program() matches Some(p) && p.is_fresh(
                program_id,
                authorized_payout_key,
                token_address,
            )),
    {
        if self.program.is_some() {
            return Err(Error::AlreadyInitialized);
        }
        self.program = Some(
            ProgramData {
                program_id,
                total_funds: 0,
                remaining_balance: 0,
                authorized_payout_key,
                payout_history: Vec::new(),
                token_address,
            },
        );
        Ok(())
    }

    /// Attaches `metadata` to the pool, replacing any earlier metadata.
    /// `encoded_len` is the size in bytes of the host's encoding of `metadata`.
    pub fn set_program_metadata(
        &mut self,
        caller: &Address,
        metadata: ProgramMetadata,
        encoded_len: usize,
    ) -> (r: Result<(), Error>)
        requires
            old(self).wf(),
        ensures
            final(self).wf(),
            final(self).spec_program() == old(self).spec_program(),
            r is Err ==> *final(self) == *old(self),
            match old(self).spec_program() {
                None => r == Err::<(), Error>(Error::NotInitialized),
                Some(p) => if caller@ != p.authorized_payout_key@ {
                    r == Err::<(), Error>(Error::Unauthorized)
                } else if !program_metadata_fits(metadata, encoded_len as nat) {
                    r == Err::<(), Error>(Error::MetadataTooLarge)
                } else {
                    r is Ok && final(self).spec_metadata() == Some(metadata)
                },
            },
    {
        let p = match &self.program {
            Some(p) => p,
            None => return Err(Error::NotInitialized),
        };
        if !(*caller == p.authorized_payout_key) {
            return Err(Error::Unauthorized);
        }
        if !validate_program_metadata_size(&metadata, encoded_len) {
            return Err(Error::MetadataTooLarge);
        }
        self.metadata = Some(metadata);
        Ok(())
    }

    /// Records that `amount` more was deposited into the pool: both the total
    /// ever locked and the remaining balance grow by `amount`. No tokens move.
    pub fn lock_program_funds(&mut self, amount: i128) -> (r: Result<(), Error>)
        requires
            old(self).wf(),
        ensures
            final(self).wf(),
            final(self).spec_metadata() == old(self).spec_metadata(),
            r is Err ==> *final(self) == *old(self),
            if amount <= 0 {
                r == Err::<(), Error>(Error::InvalidAmount)
            } else {
                match old(self).spec_program() {
                    None => r == Err::<(), Error>(Error::NotInitialized),
                    Some(p) => if p.total_funds + amount > i128::MAX {
                        r == Err::<(), Error>(Error::InvalidAmount)
                    } else {
                        &&& r is Ok
                        &&& final(self).spec_program() == Some(
                            (ProgramData {
                                total_funds: (p.total_funds + amount) as i128,
                                remaining_balance: (p.remaining_balance + amount) as i128,
                                ..p
                            }),
                        )
                    },
                }
            },
    {
        if amount <= 0 {
            return Err(Error::InvalidAmount);
        }
        match &self.program {
            None => return Err(Error::NotInitialized),
            Some(p) => {
                if p.total_funds > i128::MAX - amount {
                    return Err(Error::InvalidAmount);
                }
            },
        }
        let mut data = self.program.take().unwrap();
        data.total_funds = data.total_funds + amount;
        data.remaining_balance = data.remaining_balance + amount;
        self.program = Some(data);
        Ok(())
    }

    /// Pays `amounts[i]` to `recipients[i]` for every `i`, all or nothing.
    /// Returns the payout records appended to the history, in list order; the
    /// host transfers each record's amount from the pool to its recipient.
    pub fn batch_payout(
        &mut self,
        caller: &Address,
        recipients: Vec<Address>,
        amounts: Vec<i128>,
        now: u64,
    ) -> (r: Result<Vec<PayoutRecord>, Error>)
        requires
            old(self).wf(),
        ensures
            final(self).wf(),
            final(self).spec_metadata() == old(self).spec_metadata(),
            match batch_payout_check(old(self).spec_program(), *caller, recipients@, amounts@) {
                Some(e) => r == Err::<Vec<PayoutRecord>, Error>(e) && *final(self) == *old(self),
                None => r matches Ok(records) && records@ == payout_records(
                    recipients@,
                    amounts@,
                    now,
                ) && old(self).spec_program()->Some_0.pays_out(
                    final(self).spec_program()->Some_0,
                    records@,
                ) && final(self).spec_program() is Some,
            },
    {
        let p = match &self.program {
            Some(p) => p,
            None => return Err(Error::NotInitialized),
        };
        if !(*caller == p.authorized_payout_key) {
            return Err(Error::Unauthorized);
        }
        if recipients.len() != amounts.len() || recipients.len() == 0 {
            return Err(Error::BatchMismatch);
        }
        let total = match checked_payout_total(&amounts) {
            Some(t) => t,
            None => return Err(Error::InvalidAmount),
        };
        if total > p.remaining_balance {
            return Err(Error::InsufficientBalance);
        }
        proof {
            lemma_prefix_total_le(amounts@, 0);
            assert(amounts@.take(0) =~= Seq::<i128>::empty());
        }
        let mut data = self.program.take().unwrap();
        let ghost old_data = data;
        let mut records: Vec<PayoutRecord> = Vec::new();
        let mut i: usize = 0;
        while i < recipients.len()
            invariant
                i <= recipients@.len() == amounts@.len(),
                payout_amounts_valid(amounts@),
                old_data.wf(),
                records@ == payout_records(recipients@, amounts@, now).take(i as int),
                data.payout_history@ == old_data.payout_history@ + records@,
                data.program_id == old_data.program_id,
                data.total_funds == old_data.total_funds,
                data.remaining_balance == old_data.remaining_balance,
                data.authorized_payout_key == old_data.authorized_payout_key,
                data.token_address == old_data.token_address,
                payout_total(data.payout_history@) == payout_total(old_data.payout_history@)
                    + amounts_total(amounts@.take(i as int)),
                payout_total(records@) == amounts_total(amounts@.take(i as int)),
                total == amounts_total(amounts@),
                0 <= total <= old_data.remaining_balance,
                forall|j: int|
                    0 <= j < data.payout_history@.len() ==> #[trigger] data.payout_history@[j].amount
                        > 0,
            decreases recipients@.len() - i,
        {
            let record = PayoutRecord { recipient: recipients[i].clone(), amount: amounts[i], timestamp: now };
            let ghost before = data.payout_history@;
            let ghost records_before = records@;
            data.payout_history.push(record.clone());
            records.push(record);
            proof {
                assert(data.payout_history@.drop_last() =~= before);
                assert(records@.drop_last() =~= records_before);
                assert(amounts@.take(i + 1).drop_last() =~= amounts@.take(i as int));
                assert(records@ =~= payout_records(recipients@, amounts@, now).take(i + 1));
                assert(data.payout_history@ =~= old_data.payout_history@ + records@);
            }
            i += 1;
        }
        proof {
            assert(amounts@.take(i as int) =~= amounts@);
            assert(records@ =~= payout_records(recipients@, amounts@, now));
        }
        data.remaining_balance = data.remaining_balance - total;
        self.program = Some(data);
        Ok(records)
    }

    /// Pays `amount` to `recipient`. Returns the payout record appended to the
    /// history; the host transfers its amount from the pool to the recipient.
    pub fn single_payout(&mut self, caller: &Address, recipient: Address, amount: i128, now: u64) -> (r:
        Result<PayoutRecord, Error>)
        requires
            old(self).wf(),
        ensures
            final(self).wf(),
            final(self).spec_metadata() == old(self).spec_metadata(),
            match single_payout_check(old(self).spec_program(), *caller, amount) {
                Some(e) => r == Err::<PayoutRecord, Error>(e) && *final(self) == *old(self),
                None => r == Ok::<PayoutRecord, Error>(
                    (PayoutRecord { recipient, amount, timestamp: now }),
                ) && old(self).spec_program()->Some_0.pays_out(
                    final(self).spec_program()->Some_0,
                    seq![(PayoutRecord { recipient, amount, timestamp: now })],
                ) && final(self).spec_program() is Some,
            },
    {
        let p = match &self.program {
            Some(p) => p,
            None => return Err(Error::NotInitialized),
        };
        if !(*caller == p.authorized_payout_key) {
            return Err(Error::Unauthorized);
        }
        if amount <= 0 {
            return Err(Error::InvalidAmount);
        }
        if amount > p.remaining_balance {
            return Err(Error::InsufficientBalance);
        }
        let mut data = self.program.take().unwrap();
        let ghost before = data.payout_history@;
        let record = PayoutRecord { recipient, amount, timestamp: now };
        data.payout_history.push(record.clone());
        data.remaining_balance = data.remaining_balance - amount;
        proof {
            assert(data.payout_history@.drop_last() =~= before);
            assert(data.payout_history@ =~= before + seq![record]);
            assert(seq![record].drop_last() =~= Seq::<PayoutRecord>::empty());
            reveal_with_fuel(payout_total, 2);
            assert(payout_total(seq![record]) == amount);
        }
        self.program = Some(data);
        Ok(record)
    }

    /// The pool's record.
    pub fn get_program_info(&self) -> (r: Result<&ProgramData, Error>)
        ensures
            match self.spec_program() {
                Some(p) => r == Ok::<&ProgramData, Error>(&p),
                None => r == Err::<&ProgramData, Error>(Error::NotInitialized),
            },
    {
        match &self.program {
            Some(p) => Ok(p),
            None => Err(Error::NotInitialized),
        }
    }

    /// The pool's metadata, `None` if none was set.
    pub fn get_program_metadata(&self) -> (r: Result<Option<&ProgramMetadata>, Error>)
        ensures
            self.spec_program() is None ==> r == Err::<Option<&ProgramMetadata>, Error>(
                Error::NotInitialized,
            ),
            self.spec_program() is Some ==> (r matches Ok(m) && match self.spec_metadata() {
                Some(meta) => m == Some(&meta),
                None => m is None,
            }),
    {
        if self.program.is_none() {
            return Err(Error::NotInitialized);
        }
        match &self.metadata {
            Some(m) => Ok(Some(m)),
            None => Ok(None),
        }
    }

    /// The pool's record together with its metadata.
    pub fn get_program_with_metadata(&self) -> (r: Result<ProgramWithMetadata<'_>, Error>)
        ensures
            self.spec_program() is None ==> r is Err && r->Err_0 == Error::NotInitialized,
            self.spec_program() is Some ==> (r matches Ok(v) && *v.program
                == self.spec_program()->Some_0 && match self.spec_metadata() {
                Some(meta) => v.metadata == Some(&meta),
                None => v.metadata is None,
            }),
    {
        let program = self.get_program_info()?;
        let metadata = self.get_program_metadata()?;
        Ok(ProgramWithMetadata { program, metadata })
    }

    /// The pool's remaining balance.
    pub fn get_remaining_balance(&self) -> (r: Result<i128, Error>)
        ensures
            match self.spec_program() {
                Some(p) => r == Ok::<i128, Error>(p.remaining_balance),
                None => r == Err::<i128, Error>(Error::NotInitialized),
            },
    {
        match &self.program {
            Some(p) => Ok(p.remaining_balance),
            None => Err(Error::NotInitialized),
        }
    }

    /// Rebuilds a pool from a stored record and metadata; `None` if the
    /// record does not satisfy its balance equation.
    pub fn restore(program: Option<ProgramData>, metadata: Option<ProgramMetadata>) -> (r: Option<Self>)
        ensures
            r is Some <==> (program matches Some(p) ==> p.wf()),
            r matches Some(pool) ==> pool.wf() && pool.spec_program() == program
                && pool.spec_metadata() == metadata,
    {
        if let Some(p) = &program {
            if !program_data_is_wf(p) {
                return None;
            }
        }
        Some(ProgramEscrowContract { program, metadata })
    }
}

} // verus!
