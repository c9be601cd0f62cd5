use bounty_escrow::bounty_escrow::{
    BountyEscrowContract, BountyRecord, Config, Error, Escrow, EscrowStatus, LockFundsItem,
    ReleaseFundsItem, ReleaseSchedule, ReleaseType, Transfer,
};
use bounty_escrow::metadata::{CustomField, EscrowMetadata};
use bounty_escrow::Address;

fn addr(s: &str) -> Address {
    Address::new(s)
}

fn admin() -> Address {
    addr("GADMINXXXXXXXXXXXXXXXXXXXXXXXXXXXXXXXXXXXXXXXXXXXXXXXXXX")
}

fn token() -> Address {
    addr("CTOKENXXXXXXXXXXXXXXXXXXXXXXXXXXXXXXXXXXXXXXXXXXXXXXXXXX")
}

fn contract_address() -> Address {
    addr("CESCROWXXXXXXXXXXXXXXXXXXXXXXXXXXXXXXXXXXXXXXXXXXXXXXXXX")
}

fn initialized() -> BountyEscrowContract {
    let mut c = BountyEscrowContract::new();
    c.init(admin(), token()).unwrap();
    c
}

/// Initializes, locks `amount` from `contributor` for `bounty_id` and plans
/// one schedule of the whole amount to `contributor` at `release_timestamp`.
fn setup_bounty_with_schedule(
    bounty_id: u64,
    amount: i128,
    contributor: &Address,
    release_timestamp: u64,
) -> BountyEscrowContract {
    let mut c = initialized();
    c.lock_funds(contributor, contributor.clone(), bounty_id, amount, 1000000000, 0).unwrap();
    c.create_release_schedule(&admin(), bounty_id, amount, release_timestamp, contributor.clone())
        .unwrap();
    c
}

fn empty_metadata() -> EscrowMetadata {
    EscrowMetadata {
        repo_id: None,
        issue_id: None,
        bounty_type: None,
        tags: Vec::new(),
        custom_fields: Vec::new(),
    }
}

#[test]
fn test_single_release_schedule() {
    let admin = admin();
    let contributor = addr("GCONTRIBUTOR");
    let mut escrow = initialized();
    let bounty_id = 1;
    let amount = 100_0000000;
    let now = 0;
    let deadline = now + 1000000000;
    escrow.lock_funds(&admin, admin.clone(), bounty_id, amount, deadline, now).unwrap();
    let release_timestamp = 1000;
    escrow
        .create_release_schedule(&admin, bounty_id, amount, release_timestamp, contributor.clone())
        .unwrap();

    let schedule = escrow.get_release_schedule(bounty_id, 1).unwrap();
    assert_eq!(schedule.schedule_id, 1);
    assert_eq!(schedule.amount, amount);
    assert_eq!(schedule.release_timestamp, release_timestamp);
    assert_eq!(schedule.recipient, contributor);
    assert!(!schedule.released);

    let pending = escrow.get_pending_schedules(bounty_id).unwrap();
    assert_eq!(pending.len(), 1);
}

#[test]
fn test_multiple_release_schedules() {
    let admin = admin();
    let contributor1 = addr("GCONTRIBUTOR1");
    let contributor2 = addr("GCONTRIBUTOR2");
    let bounty_id = 1;
    let amount1 = 60_0000000;
    let amount2 = 40_0000000;
    let total_amount = amount1 + amount2;
    let mut client = initialized();
    client
        .lock_funds(&contributor1, contributor1.clone(), bounty_id, total_amount, 1000000000, 0)
        .unwrap();
    client.create_release_schedule(&admin, bounty_id, amount1, 1000, contributor1.clone()).unwrap();
    client.create_release_schedule(&admin, bounty_id, amount2, 2000, contributor2.clone()).unwrap();

    let all_schedules = client.get_all_release_schedules(bounty_id).unwrap();
    assert_eq!(all_schedules.len(), 2);

    let schedule1 = client.get_release_schedule(bounty_id, 1).unwrap();
    let schedule2 = client.get_release_schedule(bounty_id, 2).unwrap();
    assert_eq!(schedule1.schedule_id, 1);
    assert_eq!(schedule2.schedule_id, 2);
    assert_eq!(schedule1.amount, amount1);
    assert_eq!(schedule2.amount, amount2);
    assert_eq!(schedule1.recipient, contributor1);
    assert_eq!(schedule2.recipient, contributor2);

    let pending = client.get_pending_schedules(bounty_id).unwrap();
    assert_eq!(pending.len(), 2);
}

#[test]
fn test_automatic_release_at_timestamp() {
    let contributor = addr("GCONTRIBUTOR");
    let bounty_id = 1;
    let amount = 100_0000000;
    let release_timestamp = 1000;
    let mut client = setup_bounty_with_schedule(bounty_id, amount, &contributor, release_timestamp);
    let me = contract_address();

    let result = client.release_schedule_automatic(&me, bounty_id, 1, 999);
    assert!(result.is_err());

    client.release_schedule_automatic(&me, bounty_id, 1, 1001).unwrap();

    let schedule = client.get_release_schedule(bounty_id, 1).unwrap();
    assert!(schedule.released);
    assert_eq!(schedule.released_at, Some(1001));
    assert_eq!(schedule.released_by, Some(contract_address()));

    let pending = client.get_pending_schedules(bounty_id).unwrap();
    assert_eq!(pending.len(), 0);

    let history = client.get_release_history(bounty_id).unwrap();
    assert_eq!(history.len(), 1);
    assert_eq!(history.get(0).unwrap().release_type, ReleaseType::Automatic);
}

#[test]
fn test_manual_trigger_before_after_timestamp() {
    let admin = admin();
    let contributor = addr("GCONTRIBUTOR");
    let bounty_id = 1;
    let amount = 100_0000000;
    let release_timestamp = 1000;
    let mut client = setup_bounty_with_schedule(bounty_id, amount, &contributor, release_timestamp);

    client.release_schedule_manual(&admin, bounty_id, 1, 999).unwrap();

    let schedule = client.get_release_schedule(bounty_id, 1).unwrap();
    assert!(schedule.released);
    assert_eq!(schedule.released_at, Some(999));
    assert_eq!(schedule.released_by, Some(admin.clone()));

    let history = client.get_release_history(bounty_id).unwrap();
    assert_eq!(history.len(), 1);
    assert_eq!(history.get(0).unwrap().release_type, ReleaseType::Manual);
}

#[test]
fn test_verify_schedule_tracking_and_history() {
    let admin = admin();
    let contributor1 = addr("GCONTRIBUTOR1");
    let contributor2 = addr("GCONTRIBUTOR2");
    let bounty_id = 1;
    let amount1 = 60_0000000;
    let amount2 = 40_0000000;
    let total_amount = amount1 + amount2;
    let mut client = initialized();
    client
        .lock_funds(&contributor1, contributor1.clone(), bounty_id, total_amount, 1000000000, 0)
        .unwrap();
    client.create_release_schedule(&admin, bounty_id, amount1, 1000, contributor1.clone()).unwrap();
    client.create_release_schedule(&admin, bounty_id, amount2, 2000, contributor2.clone()).unwrap();

    client.release_schedule_manual(&admin, bounty_id, 1, 0).unwrap();
    client.release_schedule_automatic(&contract_address(), bounty_id, 2, 2001).unwrap();

    let history = client.get_release_history(bounty_id).unwrap();
    assert_eq!(history.len(), 2);

    let first_release = history.get(0).unwrap();
    assert_eq!(first_release.schedule_id, 1);
    assert_eq!(first_release.amount, amount1);
    assert_eq!(first_release.recipient, contributor1);
    assert_eq!(first_release.release_type, ReleaseType::Manual);

    let second_release = history.get(1).unwrap();
    assert_eq!(second_release.schedule_id, 2);
    assert_eq!(second_release.amount, amount2);
    assert_eq!(second_release.recipient, contributor2);
    assert_eq!(second_release.release_type, ReleaseType::Automatic);

    let pending = client.get_pending_schedules(bounty_id).unwrap();
    assert_eq!(pending.len(), 0);

    let all_schedules = client.get_all_release_schedules(bounty_id).unwrap();
    assert_eq!(all_schedules.len(), 2);
    assert!(all_schedules.get(0).unwrap().released);
    assert!(all_schedules.get(1).unwrap().released);
}

#[test]
fn test_overlapping_schedules() {
    let admin = admin();
    let contributor1 = addr("GCONTRIBUTOR1");
    let contributor2 = addr("GCONTRIBUTOR2");
    let contributor3 = addr("GCONTRIBUTOR3");
    let bounty_id = 1;
    let amount1 = 30_0000000;
    let amount2 = 30_0000000;
    let amount3 = 40_0000000;
    let total_amount = amount1 + amount2 + amount3;
    let base_timestamp = 1000;
    let mut client = initialized();
    client
        .lock_funds(&contributor1, contributor1.clone(), bounty_id, total_amount, 1000000000, 0)
        .unwrap();
    client
        .create_release_schedule(&admin, bounty_id, amount1, base_timestamp, contributor1.clone())
        .unwrap();
    client
        .create_release_schedule(&admin, bounty_id, amount2, base_timestamp, contributor2.clone())
        .unwrap();
    client
        .create_release_schedule(&admin, bounty_id, amount3, base_timestamp, contributor3.clone())
        .unwrap();

    let now = base_timestamp + 1;
    let due = client.get_due_schedules(bounty_id, now).unwrap();
    assert_eq!(due.len(), 3);

    let me = contract_address();
    client.release_schedule_automatic(&me, bounty_id, 1, now).unwrap();
    client.release_schedule_automatic(&me, bounty_id, 2, now).unwrap();
    client.release_schedule_automatic(&me, bounty_id, 3, now).unwrap();

    let pending = client.get_pending_schedules(bounty_id).unwrap();
    assert_eq!(pending.len(), 0);

    let history = client.get_release_history(bounty_id).unwrap();
    assert_eq!(history.len(), 3);
    for release in history.iter() {
        assert_eq!(release.release_type, ReleaseType::Automatic);
    }
}

#[test]
fn test_init_event() {
    let mut client = BountyEscrowContract::new();
    assert_eq!(client.init(admin(), token()), Ok(()));
    let config = client.get_config().unwrap();
    assert_eq!(config.admin, admin());
    assert_eq!(config.token, token());
}

#[test]
fn test_lock_fund() {
    let depositor = addr("GDEPOSITOR");
    let bounty_id = 1;
    let amount = 1000;
    let deadline = 10;
    let mut client = initialized();
    let deposit = client.lock_funds(&depositor, depositor.clone(), bounty_id, amount, deadline, 0);
    assert_eq!(deposit, Ok(Transfer::Deposit { from: depositor.clone(), amount }));
    let escrow = client.get_escrow_info(bounty_id).unwrap();
    assert_eq!(escrow.status, EscrowStatus::Locked);
    assert_eq!(escrow.amount, amount);
    assert_eq!(escrow.deadline, deadline);
    assert_eq!(escrow.depositor, depositor);
}

#[test]
fn test_release_fund() {
    let depositor = addr("GDEPOSITOR");
    let contributor = addr("GCONTRIBUTOR");
    let bounty_id = 1;
    let amount = 1000;
    let deadline = 10;
    let mut client = initialized();
    client.lock_funds(&depositor, depositor.clone(), bounty_id, amount, deadline, 0).unwrap();
    let payout = client.release_funds(&admin(), bounty_id, contributor.clone());
    assert_eq!(payout, Ok(Transfer::Payout { to: contributor, amount }));
    assert_eq!(client.get_escrow_info(bounty_id).unwrap().status, EscrowStatus::Released);
}

#[test]
#[should_panic(expected = "InvalidAmount")]
fn test_lock_fund_invalid_amount() {
    let depositor = addr("GDEPOSITOR");
    let mut client = initialized();
    client.lock_funds(&depositor, depositor.clone(), 1, 0, 100, 0).unwrap();
}

#[test]
#[should_panic(expected = "InvalidDeadline")]
fn test_lock_fund_invalid_deadline() {
    let depositor = addr("GDEPOSITOR");
    let mut client = initialized();
    client.lock_funds(&depositor, depositor.clone(), 1, 1000, 0, 0).unwrap();
}

#[test]
fn lock_rejects_non_positive_amount_and_past_deadline() {
    let depositor = addr("GDEPOSITOR");
    let mut client = initialized();
    assert_eq!(
        client.lock_funds(&depositor, depositor.clone(), 1, 0, 100, 0),
        Err(Error::InvalidAmount)
    );
    assert_eq!(
        client.lock_funds(&depositor, depositor.clone(), 1, -5, 100, 0),
        Err(Error::InvalidAmount)
    );
    assert_eq!(
        client.lock_funds(&depositor, depositor.clone(), 1, 1000, 0, 0),
        Err(Error::InvalidDeadline)
    );
    assert_eq!(
        client.lock_funds(&depositor, depositor.clone(), 1, 1000, 50, 50),
        Err(Error::InvalidDeadline)
    );
    assert_eq!(client.get_escrow_info(1).map(|e| e.amount), Err(Error::BountyNotFound));
}

#[test]
fn refund_waits_for_deadline_then_returns_funds() {
    let depositor = addr("GDEPOSITOR");
    let deadline = 5000;
    let mut client = initialized();
    client.lock_funds(&depositor, depositor.clone(), 42, 1000, deadline, 0).unwrap();
    assert_eq!(client.refund(42, deadline - 1), Err(Error::DeadlineNotPassed));
    assert_eq!(client.get_escrow_info(42).unwrap().status, EscrowStatus::Locked);
    assert_eq!(
        client.refund(42, deadline + 1),
        Ok(Transfer::Payout { to: depositor.clone(), amount: 1000 })
    );
    assert_eq!(client.get_escrow_info(42).unwrap().status, EscrowStatus::Refunded);
}

#[test]
fn refund_is_allowed_at_the_deadline() {
    let depositor = addr("GDEPOSITOR");
    let mut client = initialized();
    client.lock_funds(&depositor, depositor.clone(), 7, 300, 100, 0).unwrap();
    assert_eq!(client.refund(7, 100), Ok(Transfer::Payout { to: depositor, amount: 300 }));
}

#[test]
fn closed_escrows_never_change_status_again() {
    let depositor = addr("GDEPOSITOR");
    let contributor = addr("GCONTRIBUTOR");
    let mut client = initialized();
    client.lock_funds(&depositor, depositor.clone(), 1, 100, 10, 0).unwrap();
    client.lock_funds(&depositor, depositor.clone(), 2, 100, 10, 0).unwrap();
    client.release_funds(&admin(), 1, contributor.clone()).unwrap();
    assert_eq!(client.refund(1, 20), Err(Error::FundsNotLocked));
    assert_eq!(client.release_funds(&admin(), 1, contributor.clone()), Err(Error::FundsNotLocked));
    assert_eq!(client.get_escrow_info(1).unwrap().status, EscrowStatus::Released);
    client.refund(2, 20).unwrap();
    assert_eq!(client.release_funds(&admin(), 2, contributor.clone()), Err(Error::FundsNotLocked));
    assert_eq!(client.refund(2, 30), Err(Error::FundsNotLocked));
    assert_eq!(client.get_escrow_info(2).unwrap().status, EscrowStatus::Refunded);
}

#[test]
fn operations_report_each_error() {
    let depositor = addr("GDEPOSITOR");
    let stranger = addr("GSTRANGER");
    let mut fresh = BountyEscrowContract::new();
    assert_eq!(
        fresh.lock_funds(&depositor, depositor.clone(), 1, 10, 10, 0),
        Err(Error::NotInitialized)
    );
    assert_eq!(fresh.release_funds(&admin(), 1, depositor.clone()), Err(Error::NotInitialized));
    assert_eq!(fresh.get_config().map(|c| c.admin.clone()), Err(Error::NotInitialized));

    let mut client = initialized();
    assert_eq!(client.init(admin(), token()), Err(Error::AlreadyInitialized));
    assert_eq!(
        client.lock_funds(&stranger, depositor.clone(), 1, 10, 10, 0),
        Err(Error::Unauthorized)
    );
    client.lock_funds(&depositor, depositor.clone(), 1, 10, 10, 0).unwrap();
    assert_eq!(
        client.lock_funds(&depositor, depositor.clone(), 1, 10, 10, 0),
        Err(Error::BountyExists)
    );
    assert_eq!(client.release_funds(&stranger, 1, stranger.clone()), Err(Error::Unauthorized));
    assert_eq!(client.release_funds(&admin(), 9, stranger.clone()), Err(Error::BountyNotFound));
    assert_eq!(client.refund(9, 100), Err(Error::BountyNotFound));
    assert_eq!(
        client.set_escrow_metadata(&stranger, 1, empty_metadata(), 10),
        Err(Error::Unauthorized)
    );
    assert_eq!(
        client.set_escrow_metadata(&depositor, 9, empty_metadata(), 10),
        Err(Error::BountyNotFound)
    );
    assert_eq!(client.get_release_schedule(1, 1).map(|s| s.amount), Err(Error::ScheduleNotFound));
    assert_eq!(client.get_release_schedule(9, 1).map(|s| s.amount), Err(Error::BountyNotFound));
    assert_eq!(client.get_pending_schedules(9).map(|v| v.len()), Err(Error::BountyNotFound));
    assert_eq!(client.get_release_history(9).map(|v| v.len()), Err(Error::BountyNotFound));
}

#[test]
fn due_schedules_follow_release_times() {
    let admin = admin();
    let depositor = addr("GDEPOSITOR");
    let a = addr("GRECIPIENTA");
    let b = addr("GRECIPIENTB");
    let mut client = initialized();
    client.lock_funds(&depositor, depositor.clone(), 1, 1000, 100000, 0).unwrap();
    assert_eq!(client.create_release_schedule(&admin, 1, 600, 1000, a.clone()), Ok(1));
    assert_eq!(client.create_release_schedule(&admin, 1, 400, 2000, b.clone()), Ok(2));

    let due = client.get_due_schedules(1, 1001).unwrap();
    assert_eq!(due.len(), 1);
    assert_eq!(due[0].schedule_id, 1);
    assert_eq!(due[0].amount, 600);
    assert_eq!(due[0].recipient, a);

    let me = contract_address();
    assert_eq!(
        client.release_schedule_automatic(&me, 1, 1, 1001),
        Ok(Transfer::Payout { to: a.clone(), amount: 600 })
    );
    assert_eq!(client.release_schedule_automatic(&me, 1, 2, 1001), Err(Error::TooEarly));
    assert_eq!(client.get_due_schedules(1, 1001).unwrap().len(), 0);
    assert_eq!(client.get_due_schedules(1, 2000).unwrap().len(), 1);
}

#[test]
fn schedule_errors() {
    let admin = admin();
    let depositor = addr("GDEPOSITOR");
    let a = addr("GRECIPIENTA");
    let mut client = initialized();
    client.lock_funds(&depositor, depositor.clone(), 1, 1000, 100000, 0).unwrap();
    assert_eq!(
        client.create_release_schedule(&depositor, 1, 100, 10, a.clone()),
        Err(Error::Unauthorized)
    );
    assert_eq!(
        client.create_release_schedule(&admin, 2, 100, 10, a.clone()),
        Err(Error::BountyNotFound)
    );
    assert_eq!(client.create_release_schedule(&admin, 1, 0, 10, a.clone()), Err(Error::InvalidAmount));
    assert_eq!(client.create_release_schedule(&admin, 1, 700, 10, a.clone()), Ok(1));
    assert_eq!(
        client.create_release_schedule(&admin, 1, 301, 10, a.clone()),
        Err(Error::InvalidAmount)
    );
    assert_eq!(client.create_release_schedule(&admin, 1, 300, 10, a.clone()), Ok(2));
    assert_eq!(client.get_all_release_schedules(1).unwrap().len(), 2);

    assert_eq!(client.release_schedule_manual(&depositor, 1, 1, 0), Err(Error::Unauthorized));
    assert_eq!(client.release_schedule_manual(&admin, 1, 3, 0), Err(Error::ScheduleNotFound));
    assert_eq!(client.release_schedule_manual(&admin, 1, 0, 0), Err(Error::ScheduleNotFound));
    client.release_schedule_manual(&admin, 1, 1, 0).unwrap();
    assert_eq!(client.release_schedule_manual(&admin, 1, 1, 0), Err(Error::AlreadyReleased));
    assert_eq!(
        client.release_schedule_automatic(&depositor, 1, 1, 50),
        Err(Error::AlreadyReleased)
    );

    let mut uninit = BountyEscrowContract::new();
    assert_eq!(
        uninit.create_release_schedule(&admin, 1, 100, 10, a.clone()),
        Err(Error::NotInitialized)
    );
    assert_eq!(uninit.release_schedule_manual(&admin, 1, 1, 0), Err(Error::NotInitialized));
}

#[test]
fn closing_an_escrow_pays_its_amount_and_stops_schedules() {
    let admin = admin();
    let depositor = addr("GDEPOSITOR");
    let a = addr("GRECIPIENTA");
    let b = addr("GRECIPIENTB");
    let contributor = addr("GCONTRIBUTOR");
    let mut client = initialized();
    client.lock_funds(&depositor, depositor.clone(), 1, 1000, 100000, 0).unwrap();
    client.create_release_schedule(&admin, 1, 250, 10, a.clone()).unwrap();
    client.create_release_schedule(&admin, 1, 100, 10, b.clone()).unwrap();
    client.release_schedule_manual(&admin, 1, 1, 0).unwrap();
    assert_eq!(
        client.release_funds(&admin, 1, contributor.clone()),
        Ok(Transfer::Payout { to: contributor, amount: 1000 })
    );
    assert_eq!(
        client.release_schedule_automatic(&admin, 1, 2, 20),
        Err(Error::FundsNotLocked)
    );
    assert_eq!(
        client.create_release_schedule(&admin, 1, 10, 10, a.clone()),
        Err(Error::FundsNotLocked)
    );
}

#[test]
fn metadata_is_stored_only_when_within_limits() {
    let depositor = addr("GDEPOSITOR");
    let mut client = initialized();
    client.lock_funds(&depositor, depositor.clone(), 3, 100, 10, 0).unwrap();
    assert_eq!(client.get_escrow_metadata(3), Ok(None));

    let mut too_many_tags = empty_metadata();
    for i in 0..21 {
        too_many_tags.tags.push(format!("tag{}", i));
    }
    assert_eq!(
        client.set_escrow_metadata(&depositor, 3, too_many_tags, 200),
        Err(Error::MetadataTooLarge)
    );
    assert_eq!(client.get_escrow_metadata(3), Ok(None));

    let mut good = empty_metadata();
    good.repo_id = Some("owner/repo".to_string());
    good.tags.push("security".to_string());
    good.custom_fields.push(CustomField { key: "difficulty".to_string(), value: "medium".to_string() });
    assert_eq!(client.set_escrow_metadata(&depositor, 3, good, 120), Ok(()));
    let stored = client.get_escrow_metadata(3).unwrap().unwrap();
    assert_eq!(stored.repo_id, Some("owner/repo".to_string()));

    let mut too_large = empty_metadata();
    too_large.issue_id = Some("1".to_string());
    assert_eq!(
        client.set_escrow_metadata(&depositor, 3, too_large, 1025),
        Err(Error::MetadataTooLarge)
    );
    let unchanged = client.get_escrow_with_metadata(3).unwrap();
    assert_eq!(unchanged.escrow.amount, 100);
    assert_eq!(unchanged.metadata.unwrap().repo_id, Some("owner/repo".to_string()));
}

#[test]
fn batch_lock_creates_all_or_nothing() {
    let depositor = addr("GDEPOSITOR");
    let item = |id: u64, amount: i128| LockFundsItem {
        bounty_id: id,
        depositor: depositor.clone(),
        amount,
        deadline: 100,
    };
    let mut client = initialized();
    assert_eq!(
        client.batch_lock_funds(&depositor, vec![item(1, 10), item(2, 20), item(1, 30)], 0),
        Err(Error::DuplicateBatchId)
    );
    assert!(client.get_escrow_info(1).is_err());
    assert!(client.get_escrow_info(2).is_err());

    assert_eq!(
        client.batch_lock_funds(&depositor, vec![item(1, 10), item(2, 0)], 0),
        Err(Error::InvalidAmount)
    );
    assert!(client.get_escrow_info(1).is_err());

    let deposits = client.batch_lock_funds(&depositor, vec![item(1, 10), item(2, 20)], 0).unwrap();
    assert_eq!(deposits.len(), 2);
    assert_eq!(deposits[1], Transfer::Deposit { from: depositor.clone(), amount: 20 });
    assert_eq!(client.get_escrow_info(2).unwrap().amount, 20);

    assert_eq!(
        client.batch_lock_funds(&depositor, vec![item(3, 10), item(2, 5)], 0),
        Err(Error::BountyExists)
    );
    assert!(client.get_escrow_info(3).is_err());
    assert_eq!(client.get_escrow_info(2).unwrap().amount, 20);

    let stranger = addr("GSTRANGER");
    assert_eq!(client.batch_lock_funds(&stranger, vec![item(4, 10)], 0), Err(Error::Unauthorized));
    assert_eq!(client.batch_lock_funds(&depositor, Vec::new(), 0).map(|d| d.len()), Ok(0));
    let mut uninit = BountyEscrowContract::new();
    assert_eq!(uninit.batch_lock_funds(&depositor, vec![item(4, 10)], 0), Err(Error::NotInitialized));
}

#[test]
fn batch_release_pays_each_winner_or_nobody() {
    let admin = admin();
    let depositor = addr("GDEPOSITOR");
    let a = addr("GWINNERA");
    let b = addr("GWINNERB");
    let mut client = initialized();
    client.lock_funds(&depositor, depositor.clone(), 1, 100, 10, 0).unwrap();
    client.lock_funds(&depositor, depositor.clone(), 2, 200, 10, 0).unwrap();
    let release = |id: u64, to: &Address| ReleaseFundsItem { bounty_id: id, contributor: to.clone() };

    assert_eq!(
        client.batch_release_funds(&admin, vec![release(1, &a), release(1, &b)]),
        Err(Error::DuplicateBatchId)
    );
    assert_eq!(
        client.batch_release_funds(&admin, vec![release(1, &a), release(3, &b)]),
        Err(Error::BountyNotFound)
    );
    assert_eq!(
        client.batch_release_funds(&depositor, vec![release(1, &a)]),
        Err(Error::Unauthorized)
    );
    assert_eq!(client.get_escrow_info(1).unwrap().status, EscrowStatus::Locked);

    let payouts = client.batch_release_funds(&admin, vec![release(2, &b), release(1, &a)]).unwrap();
    assert_eq!(
        payouts,
        vec![
            Transfer::Payout { to: b.clone(), amount: 200 },
            Transfer::Payout { to: a.clone(), amount: 100 },
        ]
    );
    assert_eq!(client.get_escrow_info(1).unwrap().status, EscrowStatus::Released);
    assert_eq!(client.get_escrow_info(2).unwrap().status, EscrowStatus::Released);
    assert_eq!(
        client.batch_release_funds(&admin, vec![release(1, &a)]),
        Err(Error::FundsNotLocked)
    );
}

#[test]
fn addresses_compare_by_text() {
    let a = Address::new("GSAME");
    assert_eq!(a.clone(), Address::new("GSAME"));
    assert_ne!(a, Address::new("GOTHER"));
    assert_eq!(a.as_str(), "GSAME");
}

fn record(amount: i128, schedule_amounts: &[i128], id: u64) -> BountyRecord {
    BountyRecord {
        escrow: Escrow { depositor: addr("GDEPOSITOR"), amount, status: EscrowStatus::Locked, deadline: 50 },
        metadata: None,
        schedules: schedule_amounts
            .iter()
            .enumerate()
            .map(|(i, a)| ReleaseSchedule {
                bounty_id: id,
                schedule_id: i as u64 + 1,
                amount: *a,
                release_timestamp: 10,
                recipient: addr("GRECIPIENT"),
                released: false,
                released_at: None,
                released_by: None,
                release_type: None,
            })
            .collect(),
        history: Vec::new(),
    }
}

fn config() -> Config {
    Config { admin: admin(), token: token() }
}

#[test]
fn restore_accepts_only_well_formed_records() {
    let good = BountyEscrowContract::restore(
        Some(config()),
        vec![(1, record(100, &[60, 40], 1)), (2, record(5, &[], 2))],
    );
    let mut c = good.expect("well formed records load");
    assert_eq!(c.get_all_release_schedules(1).unwrap().len(), 2);
    assert_eq!(c.get_escrow_info(2).unwrap().amount, 5);
    assert_eq!(
        c.release_funds(&admin(), 2, addr("GWINNER")),
        Ok(Transfer::Payout { to: addr("GWINNER"), amount: 5 })
    );

    assert!(BountyEscrowContract::restore(Some(config()), vec![(1, record(100, &[60, 41], 1))]).is_none());
    assert!(BountyEscrowContract::restore(Some(config()), vec![(1, record(0, &[], 1))]).is_none());
    assert!(BountyEscrowContract::restore(Some(config()), vec![(1, record(100, &[10], 2))]).is_none());
    assert!(BountyEscrowContract::restore(
        None,
        vec![(1, record(100, &[], 1)), (1, record(100, &[], 1))]
    )
    .is_none());
    let mut released = record(100, &[30], 1);
    released.schedules[0].released = true;
    assert!(BountyEscrowContract::restore(None, vec![(1, released)]).is_none());
}

#[test]
fn refund_after_a_schedule_release_pays_the_escrow_amount() {
    let admin = admin();
    let depositor = addr("GDEPOSITOR");
    let a = addr("GRECIPIENTA");
    let mut client = initialized();
    client.lock_funds(&depositor, depositor.clone(), 5, 1000, 100, 0).unwrap();
    client.create_release_schedule(&admin, 5, 300, 10, a.clone()).unwrap();
    client.release_schedule_manual(&admin, 5, 1, 0).unwrap();
    assert_eq!(client.refund(5, 100), Ok(Transfer::Payout { to: depositor, amount: 1000 }));
    assert_eq!(client.get_escrow_info(5).unwrap().status, EscrowStatus::Refunded);
}
