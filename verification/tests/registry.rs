//! Behavior of the receivable registry: onboarding, approval, the
//! receivable lifecycle, and the running totals.

use receivables_core::errors::VaultError;
use receivables_core::records::{EntityKind, ReceivableStatus, Status};
use receivables_core::vault::ReceivableVault;

const ADMIN: u64 = 1;
const CONSULTANT: u64 = 2;
const OUTSIDER: u64 = 3;
const LEDGER_REF: u64 = 100;

fn fresh() -> ReceivableVault {
    let mut v = ReceivableVault::new();
    assert_eq!(v.initialize(ADMIN, LEDGER_REF), Ok(()));
    assert_eq!(v.consultant_add(ADMIN, CONSULTANT), Ok(()));
    v
}

/// A registry with fund F1 and debtor S1 approved and originator C1 on
/// file, ready for registrations.
fn onboarded() -> ReceivableVault {
    let mut v = fresh();
    v.submit_fund(CONSULTANT, b"F1".to_vec(), b"Agro Fund".to_vec(), LEDGER_REF)
        .unwrap();
    v.approve_entity(ADMIN, EntityKind::Fund, &b"F1".to_vec(), true).unwrap();
    v.submit_sacado(CONSULTANT, b"S1".to_vec(), b"Debtor One".to_vec()).unwrap();
    v.approve_entity(ADMIN, EntityKind::Sacado, &b"S1".to_vec(), true).unwrap();
    v.submit_cedente(CONSULTANT, b"C1".to_vec(), b"Originator One".to_vec()).unwrap();
    v
}

fn register_r1(v: &mut ReceivableVault) {
    let r = v.register_receivable(
        ADMIN,
        b"R1".to_vec(),
        b"F1".to_vec(),
        b"C1".to_vec(),
        b"S1".to_vec(),
        1000,
        777,
        55,
    );
    assert_eq!(r, Ok(()));
}

#[test]
fn registry_initialize_twice_is_rejected() {
    let mut v = fresh();
    assert_eq!(v.initialize(ADMIN, LEDGER_REF), Err(VaultError::AlreadyInitialized));
    assert_eq!(v.get_admin(), ADMIN);
    assert_eq!(v.get_fund_token_address(), LEDGER_REF);
}

#[test]
fn checked_arithmetic_helpers() {
    assert_eq!(receivables_core::vault::add(2, 3), Ok(5));
    assert_eq!(receivables_core::vault::add(i64::MAX, 1), Err(VaultError::Math));
    assert_eq!(receivables_core::vault::sub(2, 3), Ok(-1));
    assert_eq!(receivables_core::vault::sub(i64::MIN, 1), Err(VaultError::Math));
}

#[test]
fn consultant_management() {
    let mut v = fresh();
    assert!(v.is_consultant(CONSULTANT));
    assert_eq!(v.consultant_add(OUTSIDER, OUTSIDER), Err(VaultError::NotAdmin));
    assert_eq!(v.consultant_remove(OUTSIDER, CONSULTANT), Err(VaultError::NotAdmin));
    // Removing an identity that is not a consultant succeeds unchanged.
    assert_eq!(v.consultant_remove(ADMIN, OUTSIDER), Ok(()));
    assert!(v.is_consultant(CONSULTANT));
    assert_eq!(v.consultant_remove(ADMIN, CONSULTANT), Ok(()));
    assert!(!v.is_consultant(CONSULTANT));
}

#[test]
fn submissions_are_consultant_only() {
    let mut v = fresh();
    assert_eq!(
        v.submit_cedente(OUTSIDER, b"C1".to_vec(), b"Name".to_vec()),
        Err(VaultError::NotConsultant)
    );
    assert_eq!(
        v.submit_sacado(OUTSIDER, b"S1".to_vec(), b"Name".to_vec()),
        Err(VaultError::NotConsultant)
    );
    assert_eq!(
        v.submit_fund(OUTSIDER, b"F1".to_vec(), b"Name".to_vec(), LEDGER_REF),
        Err(VaultError::NotConsultant)
    );
}

#[test]
fn submissions_reject_empty_fields_and_duplicates() {
    let mut v = fresh();
    assert_eq!(
        v.submit_cedente(CONSULTANT, b"".to_vec(), b"Name".to_vec()),
        Err(VaultError::Invalid)
    );
    assert_eq!(
        v.submit_cedente(CONSULTANT, b"C1".to_vec(), b"".to_vec()),
        Err(VaultError::Invalid)
    );
    assert_eq!(v.submit_cedente(CONSULTANT, b"C1".to_vec(), b"Name".to_vec()), Ok(()));
    assert_eq!(
        v.submit_cedente(CONSULTANT, b"C1".to_vec(), b"Other".to_vec()),
        Err(VaultError::DuplicateId)
    );
    // The namespaces are independent: the same identifier is fresh
    // for a debtor and for a fund.
    assert_eq!(v.submit_sacado(CONSULTANT, b"C1".to_vec(), b"Name".to_vec()), Ok(()));
    assert_eq!(
        v.submit_fund(CONSULTANT, b"C1".to_vec(), b"Name".to_vec(), LEDGER_REF),
        Ok(())
    );
}

#[test]
fn approval_is_admin_only_and_needs_an_existing_record() {
    let mut v = fresh();
    v.submit_cedente(CONSULTANT, b"C1".to_vec(), b"Name".to_vec()).unwrap();
    assert_eq!(
        v.approve_entity(CONSULTANT, EntityKind::Cedente, &b"C1".to_vec(), true),
        Err(VaultError::NotAdmin)
    );
    assert_eq!(
        v.approve_entity(ADMIN, EntityKind::Cedente, &b"C2".to_vec(), true),
        Err(VaultError::NotFound)
    );
    assert_eq!(
        v.approve_entity(ADMIN, EntityKind::Fund, &b"C1".to_vec(), true),
        Err(VaultError::NotFound)
    );
    assert_eq!(v.approve_entity(ADMIN, EntityKind::Cedente, &b"C1".to_vec(), false), Ok(()));
    // Re-deciding an already-decided record is allowed.
    assert_eq!(v.approve_entity(ADMIN, EntityKind::Cedente, &b"C1".to_vec(), true), Ok(()));
}

#[test]
fn registration_gating_rejects_undecided_or_rejected_references() {
    let mut v = fresh();
    v.submit_fund(CONSULTANT, b"F1".to_vec(), b"Fund".to_vec(), LEDGER_REF).unwrap();
    v.submit_sacado(CONSULTANT, b"S1".to_vec(), b"Debtor".to_vec()).unwrap();
    v.submit_cedente(CONSULTANT, b"C1".to_vec(), b"Origin".to_vec()).unwrap();
    // Fund still Pending: BadStatus even though it exists.
    let r = v.register_receivable(
        ADMIN,
        b"R1".to_vec(),
        b"F1".to_vec(),
        b"C1".to_vec(),
        b"S1".to_vec(),
        1000,
        0,
        0,
    );
    assert_eq!(r, Err(VaultError::BadStatus));
    // Fund Rejected: still BadStatus.
    v.approve_entity(ADMIN, EntityKind::Fund, &b"F1".to_vec(), false).unwrap();
    let r = v.register_receivable(
        ADMIN,
        b"R1".to_vec(),
        b"F1".to_vec(),
        b"C1".to_vec(),
        b"S1".to_vec(),
        1000,
        0,
        0,
    );
    assert_eq!(r, Err(VaultError::BadStatus));
    // Fund Approved but debtor Pending: BadStatus.
    v.approve_entity(ADMIN, EntityKind::Fund, &b"F1".to_vec(), true).unwrap();
    let r = v.register_receivable(
        ADMIN,
        b"R1".to_vec(),
        b"F1".to_vec(),
        b"C1".to_vec(),
        b"S1".to_vec(),
        1000,
        0,
        0,
    );
    assert_eq!(r, Err(VaultError::BadStatus));
    // Everything approved: the registration lands.
    v.approve_entity(ADMIN, EntityKind::Sacado, &b"S1".to_vec(), true).unwrap();
    let r = v.register_receivable(
        ADMIN,
        b"R1".to_vec(),
        b"F1".to_vec(),
        b"C1".to_vec(),
        b"S1".to_vec(),
        1000,
        0,
        0,
    );
    assert_eq!(r, Ok(()));
    assert_eq!(v.get_receivables_count(), 1);
}

#[test]
fn registration_rejects_bad_arguments_and_missing_references() {
    let mut v = onboarded();
    let r = v.register_receivable(
        CONSULTANT,
        b"R1".to_vec(),
        b"F1".to_vec(),
        b"C1".to_vec(),
        b"S1".to_vec(),
        1000,
        0,
        0,
    );
    assert_eq!(r, Err(VaultError::NotAdmin));
    let r = v.register_receivable(
        ADMIN,
        b"R1".to_vec(),
        b"F1".to_vec(),
        b"C1".to_vec(),
        b"S1".to_vec(),
        0,
        0,
        0,
    );
    assert_eq!(r, Err(VaultError::Invalid));
    let r = v.register_receivable(
        ADMIN,
        b"R1".to_vec(),
        b"F9".to_vec(),
        b"C1".to_vec(),
        b"S1".to_vec(),
        1000,
        0,
        0,
    );
    assert_eq!(r, Err(VaultError::NotFound));
    let r = v.register_receivable(
        ADMIN,
        b"R1".to_vec(),
        b"F1".to_vec(),
        b"C9".to_vec(),
        b"S1".to_vec(),
        1000,
        0,
        0,
    );
    assert_eq!(r, Err(VaultError::NotFound));
    let r = v.register_receivable(
        ADMIN,
        b"R1".to_vec(),
        b"F1".to_vec(),
        b"C1".to_vec(),
        b"S9".to_vec(),
        1000,
        0,
        0,
    );
    assert_eq!(r, Err(VaultError::NotFound));
    register_r1(&mut v);
    let r = v.register_receivable(
        ADMIN,
        b"R1".to_vec(),
        b"F1".to_vec(),
        b"C1".to_vec(),
        b"S1".to_vec(),
        500,
        0,
        0,
    );
    assert_eq!(r, Err(VaultError::DuplicateId));
    assert_eq!(v.get_receivables_count(), 1);
}

#[test]
fn registered_receivable_starts_pending() {
    let mut v = onboarded();
    register_r1(&mut v);
    let rec = v.get_receivable(&b"R1".to_vec()).unwrap();
    assert_eq!(rec.id, b"R1".to_vec());
    assert_eq!(rec.fund_id, b"F1".to_vec());
    assert_eq!(rec.cedente_id, b"C1".to_vec());
    assert_eq!(rec.sacado_id, b"S1".to_vec());
    assert_eq!(rec.face_value, 1000);
    assert_eq!(rec.due_date, 777);
    assert_eq!(rec.debtor_address, 55);
    assert_eq!(rec.status, ReceivableStatus::Pending);
    assert_eq!(rec.paid_amount, 0);
    assert_eq!(rec.paid_date, 0);
    assert_eq!(v.get_receivable(&b"R9".to_vec()), Err(VaultError::NotFound));
}

#[test]
fn mark_paid_moves_pending_to_paid_once() {
    let mut v = onboarded();
    register_r1(&mut v);
    assert_eq!(v.mark_paid(CONSULTANT, &b"R1".to_vec(), 900, 5000), Err(VaultError::NotAdmin));
    assert_eq!(v.mark_paid(ADMIN, &b"R1".to_vec(), 0, 5000), Err(VaultError::Invalid));
    assert_eq!(v.mark_paid(ADMIN, &b"R9".to_vec(), 900, 5000), Err(VaultError::NotFound));
    assert_eq!(v.mark_paid(ADMIN, &b"R1".to_vec(), 900, 5000), Ok(()));
    let rec = v.get_receivable(&b"R1".to_vec()).unwrap();
    assert_eq!(rec.status, ReceivableStatus::Paid);
    assert_eq!(rec.paid_amount, 900);
    assert_eq!(rec.paid_date, 5000);
    assert_eq!(v.get_total_paid(), 900);
    // Marking an already-paid receivable fails and changes nothing.
    assert_eq!(v.mark_paid(ADMIN, &b"R1".to_vec(), 1, 6000), Err(VaultError::BadStatus));
    let rec = v.get_receivable(&b"R1".to_vec()).unwrap();
    assert_eq!(rec.paid_amount, 900);
    assert_eq!(v.get_total_paid(), 900);
}

#[test]
fn mark_paid_overflow_of_the_running_total_is_rejected() {
    let mut v = onboarded();
    register_r1(&mut v);
    let r = v.register_receivable(
        ADMIN,
        b"R2".to_vec(),
        b"F1".to_vec(),
        b"C1".to_vec(),
        b"S1".to_vec(),
        1000,
        0,
        0,
    );
    assert_eq!(r, Ok(()));
    assert_eq!(v.mark_paid(ADMIN, &b"R1".to_vec(), i64::MAX, 5000), Ok(()));
    assert_eq!(v.mark_paid(ADMIN, &b"R2".to_vec(), 1, 5001), Err(VaultError::Math));
    // The rejected call left the second receivable untouched.
    let rec = v.get_receivable(&b"R2".to_vec()).unwrap();
    assert_eq!(rec.status, ReceivableStatus::Pending);
    assert_eq!(v.get_total_paid(), i64::MAX);
}

#[test]
fn status_enums_compare_by_variant() {
    assert_eq!(Status::Pending, Status::Pending);
    assert_ne!(Status::Approved, Status::Rejected);
    assert_ne!(ReceivableStatus::Paid, ReceivableStatus::Distributed);
}
