//! Behavior of the pro-rata distribution engine, driven through the
//! registry with a real share ledger supplying the balance snapshot.

use receivables_core::errors::VaultError;
use receivables_core::records::{EntityKind, ReceivableStatus};
use receivables_core::token::FundToken;
use receivables_core::vault::ReceivableVault;

const ADMIN: u64 = 1;
const CONSULTANT: u64 = 2;
const LEDGER_REF: u64 = 100;
const H1: u64 = 21;
const H2: u64 = 22;
const H3: u64 = 23;

/// A ledger holding exactly the given balances for the given holders.
fn ledger_with(holders: &[u64], balances: &[i64]) -> FundToken {
    let mut t = FundToken::new();
    t.initialize(ADMIN, b"Fund Shares".to_vec(), b"FSH".to_vec(), i64::MAX)
        .unwrap();
    for (h, b) in holders.iter().zip(balances.iter()) {
        t.whitelist_add(ADMIN, *h).unwrap();
        if *b > 0 {
            t.mint(ADMIN, *h, *b).unwrap();
        }
    }
    t
}

/// A registry with receivable R1 marked paid for `paid`.
fn vault_with_paid(paid: i64) -> ReceivableVault {
    let mut v = ReceivableVault::new();
    v.initialize(ADMIN, LEDGER_REF).unwrap();
    v.consultant_add(ADMIN, CONSULTANT).unwrap();
    v.submit_fund(CONSULTANT, b"F1".to_vec(), b"Fund".to_vec(), LEDGER_REF).unwrap();
    v.approve_entity(ADMIN, EntityKind::Fund, &b"F1".to_vec(), true).unwrap();
    v.submit_sacado(CONSULTANT, b"S1".to_vec(), b"Debtor".to_vec()).unwrap();
    v.approve_entity(ADMIN, EntityKind::Sacado, &b"S1".to_vec(), true).unwrap();
    v.submit_cedente(CONSULTANT, b"C1".to_vec(), b"Origin".to_vec()).unwrap();
    v.register_receivable(
        ADMIN,
        b"R1".to_vec(),
        b"F1".to_vec(),
        b"C1".to_vec(),
        b"S1".to_vec(),
        paid,
        0,
        0,
    )
    .unwrap();
    v.mark_paid(ADMIN, &b"R1".to_vec(), paid, 5000).unwrap();
    v
}

#[test]
fn proportional_balances_leave_no_residue() {
    let holders = vec![H1, H2];
    let ledger = ledger_with(&holders, &[30, 70]);
    let mut v = vault_with_paid(100);
    let rep = v.distribute(ADMIN, &b"R1".to_vec(), &holders, &ledger).unwrap();
    assert_eq!(rep.payouts, vec![(H1, 30), (H2, 70)]);
    assert_eq!(rep.residue, 0);
    assert_eq!(rep.residue_holder, None);
    assert_eq!(rep.paid, 100);
    let rec = v.get_receivable(&b"R1".to_vec()).unwrap();
    assert_eq!(rec.status, ReceivableStatus::Distributed);
}

#[test]
fn floor_shares_that_cover_the_amount_leave_no_residue() {
    let holders = vec![H1, H2, H3];
    let ledger = ledger_with(&holders, &[33, 33, 34]);
    let mut v = vault_with_paid(100);
    let rep = v.distribute(ADMIN, &b"R1".to_vec(), &holders, &ledger).unwrap();
    assert_eq!(rep.payouts, vec![(H1, 33), (H2, 33), (H3, 34)]);
    assert_eq!(rep.residue, 0);
    assert_eq!(rep.residue_holder, None);
}

#[test]
fn residue_goes_to_the_first_holder_among_ties_for_the_largest_balance() {
    let holders = vec![H1, H2, H3];
    let ledger = ledger_with(&holders, &[1, 1, 1]);
    let mut v = vault_with_paid(10);
    let rep = v.distribute(ADMIN, &b"R1".to_vec(), &holders, &ledger).unwrap();
    assert_eq!(rep.payouts, vec![(H1, 3), (H2, 3), (H3, 3)]);
    assert_eq!(rep.residue, 1);
    assert_eq!(rep.residue_holder, Some(H1));
}

#[test]
fn zero_balance_holders_are_skipped() {
    let holders = vec![H1, H2, H3];
    let ledger = ledger_with(&holders, &[0, 25, 75]);
    let mut v = vault_with_paid(100);
    let rep = v.distribute(ADMIN, &b"R1".to_vec(), &holders, &ledger).unwrap();
    assert_eq!(rep.payouts, vec![(H2, 25), (H3, 75)]);
    assert_eq!(rep.residue, 0);
}

#[test]
fn shares_and_residue_always_account_for_the_paid_amount() {
    let holders = vec![H1, H2, H3];
    let ledger = ledger_with(&holders, &[17, 29, 54]);
    let mut v = vault_with_paid(997);
    let rep = v.distribute(ADMIN, &b"R1".to_vec(), &holders, &ledger).unwrap();
    let shares: i64 = rep.payouts.iter().map(|p| p.1).sum();
    assert_eq!(shares + rep.residue, 997);
    // floor(17*997/100), floor(29*997/100), floor(54*997/100)
    assert_eq!(rep.payouts, vec![(H1, 169), (H2, 289), (H3, 538)]);
    assert_eq!(rep.residue, 1);
    assert_eq!(rep.residue_holder, Some(H3));
}

#[test]
fn distribution_needs_a_paid_receivable() {
    let holders = vec![H1];
    let ledger = ledger_with(&holders, &[10]);
    let mut v = vault_with_paid(100);
    assert_eq!(
        v.distribute(CONSULTANT, &b"R1".to_vec(), &holders, &ledger),
        Err(VaultError::NotAdmin)
    );
    assert_eq!(
        v.distribute(ADMIN, &b"R9".to_vec(), &holders, &ledger),
        Err(VaultError::NotFound)
    );
    v.distribute(ADMIN, &b"R1".to_vec(), &holders, &ledger).unwrap();
    // A second distribution of the same receivable is refused, and the
    // record stays Distributed.
    assert_eq!(
        v.distribute(ADMIN, &b"R1".to_vec(), &holders, &ledger),
        Err(VaultError::BadStatus)
    );
    let rec = v.get_receivable(&b"R1".to_vec()).unwrap();
    assert_eq!(rec.status, ReceivableStatus::Distributed);
    assert_eq!(rec.paid_amount, 100);
    // Nor can a distributed receivable be marked paid again.
    assert_eq!(v.mark_paid(ADMIN, &b"R1".to_vec(), 5, 6000), Err(VaultError::BadStatus));
    assert_eq!(v.get_total_paid(), 100);
}

#[test]
fn distribution_against_an_all_zero_snapshot_is_invalid() {
    let holders = vec![H1, H2];
    let ledger = ledger_with(&holders, &[0, 0]);
    let mut v = vault_with_paid(100);
    assert_eq!(
        v.distribute(ADMIN, &b"R1".to_vec(), &holders, &ledger),
        Err(VaultError::Invalid)
    );
    // The failed call left the receivable Paid.
    let rec = v.get_receivable(&b"R1".to_vec()).unwrap();
    assert_eq!(rec.status, ReceivableStatus::Paid);
}

#[test]
fn pending_receivable_cannot_be_distributed() {
    let holders = vec![H1];
    let ledger = ledger_with(&holders, &[10]);
    let mut v = ReceivableVault::new();
    v.initialize(ADMIN, LEDGER_REF).unwrap();
    v.consultant_add(ADMIN, CONSULTANT).unwrap();
    v.submit_fund(CONSULTANT, b"F1".to_vec(), b"Fund".to_vec(), LEDGER_REF).unwrap();
    v.approve_entity(ADMIN, EntityKind::Fund, &b"F1".to_vec(), true).unwrap();
    v.submit_sacado(CONSULTANT, b"S1".to_vec(), b"Debtor".to_vec()).unwrap();
    v.approve_entity(ADMIN, EntityKind::Sacado, &b"S1".to_vec(), true).unwrap();
    v.submit_cedente(CONSULTANT, b"C1".to_vec(), b"Origin".to_vec()).unwrap();
    v.register_receivable(
        ADMIN,
        b"R1".to_vec(),
        b"F1".to_vec(),
        b"C1".to_vec(),
        b"S1".to_vec(),
        100,
        0,
        0,
    )
    .unwrap();
    assert_eq!(
        v.distribute(ADMIN, &b"R1".to_vec(), &holders, &ledger),
        Err(VaultError::BadStatus)
    );
    let rec = v.get_receivable(&b"R1".to_vec()).unwrap();
    assert_eq!(rec.status, ReceivableStatus::Pending);
}

#[test]
fn whole_supply_with_one_holder_gets_everything() {
    let holders = vec![H1];
    let ledger = ledger_with(&holders, &[5]);
    let mut v = vault_with_paid(42);
    let rep = v.distribute(ADMIN, &b"R1".to_vec(), &holders, &ledger).unwrap();
    assert_eq!(rep.payouts, vec![(H1, 42)]);
    assert_eq!(rep.residue, 0);
    assert_eq!(rep.residue_holder, None);
}
