//! The receivable registry and distribution engine.
//!
//! The registry owns entity onboarding (originators, debtors, funds,
//! each proposed by a consultant and decided by the administrator),
//! receivable records, and the pro-rata distribution of collected
//! amounts. Like the ledger, it is an explicit state value: the host
//! owns storage, authorization proofs, event emission, and the clock,
//! and passes the invoking principal and the current time in as plain
//! values. Every operation validates before it mutates: a failed call
//! returns a typed error and leaves the state untouched.

use vstd::prelude::*;

verus! {

use vstd::pervasive::VecAdditionalExecFns;

use crate::bytes::clone_bytes;
use crate::distribution::{
    compute_distribution, max_idx_prefix, payouts_match, payouts_prefix, shares_prefix, snapshot,
    sum_prefix, DistributionReport,
};
use crate::errors::VaultError;
use crate::holdings::{elems_unique, idset_add, idset_contains, idset_remove};
use crate::records::{
    ent_find, ent_ids_unique, ent_lookup, fund_find, fund_ids_unique, fund_lookup, lemma_ent_push,
    lemma_ent_update, lemma_fund_push, lemma_fund_update, lemma_rcv_push, lemma_rcv_update,
    rcv_find, rcv_ids_unique, rcv_lookup, EntityKind, EntityRecord, FundRecord, Receivable,
    ReceivableStatus, Status,
};
use crate::token::FundToken;

/// Checked addition of two amounts; `Math` on overflow.
pub fn add(a: i64, b: i64) -> (r: Result<i64, VaultError>)
    ensures
        r == (if a + b > i64::MAX || a + b < i64::MIN {
            Err::<i64, VaultError>(VaultError::Math)
        } else {
            Ok::<i64, VaultError>((a + b) as i64)
        }),
{
    match a.checked_add(b) {
        Some(v) => Ok(v),
        None => Err(VaultError::Math),
    }
}

/// Checked subtraction of two amounts; `Math` on overflow.
pub fn sub(a: i64, b: i64) -> (r: Result<i64, VaultError>)
    ensures
        r == (if a - b > i64::MAX || a - b < i64::MIN {
            Err::<i64, VaultError>(VaultError::Math)
        } else {
            Ok::<i64, VaultError>((a - b) as i64)
        }),
{
    match a.checked_sub(b) {
        Some(v) => Ok(v),
        None => Err(VaultError::Math),
    }
}

/// A registered receivable is well formed: its face value is positive,
/// and its paid amount and date are 0 exactly until it is marked paid.
pub open spec fn rcv_wf(r: Receivable) -> bool {
    &&& r.face_value > 0
    &&& r.status == ReceivableStatus::Pending ==> r.paid_amount == 0 && r.paid_date == 0
    &&& r.status != ReceivableStatus::Pending ==> r.paid_amount > 0
}

/// The fields of a receivable that no lifecycle transition touches.
pub open spec fn same_core(a: Receivable, b: Receivable) -> bool {
    &&& a.id@ == b.id@
    &&& a.fund_id@ == b.fund_id@
    &&& a.cedente_id@ == b.cedente_id@
    &&& a.sacado_id@ == b.sacado_id@
    &&& a.face_value == b.face_value
    &&& a.due_date == b.due_date
    &&& a.debtor_address == b.debtor_address
}

/// Field-for-field agreement of two receivables.
pub open spec fn same_receivable(a: Receivable, b: Receivable) -> bool {
    &&& same_core(a, b)
    &&& a.status == b.status
    &&& a.paid_amount == b.paid_amount
    &&& a.paid_date == b.paid_date
}

/// The receivable registry of one deployment.
pub struct ReceivableVault {
    /// Whether `initialize` has run; no operation precedes it.
    pub initialized: bool,
    /// Identity with exclusive rights to approve, register, mark paid,
    /// distribute, and manage consultants.
    pub admin_id: u64,
    /// Reference to the deployment's default share ledger.
    pub fund_token_address: u64,
    /// Identities permitted to submit onboarding records.
    pub consultants: Vec<u64>,
    /// Originator records, keyed by identifier.
    pub cedentes: Vec<EntityRecord>,
    /// Debtor records, keyed by identifier.
    pub sacados: Vec<EntityRecord>,
    /// Fund records, keyed by identifier.
    pub funds: Vec<FundRecord>,
    /// Receivable records, keyed by identifier; never deleted.
    pub receivables: Vec<Receivable>,
    /// How many receivables were ever registered.
    pub receivable_count: u32,
    /// The sum of every paid amount ever recorded.
    pub total_paid: i64,
}

impl ReceivableVault {
    /// The registry invariant, true of every reachable state.
    pub open spec fn inv(self) -> bool {
        &&& elems_unique(self.consultants@)
        &&& ent_ids_unique(self.cedentes@)
        &&& ent_ids_unique(self.sacados@)
        &&& fund_ids_unique(self.funds@)
        &&& rcv_ids_unique(self.receivables@)
        &&& self.receivable_count == self.receivables@.len()
        &&& self.total_paid >= 0
        &&& forall|k: int| 0 <= k < self.receivables@.len() ==> rcv_wf(self.receivables@[k])
        &&& !self.initialized ==> {
            &&& self.consultants@.len() == 0
            &&& self.cedentes@.len() == 0
            &&& self.sacados@.len() == 0
            &&& self.funds@.len() == 0
            &&& self.receivables@.len() == 0
            &&& self.total_paid == 0
        }
    }

    /// The configuration no record operation touches.
    pub open spec fn same_config(self, o: ReceivableVault) -> bool {
        &&& self.initialized == o.initialized
        &&& self.admin_id == o.admin_id
        &&& self.fund_token_address == o.fund_token_address
    }

    /// A fresh, uninitialized registry.
    pub fn new() -> (v: ReceivableVault)
        ensures
            v.inv(),
            !v.initialized,
    {
        ReceivableVault {
            initialized: false,
            admin_id: 0,
            fund_token_address: 0,
            consultants: Vec::new(),
            cedentes: Vec::new(),
            sacados: Vec::new(),
            funds: Vec::new(),
            receivables: Vec::new(),
            receivable_count: 0,
            total_paid: 0,
        }
    }

    /// Sets the administrator and the default ledger reference of a
    /// fresh registry. The host must have proved the invoker is `admin`.
    pub fn initialize(&mut self, admin: u64, fund_token_address: u64) -> (r: Result<
        (),
        VaultError,
    >)
        requires
            old(self).inv(),
        ensures
            final(self).inv(),
            r == (if old(self).initialized {
                Err::<(), VaultError>(VaultError::AlreadyInitialized)
            } else {
                Ok::<(), VaultError>(())
            }),
            r is Err ==> *final(self) == *old(self),
            r is Ok ==> {
                &&& final(self).initialized
                &&& final(self).admin_id == admin
                &&& final(self).fund_token_address == fund_token_address
                &&& final(self).consultants@ == old(self).consultants@
                &&& final(self).cedentes@ == old(self).cedentes@
                &&& final(self).sacados@ == old(self).sacados@
                &&& final(self).funds@ == old(self).funds@
                &&& final(self).receivables@ == old(self).receivables@
                &&& final(self).receivable_count == old(self).receivable_count
                &&& final(self).total_paid == old(self).total_paid
            },
    {
        if self.initialized {
            return Err(VaultError::AlreadyInitialized);
        }
        self.initialized = true;
        self.admin_id = admin;
        self.fund_token_address = fund_token_address;
        Ok(())
    }

    /// Registers `addr` as a consultant. Admin-only.
    pub fn consultant_add(&mut self, caller: u64, addr: u64) -> (r: Result<(), VaultError>)
        requires
            old(self).inv(),
            old(self).initialized,
        ensures
            final(self).inv(),
            final(self).initialized,
            r == (if caller != old(self).admin_id {
                Err::<(), VaultError>(VaultError::NotAdmin)
            } else {
                Ok::<(), VaultError>(())
            }),
            r is Err ==> *final(self) == *old(self),
            r is Ok ==> {
                &&& forall|y: u64|
                    final(self).consultants@.contains(y) <==> (old(self).consultants@.contains(y)
                        || y == addr)
                &&& final(self).cedentes@ == old(self).cedentes@
                &&& final(self).sacados@ == old(self).sacados@
                &&& final(self).funds@ == old(self).funds@
                &&& final(self).receivables@ == old(self).receivables@
                &&& final(self).receivable_count == old(self).receivable_count
                &&& final(self).total_paid == old(self).total_paid
                &&& final(self).same_config(*old(self))
            },
    {
        if caller != self.admin_id {
            return Err(VaultError::NotAdmin);
        }
        idset_add(&mut self.consultants, addr);
        Ok(())
    }

    /// Expels `addr` from the consultants. Admin-only; removing an
    /// identity already absent succeeds and changes nothing.
    pub fn consultant_remove(&mut self, caller: u64, addr: u64) -> (r: Result<(), VaultError>)
        requires
            old(self).inv(),
            old(self).initialized,
        ensures
            final(self).inv(),
            final(self).initialized,
            r == (if caller != old(self).admin_id {
                Err::<(), VaultError>(VaultError::NotAdmin)
            } else {
                Ok::<(), VaultError>(())
            }),
            r is Err ==> *final(self) == *old(self),
            r is Ok ==> {
                &&& forall|y: u64|
                    final(self).consultants@.contains(y) <==> (old(self).consultants@.contains(y)
                        && y != addr)
                &&& final(self).cedentes@ == old(self).cedentes@
                &&& final(self).sacados@ == old(self).sacados@
                &&& final(self).funds@ == old(self).funds@
                &&& final(self).receivables@ == old(self).receivables@
                &&& final(self).receivable_count == old(self).receivable_count
                &&& final(self).total_paid == old(self).total_paid
                &&& final(self).same_config(*old(self))
            },
            caller == old(self).admin_id && !old(self).consultants@.contains(addr) ==> r is Ok
                && *final(self) == *old(self),
    {
        if caller != self.admin_id {
            return Err(VaultError::NotAdmin);
        }
        idset_remove(&mut self.consultants, addr);
        Ok(())
    }

    /// Whether `addr` may submit onboarding records.
    pub fn is_consultant(&self, addr: u64) -> (r: bool)
        ensures
            r == self.consultants@.contains(addr),
    {
        idset_contains(&self.consultants, addr)
    }

    /// Proposes an originator record. Consultant-only; the identifier
    /// and name must be non-empty, and the identifier must be fresh in
    /// its namespace. The record starts Pending.
    pub fn submit_cedente(&mut self, caller: u64, id: Vec<u8>, name: Vec<u8>) -> (r: Result<
        (),
        VaultError,
    >)
        requires
            old(self).inv(),
            old(self).initialized,
        ensures
            final(self).inv(),
            final(self).initialized,
            r == (if !old(self).consultants@.contains(caller) {
                Err::<(), VaultError>(VaultError::NotConsultant)
            } else if id@.len() == 0 || name@.len() == 0 {
                Err::<(), VaultError>(VaultError::Invalid)
            } else if ent_lookup(old(self).cedentes@, id@) is Some {
                Err::<(), VaultError>(VaultError::DuplicateId)
            } else {
                Ok::<(), VaultError>(())
            }),
            r is Err ==> *final(self) == *old(self),
            r is Ok ==> {
                &&& (ent_lookup(final(self).cedentes@, id@) matches Some(e) && e.id@ == id@
                    && e.name@ == name@ && e.created_by == caller && e.status == Status::Pending)
                &&& forall|id2: Seq<u8>|
                    id2 != id@ ==> ent_lookup(final(self).cedentes@, id2) == ent_lookup(
                        old(self).cedentes@,
                        id2,
                    )
                &&& final(self).sacados@ == old(self).sacados@
                &&& final(self).funds@ == old(self).funds@
                &&& final(self).receivables@ == old(self).receivables@
                &&& final(self).consultants@ == old(self).consultants@
                &&& final(self).receivable_count == old(self).receivable_count
                &&& final(self).total_paid == old(self).total_paid
                &&& final(self).same_config(*old(self))
            },
    {
        if !self.is_consultant(caller) {
            return Err(VaultError::NotConsultant);
        }
        if id.len() == 0 || name.len() == 0 {
            return Err(VaultError::Invalid);
        }
        match ent_find(&self.cedentes, &id) {
            Some(_) => Err(VaultError::DuplicateId),
            None => {
                let rec = EntityRecord { id, name, created_by: caller, status: Status::Pending };
                proof {
                    assert forall|id2: Seq<u8>| id2 != rec.id@ implies ent_lookup(
                        self.cedentes@.push(rec),
                        id2,
                    ) == ent_lookup(self.cedentes@, id2) by {
                        lemma_ent_push(self.cedentes@, rec, id2);
                    }
                    lemma_ent_push(self.cedentes@, rec, rec.id@);
                }
                self.cedentes.push(rec);
                Ok(())
            },
        }
    }

    /// Proposes a debtor record. Consultant-only, with the same checks
    /// as an originator submission.
    pub fn submit_sacado(&mut self, caller: u64, id: Vec<u8>, name: Vec<u8>) -> (r: Result<
        (),
        VaultError,
    >)
        requires
            old(self).inv(),
            old(self).initialized,
        ensures
            final(self).inv(),
            final(self).initialized,
            r == (if !old(self).consultants@.contains(caller) {
                Err::<(), VaultError>(VaultError::NotConsultant)
            } else if id@.len() == 0 || name@.len() == 0 {
                Err::<(), VaultError>(VaultError::Invalid)
            } else if ent_lookup(old(self).sacados@, id@) is Some {
                Err::<(), VaultError>(VaultError::DuplicateId)
            } else {
                Ok::<(), VaultError>(())
            }),
            r is Err ==> *final(self) == *old(self),
            r is Ok ==> {
                &&& (ent_lookup(final(self).sacados@, id@) matches Some(e) && e.id@ == id@
                    && e.name@ == name@ && e.created_by == caller && e.status == Status::Pending)
                &&& forall|id2: Seq<u8>|
                    id2 != id@ ==> ent_lookup(final(self).sacados@, id2) == ent_lookup(
                        old(self).sacados@,
                        id2,
                    )
                &&& final(self).cedentes@ == old(self).cedentes@
                &&& final(self).funds@ == old(self).funds@
                &&& final(self).receivables@ == old(self).receivables@
                &&& final(self).consultants@ == old(self).consultants@
                &&& final(self).receivable_count == old(self).receivable_count
                &&& final(self).total_paid == old(self).total_paid
                &&& final(self).same_config(*old(self))
            },
    {
        if !self.is_consultant(caller) {
            return Err(VaultError::NotConsultant);
        }
        if id.len() == 0 || name.len() == 0 {
            return Err(VaultError::Invalid);
        }
        match ent_find(&self.sacados, &id) {
            Some(_) => Err(VaultError::DuplicateId),
            None => {
                let rec = EntityRecord { id, name, created_by: caller, status: Status::Pending };
                proof {
                    assert forall|id2: Seq<u8>| id2 != rec.id@ implies ent_lookup(
                        self.sacados@.push(rec),
                        id2,
                    ) == ent_lookup(self.sacados@, id2) by {
                        lemma_ent_push(self.sacados@, rec, id2);
                    }
                    lemma_ent_push(self.sacados@, rec, rec.id@);
                }
                self.sacados.push(rec);
                Ok(())
            },
        }
    }

    /// Proposes a fund record carrying its share-ledger reference.
    /// Consultant-only, with the same checks as the other submissions.
    pub fn submit_fund(&mut self, caller: u64, id: Vec<u8>, name: Vec<u8>, token_addr: u64) -> (r:
        Result<(), VaultError>)
        requires
            old(self).inv(),
            old(self).initialized,
        ensures
            final(self).inv(),
            final(self).initialized,
            r == (if !old(self).consultants@.contains(caller) {
                Err::<(), VaultError>(VaultError::NotConsultant)
            } else if id@.len() == 0 || name@.len() == 0 {
                Err::<(), VaultError>(VaultError::Invalid)
            } else if fund_lookup(old(self).funds@, id@) is Some {
                Err::<(), VaultError>(VaultError::DuplicateId)
            } else {
                Ok::<(), VaultError>(())
            }),
            r is Err ==> *final(self) == *old(self),
            r is Ok ==> {
                &&& (fund_lookup(final(self).funds@, id@) matches Some(f) && f.id@ == id@
                    && f.name@ == name@ && f.created_by == caller && f.status == Status::Pending
                    && f.token == token_addr)
                &&& forall|id2: Seq<u8>|
                    id2 != id@ ==> fund_lookup(final(self).funds@, id2) == fund_lookup(
                        old(self).funds@,
                        id2,
                    )
                &&& final(self).cedentes@ == old(self).cedentes@
                &&& final(self).sacados@ == old(self).sacados@
                &&& final(self).receivables@ == old(self).receivables@
                &&& final(self).consultants@ == old(self).consultants@
                &&& final(self).receivable_count == old(self).receivable_count
                &&& final(self).total_paid == old(self).total_paid
                &&& final(self).same_config(*old(self))
            },
    {
        if !self.is_consultant(caller) {
            return Err(VaultError::NotConsultant);
        }
        if id.len() == 0 || name.len() == 0 {
            return Err(VaultError::Invalid);
        }
        match fund_find(&self.funds, &id) {
            Some(_) => Err(VaultError::DuplicateId),
            None => {
                let rec = FundRecord {
                    id,
                    name,
                    created_by: caller,
                    status: Status::Pending,
                    token: token_addr,
                };
                proof {
                    assert forall|id2: Seq<u8>| id2 != rec.id@ implies fund_lookup(
                        self.funds@.push(rec),
                        id2,
                    ) == fund_lookup(self.funds@, id2) by {
                        lemma_fund_push(self.funds@, rec, id2);
                    }
                    lemma_fund_push(self.funds@, rec, rec.id@);
                }
                self.funds.push(rec);
                Ok(())
            },
        }
    }

    /// Decides an onboarding record: Approved when `approve` is set,
    /// Rejected otherwise. Admin-only. Re-deciding an already-decided
    /// record is allowed and overwrites the earlier decision.
    pub fn approve_entity(&mut self, caller: u64, kind: EntityKind, id: &Vec<u8>, approve: bool)
        -> (r: Result<(), VaultError>)
        requires
            old(self).inv(),
            old(self).initialized,
        ensures
            final(self).inv(),
            final(self).initialized,
            r == (if caller != old(self).admin_id {
                Err::<(), VaultError>(VaultError::NotAdmin)
            } else {
                match kind {
                    EntityKind::Cedente => if ent_lookup(old(self).cedentes@, id@) is Some {
                        Ok::<(), VaultError>(())
                    } else {
                        Err::<(), VaultError>(VaultError::NotFound)
                    },
                    EntityKind::Sacado => if ent_lookup(old(self).sacados@, id@) is Some {
                        Ok::<(), VaultError>(())
                    } else {
                        Err::<(), VaultError>(VaultError::NotFound)
                    },
                    EntityKind::Fund => if fund_lookup(old(self).funds@, id@) is Some {
                        Ok::<(), VaultError>(())
                    } else {
                        Err::<(), VaultError>(VaultError::NotFound)
                    },
                }
            }),
            r is Err ==> *final(self) == *old(self),
            r is Ok && kind == EntityKind::Cedente ==> {
                &&& (ent_lookup(final(self).cedentes@, id@) matches Some(e)
                    && ent_lookup(old(self).cedentes@, id@) matches Some(e0) && e.id@ == e0.id@
                    && e.name@ == e0.name@ && e.created_by == e0.created_by && e.status == (
                    if approve {
                        Status::Approved
                    } else {
                        Status::Rejected
                    }))
                &&& forall|id2: Seq<u8>|
                    id2 != id@ ==> ent_lookup(final(self).cedentes@, id2) == ent_lookup(
                        old(self).cedentes@,
                        id2,
                    )
                &&& final(self).sacados@ == old(self).sacados@
                &&& final(self).funds@ == old(self).funds@
            },
            r is Ok && kind == EntityKind::Sacado ==> {
                &&& (ent_lookup(final(self).sacados@, id@) matches Some(e)
                    && ent_lookup(old(self).sacados@, id@) matches Some(e0) && e.id@ == e0.id@
                    && e.name@ == e0.name@ && e.created_by == e0.created_by && e.status == (
                    if approve {
                        Status::Approved
                    } else {
                        Status::Rejected
                    }))
                &&& forall|id2: Seq<u8>|
                    id2 != id@ ==> ent_lookup(final(self).sacados@, id2) == ent_lookup(
                        old(self).sacados@,
                        id2,
                    )
                &&& final(self).cedentes@ == old(self).cedentes@
                &&& final(self).funds@ == old(self).funds@
            },
            r is Ok && kind == EntityKind::Fund ==> {
                &&& (fund_lookup(final(self).funds@, id@) matches Some(f)
                    && fund_lookup(old(self).funds@, id@) matches Some(f0) && f.id@ == f0.id@
                    && f.name@ == f0.name@ && f.created_by == f0.created_by && f.token == f0.token
                    && f.status == (if approve {
                        Status::Approved
                    } else {
                        Status::Rejected
                    }))
                &&& forall|id2: Seq<u8>|
                    id2 != id@ ==> fund_lookup(final(self).funds@, id2) == fund_lookup(
                        old(self).funds@,
                        id2,
                    )
                &&& final(self).cedentes@ == old(self).cedentes@
                &&& final(self).sacados@ == old(self).sacados@
            },
            r is Ok ==> {
                &&& final(self).receivables@ == old(self).receivables@
                &&& final(self).consultants@ == old(self).consultants@
                &&& final(self).receivable_count == old(self).receivable_count
                &&& final(self).total_paid == old(self).total_paid
                &&& final(self).same_config(*old(self))
            },
    {
        if caller != self.admin_id {
            return Err(VaultError::NotAdmin);
        }
        let st = if approve {
            Status::Approved
        } else {
            Status::Rejected
        };
        match kind {
            EntityKind::Cedente => {
                match ent_find(&self.cedentes, id) {
                    None => Err(VaultError::NotFound),
                    Some(i) => {
                        let rec = EntityRecord {
                            id: clone_bytes(&self.cedentes[i].id),
                            name: clone_bytes(&self.cedentes[i].name),
                            created_by: self.cedentes[i].created_by,
                            status: st,
                        };
                        proof {
                            assert forall|id2: Seq<u8>| id2 != id@ implies ent_lookup(
                                self.cedentes@.update(i as int, rec),
                                id2,
                            ) == ent_lookup(self.cedentes@, id2) by {
                                lemma_ent_update(self.cedentes@, i as int, rec, id2);
                            }
                            lemma_ent_update(self.cedentes@, i as int, rec, id@);
                        }
                        self.cedentes.set(i, rec);
                        Ok(())
                    },
                }
            },
            EntityKind::Sacado => {
                match ent_find(&self.sacados, id) {
                    None => Err(VaultError::NotFound),
                    Some(i) => {
                        let rec = EntityRecord {
                            id: clone_bytes(&self.sacados[i].id),
                            name: clone_bytes(&self.sacados[i].name),
                            created_by: self.sacados[i].created_by,
                            status: st,
                        };
                        proof {
                            assert forall|id2: Seq<u8>| id2 != id@ implies ent_lookup(
                                self.sacados@.update(i as int, rec),
                                id2,
                            ) == ent_lookup(self.sacados@, id2) by {
                                lemma_ent_update(self.sacados@, i as int, rec, id2);
                            }
                            lemma_ent_update(self.sacados@, i as int, rec, id@);
                        }
                        self.sacados.set(i, rec);
                        Ok(())
                    },
                }
            },
            EntityKind::Fund => {
                match fund_find(&self.funds, id) {
                    None => Err(VaultError::NotFound),
                    Some(i) => {
                        let rec = FundRecord {
                            id: clone_bytes(&self.funds[i].id),
                            name: clone_bytes(&self.funds[i].name),
                            created_by: self.funds[i].created_by,
                            status: st,
                            token: self.funds[i].token,
                        };
                        proof {
                            assert forall|id2: Seq<u8>| id2 != id@ implies fund_lookup(
                                self.funds@.update(i as int, rec),
                                id2,
                            ) == fund_lookup(self.funds@, id2) by {
                                lemma_fund_update(self.funds@, i as int, rec, id2);
                            }
                            lemma_fund_update(self.funds@, i as int, rec, id@);
                        }
                        self.funds.set(i, rec);
                        Ok(())
                    },
                }
            },
        }
    }

    /// Registers a receivable against an approved fund and an approved
    /// debtor. Admin-only. The originator must exist, but its approval
    /// status is deliberately not enforced. The record starts Pending.
    pub fn register_receivable(
        &mut self,
        caller: u64,
        id: Vec<u8>,
        fund_id: Vec<u8>,
        cedente_id: Vec<u8>,
        sacado_id: Vec<u8>,
        face_value: i64,
        due_date: u64,
        debtor_address: u64,
    ) -> (r: Result<(), VaultError>)
        requires
            old(self).inv(),
            old(self).initialized,
            old(self).receivables@.len() < u32::MAX,
        ensures
            final(self).inv(),
            final(self).initialized,
            r == (if caller != old(self).admin_id {
                Err::<(), VaultError>(VaultError::NotAdmin)
            } else if face_value <= 0 {
                Err::<(), VaultError>(VaultError::Invalid)
            } else if rcv_lookup(old(self).receivables@, id@) is Some {
                Err::<(), VaultError>(VaultError::DuplicateId)
            } else if fund_lookup(old(self).funds@, fund_id@) is None {
                Err::<(), VaultError>(VaultError::NotFound)
            } else if fund_lookup(old(self).funds@, fund_id@).unwrap().status != Status::Approved {
                Err::<(), VaultError>(VaultError::BadStatus)
            } else if ent_lookup(old(self).sacados@, sacado_id@) is None {
                Err::<(), VaultError>(VaultError::NotFound)
            } else if ent_lookup(old(self).sacados@, sacado_id@).unwrap().status
                != Status::Approved {
                Err::<(), VaultError>(VaultError::BadStatus)
            } else if ent_lookup(old(self).cedentes@, cedente_id@) is None {
                Err::<(), VaultError>(VaultError::NotFound)
            } else {
                Ok::<(), VaultError>(())
            }),
            r is Err ==> *final(self) == *old(self),
            r is Ok ==> {
                &&& (rcv_lookup(final(self).receivables@, id@) matches Some(rec) && rec.id@ == id@
                    && rec.fund_id@ == fund_id@ && rec.cedente_id@ == cedente_id@
                    && rec.sacado_id@ == sacado_id@ && rec.face_value == face_value
                    && rec.due_date == due_date && rec.debtor_address == debtor_address
                    && rec.status == ReceivableStatus::Pending && rec.paid_amount == 0
                    && rec.paid_date == 0)
                &&& forall|id2: Seq<u8>|
                    id2 != id@ ==> rcv_lookup(final(self).receivables@, id2) == rcv_lookup(
                        old(self).receivables@,
                        id2,
                    )
                &&& final(self).receivable_count == old(self).receivable_count + 1
                &&& final(self).cedentes@ == old(self).cedentes@
                &&& final(self).sacados@ == old(self).sacados@
                &&& final(self).funds@ == old(self).funds@
                &&& final(self).consultants@ == old(self).consultants@
                &&& final(self).total_paid == old(self).total_paid
                &&& final(self).same_config(*old(self))
            },
    {
        if caller != self.admin_id {
            return Err(VaultError::NotAdmin);
        }
        if face_value <= 0 {
            return Err(VaultError::Invalid);
        }
        if rcv_find(&self.receivables, &id).is_some() {
            return Err(VaultError::DuplicateId);
        }
        let fund_ok = match fund_find(&self.funds, &fund_id) {
            None => {
                return Err(VaultError::NotFound);
            },
            Some(fi) => match self.funds[fi].status {
                Status::Approved => true,
                _ => false,
            },
        };
        if !fund_ok {
            return Err(VaultError::BadStatus);
        }
        let sacado_ok = match ent_find(&self.sacados, &sacado_id) {
            None => {
                return Err(VaultError::NotFound);
            },
            Some(si) => match self.sacados[si].status {
                Status::Approved => true,
                _ => false,
            },
        };
        if !sacado_ok {
            return Err(VaultError::BadStatus);
        }
        if ent_find(&self.cedentes, &cedente_id).is_none() {
            return Err(VaultError::NotFound);
        }
        let rec = Receivable {
            id,
            fund_id,
            cedente_id,
            sacado_id,
            face_value,
            due_date,
            debtor_address,
            status: ReceivableStatus::Pending,
            paid_amount: 0,
            paid_date: 0,
        };
        proof {
            assert forall|id2: Seq<u8>| id2 != rec.id@ implies rcv_lookup(
                self.receivables@.push(rec),
                id2,
            ) == rcv_lookup(self.receivables@, id2) by {
                lemma_rcv_push(self.receivables@, rec, id2);
            }
            lemma_rcv_push(self.receivables@, rec, rec.id@);
        }
        self.receivables.push(rec);
        self.receivable_count = self.receivable_count + 1;
        Ok(())
    }

    /// Records that the receivable's cash was collected: Pending goes
    /// to Paid with the given amount and the host-supplied time `now`,
    /// and the amount accrues to the running total. Admin-only.
    pub fn mark_paid(&mut self, caller: u64, id: &Vec<u8>, amount: i64, now: u64) -> (r: Result<
        (),
        VaultError,
    >)
        requires
            old(self).inv(),
            old(self).initialized,
        ensures
            final(self).inv(),
            final(self).initialized,
            r == (if caller != old(self).admin_id {
                Err::<(), VaultError>(VaultError::NotAdmin)
            } else if amount <= 0 {
                Err::<(), VaultError>(VaultError::Invalid)
            } else if rcv_lookup(old(self).receivables@, id@) is None {
                Err::<(), VaultError>(VaultError::NotFound)
            } else if rcv_lookup(old(self).receivables@, id@).unwrap().status
                != ReceivableStatus::Pending {
                Err::<(), VaultError>(VaultError::BadStatus)
            } else if old(self).total_paid + amount > i64::MAX {
                Err::<(), VaultError>(VaultError::Math)
            } else {
                Ok::<(), VaultError>(())
            }),
            r is Err ==> *final(self) == *old(self),
            r is Ok ==> {
                &&& (rcv_lookup(final(self).receivables@, id@) matches Some(rec) && rcv_lookup(
                    old(self).receivables@,
                    id@,
                ) matches Some(rec0) && same_core(rec, rec0) && rec.status
                    == ReceivableStatus::Paid && rec.paid_amount == amount && rec.paid_date == now)
                &&& forall|id2: Seq<u8>|
                    id2 != id@ ==> rcv_lookup(final(self).receivables@, id2) == rcv_lookup(
                        old(self).receivables@,
                        id2,
                    )
                &&& final(self).total_paid == old(self).total_paid + amount
                &&& final(self).receivable_count == old(self).receivable_count
                &&& final(self).cedentes@ == old(self).cedentes@
                &&& final(self).sacados@ == old(self).sacados@
                &&& final(self).funds@ == old(self).funds@
                &&& final(self).consultants@ == old(self).consultants@
                &&& final(self).same_config(*old(self))
            },
    {
        if caller != self.admin_id {
            return Err(VaultError::NotAdmin);
        }
        if amount <= 0 {
            return Err(VaultError::Invalid);
        }
        match rcv_find(&self.receivables, id) {
            None => Err(VaultError::NotFound),
            Some(i) => {
                let is_pending = match self.receivables[i].status {
                    ReceivableStatus::Pending => true,
                    _ => false,
                };
                if !is_pending {
                    return Err(VaultError::BadStatus);
                }
                let new_total = match crate::vault::add(self.total_paid, amount) {
                    Ok(v) => v,
                    Err(e) => {
                        return Err(e);
                    },
                };
                let rec = Receivable {
                    id: clone_bytes(&self.receivables[i].id),
                    fund_id: clone_bytes(&self.receivables[i].fund_id),
                    cedente_id: clone_bytes(&self.receivables[i].cedente_id),
                    sacado_id: clone_bytes(&self.receivables[i].sacado_id),
                    face_value: self.receivables[i].face_value,
                    due_date: self.receivables[i].due_date,
                    debtor_address: self.receivables[i].debtor_address,
                    status: ReceivableStatus::Paid,
                    paid_amount: amount,
                    paid_date: now,
                };
                proof {
                    assert forall|id2: Seq<u8>| id2 != id@ implies rcv_lookup(
                        self.receivables@.update(i as int, rec),
                        id2,
                    ) == rcv_lookup(self.receivables@, id2) by {
                        lemma_rcv_update(self.receivables@, i as int, rec, id2);
                    }
                    lemma_rcv_update(self.receivables@, i as int, rec, id@);
                }
                self.receivables.set(i, rec);
                self.total_paid = new_total;
                Ok(())
            },
        }
    }

    /// Distributes a paid receivable's amount pro-rata over the listed
    /// holders, reading each holder's balance from `ledger` (the share
    /// ledger of the receivable's fund, which the host resolves from
    /// the fund record's reference). Admin-only; the receivable must be
    /// exactly Paid and moves to Distributed. The holder list is
    /// caller-supplied: an incomplete list under-distributes silently,
    /// a documented limitation of this engine.
    pub fn distribute(
        &mut self,
        caller: u64,
        receivable_id: &Vec<u8>,
        holders: &Vec<u64>,
        ledger: &FundToken,
    ) -> (r: Result<DistributionReport, VaultError>)
        requires
            old(self).inv(),
            old(self).initialized,
            ledger.inv(),
        ensures
            final(self).inv(),
            final(self).initialized,
            r is Err ==> *final(self) == *old(self),
            caller != old(self).admin_id ==> r == Err::<DistributionReport, VaultError>(
                VaultError::NotAdmin,
            ),
            caller == old(self).admin_id ==> match rcv_lookup(
                old(self).receivables@,
                receivable_id@,
            ) {
                None => r == Err::<DistributionReport, VaultError>(VaultError::NotFound),
                Some(rec0) => {
                    if rec0.status != ReceivableStatus::Paid {
                        r == Err::<DistributionReport, VaultError>(VaultError::BadStatus)
                    } else if fund_lookup(old(self).funds@, rec0.fund_id@) is None {
                        r == Err::<DistributionReport, VaultError>(VaultError::NotFound)
                    } else {
                        let snap = snapshot(holders@, *ledger);
                        let n = holders@.len() as int;
                        let total = sum_prefix(snap, n);
                        let paid = rec0.paid_amount as int;
                        &&& total > i64::MAX ==> r == Err::<DistributionReport, VaultError>(
                            VaultError::Math,
                        )
                        &&& total == 0 ==> r == Err::<DistributionReport, VaultError>(
                            VaultError::Invalid,
                        )
                        &&& 0 < total <= i64::MAX ==> (r matches Ok(rep) && {
                            &&& rep.paid == rec0.paid_amount
                            &&& payouts_match(
                                rep.payouts@,
                                payouts_prefix(holders@, snap, paid, total, n),
                            )
                            &&& rep.residue as int == paid - shares_prefix(snap, paid, total, n)
                            &&& 0 <= rep.residue <= rec0.paid_amount
                            &&& rep.residue > 0 ==> {
                                let m = max_idx_prefix(snap, n);
                                &&& 0 <= m < n
                                &&& rep.residue_holder == Some(holders@[m])
                                &&& snap[m] > 0
                                &&& forall|i: int| 0 <= i < n ==> snap[i] <= snap[m]
                                &&& forall|i: int| 0 <= i < m ==> snap[i] < snap[m]
                            }
                            &&& rep.residue == 0 ==> rep.residue_holder is None
                            &&& (rcv_lookup(final(self).receivables@, receivable_id@)
                                matches Some(rec) && same_core(rec, rec0) && rec.status
                                == ReceivableStatus::Distributed && rec.paid_amount
                                == rec0.paid_amount && rec.paid_date == rec0.paid_date)
                            &&& forall|id2: Seq<u8>|
                                id2 != receivable_id@ ==> rcv_lookup(
                                    final(self).receivables@,
                                    id2,
                                ) == rcv_lookup(old(self).receivables@, id2)
                            &&& final(self).receivable_count == old(self).receivable_count
                            &&& final(self).total_paid == old(self).total_paid
                            &&& final(self).cedentes@ == old(self).cedentes@
                            &&& final(self).sacados@ == old(self).sacados@
                            &&& final(self).funds@ == old(self).funds@
                            &&& final(self).consultants@ == old(self).consultants@
                            &&& final(self).same_config(*old(self))
                        })
                    }
                },
            },
    {
        if caller != self.admin_id {
            return Err(VaultError::NotAdmin);
        }
        match rcv_find(&self.receivables, receivable_id) {
            None => Err(VaultError::NotFound),
            Some(i) => {
                let is_paid = match self.receivables[i].status {
                    ReceivableStatus::Paid => true,
                    _ => false,
                };
                if !is_paid {
                    return Err(VaultError::BadStatus);
                }
                if fund_find(&self.funds, &self.receivables[i].fund_id).is_none() {
                    return Err(VaultError::NotFound);
                }
                let paid = self.receivables[i].paid_amount;
                let rep = match compute_distribution(holders, ledger, paid) {
                    Ok(rep) => rep,
                    Err(e) => {
                        return Err(e);
                    },
                };
                let rec = Receivable {
                    id: clone_bytes(&self.receivables[i].id),
                    fund_id: clone_bytes(&self.receivables[i].fund_id),
                    cedente_id: clone_bytes(&self.receivables[i].cedente_id),
                    sacado_id: clone_bytes(&self.receivables[i].sacado_id),
                    face_value: self.receivables[i].face_value,
                    due_date: self.receivables[i].due_date,
                    debtor_address: self.receivables[i].debtor_address,
                    status: ReceivableStatus::Distributed,
                    paid_amount: paid,
                    paid_date: self.receivables[i].paid_date,
                };
                proof {
                    assert forall|id2: Seq<u8>| id2 != receivable_id@ implies rcv_lookup(
                        self.receivables@.update(i as int, rec),
                        id2,
                    ) == rcv_lookup(self.receivables@, id2) by {
                        lemma_rcv_update(self.receivables@, i as int, rec, id2);
                    }
                    lemma_rcv_update(self.receivables@, i as int, rec, receivable_id@);
                }
                self.receivables.set(i, rec);
                Ok(rep)
            },
        }
    }

    /// The receivable named `id`, copied out, or `NotFound`.
    pub fn get_receivable(&self, id: &Vec<u8>) -> (r: Result<Receivable, VaultError>)
        ensures
            rcv_lookup(self.receivables@, id@) is None ==> r == Err::<Receivable, VaultError>(
                VaultError::NotFound,
            ),
            rcv_lookup(self.receivables@, id@) matches Some(rec0) ==> (r matches Ok(rec)
                && same_receivable(rec, rec0)),
    {
        match rcv_find(&self.receivables, id) {
            None => Err(VaultError::NotFound),
            Some(i) => Ok(
                Receivable {
                    id: clone_bytes(&self.receivables[i].id),
                    fund_id: clone_bytes(&self.receivables[i].fund_id),
                    cedente_id: clone_bytes(&self.receivables[i].cedente_id),
                    sacado_id: clone_bytes(&self.receivables[i].sacado_id),
                    face_value: self.receivables[i].face_value,
                    due_date: self.receivables[i].due_date,
                    debtor_address: self.receivables[i].debtor_address,
                    status: self.receivables[i].status,
                    paid_amount: self.receivables[i].paid_amount,
                    paid_date: self.receivables[i].paid_date,
                },
            ),
        }
    }

    /// How many receivables were ever registered.
    pub fn get_receivables_count(&self) -> (r: u32)
        ensures
            r == self.receivable_count,
    {
        self.receivable_count
    }

    /// The sum of every paid amount ever recorded.
    pub fn get_total_paid(&self) -> (r: i64)
        ensures
            r == self.total_paid,
    {
        self.total_paid
    }

    /// The deployment's default share-ledger reference.
    pub fn get_fund_token_address(&self) -> (r: u64)
        requires
            self.initialized,
        ensures
            r == self.fund_token_address,
    {
        self.fund_token_address
    }

    /// The administrator's identity.
    pub fn get_admin(&self) -> (r: u64)
        requires
            self.initialized,
        ensures
            r == self.admin_id,
    {
        self.admin_id
    }
}

} // verus!
