//! The registry's record types and their identifier-keyed stores.
//!
//! Each store is a vector of records with pairwise-distinct identifiers;
//! `*_lookup` is the store's meaning: the first record carrying the
//! identifier, or `None`. Onboarding records (originators, debtors,
//! funds) move through Pending / Approved / Rejected; receivables move
//! through Pending / Paid / Distributed.

use vstd::prelude::*;

verus! {

/// Approval state of an onboarding record.
#[derive(Clone, Copy, Debug, PartialEq, Eq, Structural)]
pub enum Status {
    Pending,
    Approved,
    Rejected,
}

/// Lifecycle state of a receivable.
#[derive(Clone, Copy, Debug, PartialEq, Eq, Structural)]
pub enum ReceivableStatus {
    Pending,
    Paid,
    Distributed,
}

/// Which onboarding namespace an approval addresses.
#[derive(Clone, Copy, Debug, PartialEq, Eq, Structural)]
pub enum EntityKind {
    /// An originator (the party that sold the receivable).
    Cedente,
    /// A debtor (the party that owes the cash).
    Sacado,
    /// A fund.
    Fund,
}

/// An originator or debtor proposed by a consultant.
#[derive(Debug, PartialEq, Eq)]
pub struct EntityRecord {
    /// Unique identifier within its namespace; non-empty at submission.
    pub id: Vec<u8>,
    /// Display name; non-empty at submission.
    pub name: Vec<u8>,
    /// The consultant that proposed the record.
    pub created_by: u64,
    pub status: Status,
}

/// A fund proposed by a consultant.
#[derive(Debug, PartialEq, Eq)]
pub struct FundRecord {
    /// Unique identifier within its namespace; non-empty at submission.
    pub id: Vec<u8>,
    /// Display name; non-empty at submission.
    pub name: Vec<u8>,
    /// The consultant that proposed the record.
    pub created_by: u64,
    pub status: Status,
    /// Reference to the fund's share ledger.
    pub token: u64,
}

/// A registered receivable.
#[derive(Debug, PartialEq, Eq)]
pub struct Receivable {
    /// Unique identifier within the registry.
    pub id: Vec<u8>,
    /// The fund the receivable is registered against.
    pub fund_id: Vec<u8>,
    /// The originator.
    pub cedente_id: Vec<u8>,
    /// The debtor.
    pub sacado_id: Vec<u8>,
    /// Positive face value.
    pub face_value: i64,
    /// Due timestamp.
    pub due_date: u64,
    /// On-chain reference to the debtor.
    pub debtor_address: u64,
    pub status: ReceivableStatus,
    /// 0 until the receivable is marked paid, positive afterwards.
    pub paid_amount: i64,
    /// 0 until the receivable is marked paid.
    pub paid_date: u64,
}

// ------------------------------------------------------------------
// Entity store
// ------------------------------------------------------------------

/// No identifier names two records.
pub open spec fn ent_ids_unique(s: Seq<EntityRecord>) -> bool {
    forall|i: int, j: int| 0 <= i < j < s.len() ==> s[i].id@ != s[j].id@
}

/// The record named `id`, or `None`.
pub open spec fn ent_lookup(s: Seq<EntityRecord>, id: Seq<u8>) -> Option<EntityRecord>
    decreases s.len(),
{
    if s.len() == 0 {
        None
    } else if s[0].id@ == id {
        Some(s[0])
    } else {
        ent_lookup(s.drop_first(), id)
    }
}

pub proof fn lemma_ent_lookup_found(s: Seq<EntityRecord>, i: int)
    requires
        0 <= i < s.len(),
        forall|j: int| 0 <= j < i ==> s[j].id@ != s[i].id@,
    ensures
        ent_lookup(s, s[i].id@) == Some(s[i]),
    decreases i,
{
    if i > 0 {
        lemma_ent_lookup_found(s.drop_first(), i - 1);
    }
}

pub proof fn lemma_ent_lookup_absent(s: Seq<EntityRecord>, id: Seq<u8>)
    requires
        forall|j: int| 0 <= j < s.len() ==> s[j].id@ != id,
    ensures
        ent_lookup(s, id) is None,
    decreases s.len(),
{
    if s.len() > 0 {
        lemma_ent_lookup_absent(s.drop_first(), id);
    }
}

pub proof fn lemma_ent_update(s: Seq<EntityRecord>, i: int, r2: EntityRecord, id2: Seq<u8>)
    requires
        0 <= i < s.len(),
        forall|j: int| 0 <= j < i ==> s[j].id@ != s[i].id@,
        r2.id@ == s[i].id@,
    ensures
        ent_lookup(s.update(i, r2), id2) == if id2 == s[i].id@ {
            Some(r2)
        } else {
            ent_lookup(s, id2)
        },
        ent_ids_unique(s) ==> ent_ids_unique(s.update(i, r2)),
    decreases i,
{
    let t = s.update(i, r2);
    assert forall|a: int, b: int|
        ent_ids_unique(s) && 0 <= a < b < t.len() implies t[a].id@ != t[b].id@ by {
        assert(s[a].id@ != s[b].id@);
    }
    if i == 0 {
        assert(t[0] == r2);
        assert(t.drop_first() =~= s.drop_first());
    } else {
        assert(t[0] == s[0]);
        assert(s.drop_first()[i - 1] == s[i]);
        assert(t.drop_first() =~= s.drop_first().update(i - 1, r2));
        lemma_ent_update(s.drop_first(), i - 1, r2, id2);
    }
}

pub proof fn lemma_ent_push(s: Seq<EntityRecord>, r2: EntityRecord, id2: Seq<u8>)
    requires
        forall|j: int| 0 <= j < s.len() ==> s[j].id@ != r2.id@,
    ensures
        ent_lookup(s.push(r2), id2) == if id2 == r2.id@ {
            Some(r2)
        } else {
            ent_lookup(s, id2)
        },
        ent_ids_unique(s) ==> ent_ids_unique(s.push(r2)),
    decreases s.len(),
{
    let t = s.push(r2);
    assert(t[s.len() as int] == r2);
    assert forall|a: int, b: int|
        ent_ids_unique(s) && 0 <= a < b < t.len() implies t[a].id@ != t[b].id@ by {
        if b < s.len() {
            assert(s[a].id@ != s[b].id@);
        } else {
            assert(t[a] == s[a] && t[b] == r2);
        }
    }
    if s.len() == 0 {
        assert(t[0] == r2);
        assert(t.drop_first() =~= Seq::<EntityRecord>::empty());
        assert(ent_lookup(Seq::<EntityRecord>::empty(), id2) is None);
    } else {
        assert(t[0] == s[0]);
        assert(t.drop_first() =~= s.drop_first().push(r2));
        lemma_ent_push(s.drop_first(), r2, id2);
    }
}

/// The index of the record named `id`, or `None`.
pub fn ent_find(v: &Vec<EntityRecord>, id: &Vec<u8>) -> (r: Option<usize>)
    ensures
        match r {
            Some(i) => i < v.len() && v@[i as int].id@ == id@ && ent_lookup(v@, id@) == Some(
                v@[i as int],
            ) && forall|j: int| 0 <= j < i ==> v@[j].id@ != id@,
            None => ent_lookup(v@, id@) is None && forall|j: int| 0 <= j < v@.len() ==> v@[j].id@
                != id@,
        },
{
    let mut i: usize = 0;
    while i < v.len()
        invariant
            0 <= i <= v.len(),
            forall|j: int| 0 <= j < i ==> v@[j].id@ != id@,
        decreases v.len() - i,
    {
        if crate::bytes::bytes_eq(&v[i].id, id) {
            proof {
                lemma_ent_lookup_found(v@, i as int);
            }
            return Some(i);
        }
        i = i + 1;
    }
    proof {
        lemma_ent_lookup_absent(v@, id@);
    }
    None
}

// ------------------------------------------------------------------
// Fund store
// ------------------------------------------------------------------

/// No identifier names two records.
pub open spec fn fund_ids_unique(s: Seq<FundRecord>) -> bool {
    forall|i: int, j: int| 0 <= i < j < s.len() ==> s[i].id@ != s[j].id@
}

/// The record named `id`, or `None`.
pub open spec fn fund_lookup(s: Seq<FundRecord>, id: Seq<u8>) -> Option<FundRecord>
    decreases s.len(),
{
    if s.len() == 0 {
        None
    } else if s[0].id@ == id {
        Some(s[0])
    } else {
        fund_lookup(s.drop_first(), id)
    }
}

pub proof fn lemma_fund_lookup_found(s: Seq<FundRecord>, i: int)
    requires
        0 <= i < s.len(),
        forall|j: int| 0 <= j < i ==> s[j].id@ != s[i].id@,
    ensures
        fund_lookup(s, s[i].id@) == Some(s[i]),
    decreases i,
{
    if i > 0 {
        lemma_fund_lookup_found(s.drop_first(), i - 1);
    }
}

pub proof fn lemma_fund_lookup_absent(s: Seq<FundRecord>, id: Seq<u8>)
    requires
        forall|j: int| 0 <= j < s.len() ==> s[j].id@ != id,
    ensures
        fund_lookup(s, id) is None,
    decreases s.len(),
{
    if s.len() > 0 {
        lemma_fund_lookup_absent(s.drop_first(), id);
    }
}

pub proof fn lemma_fund_update(s: Seq<FundRecord>, i: int, r2: FundRecord, id2: Seq<u8>)
    requires
        0 <= i < s.len(),
        forall|j: int| 0 <= j < i ==> s[j].id@ != s[i].id@,
        r2.id@ == s[i].id@,
    ensures
        fund_lookup(s.update(i, r2), id2) == if id2 == s[i].id@ {
            Some(r2)
        } else {
            fund_lookup(s, id2)
        },
        fund_ids_unique(s) ==> fund_ids_unique(s.update(i, r2)),
    decreases i,
{
    let t = s.update(i, r2);
    assert forall|a: int, b: int|
        fund_ids_unique(s) && 0 <= a < b < t.len() implies t[a].id@ != t[b].id@ by {
        assert(s[a].id@ != s[b].id@);
    }
    if i == 0 {
        assert(t[0] == r2);
        assert(t.drop_first() =~= s.drop_first());
    } else {
        assert(t[0] == s[0]);
        assert(s.drop_first()[i - 1] == s[i]);
        assert(t.drop_first() =~= s.drop_first().update(i - 1, r2));
        lemma_fund_update(s.drop_first(), i - 1, r2, id2);
    }
}

pub proof fn lemma_fund_push(s: Seq<FundRecord>, r2: FundRecord, id2: Seq<u8>)
    requires
        forall|j: int| 0 <= j < s.len() ==> s[j].id@ != r2.id@,
    ensures
        fund_lookup(s.push(r2), id2) == if id2 == r2.id@ {
            Some(r2)
        } else {
            fund_lookup(s, id2)
        },
        fund_ids_unique(s) ==> fund_ids_unique(s.push(r2)),
    decreases s.len(),
{
    let t = s.push(r2);
    assert(t[s.len() as int] == r2);
    assert forall|a: int, b: int|
        fund_ids_unique(s) && 0 <= a < b < t.len() implies t[a].id@ != t[b].id@ by {
        if b < s.len() {
            assert(s[a].id@ != s[b].id@);
        } else {
            assert(t[a] == s[a] && t[b] == r2);
        }
    }
    if s.len() == 0 {
        assert(t[0] == r2);
        assert(t.drop_first() =~= Seq::<FundRecord>::empty());
        assert(fund_lookup(Seq::<FundRecord>::empty(), id2) is None);
    } else {
        assert(t[0] == s[0]);
        assert(t.drop_first() =~= s.drop_first().push(r2));
        lemma_fund_push(s.drop_first(), r2, id2);
    }
}

/// The index of the record named `id`, or `None`.
pub fn fund_find(v: &Vec<FundRecord>, id: &Vec<u8>) -> (r: Option<usize>)
    ensures
        match r {
            Some(i) => i < v.len() && v@[i as int].id@ == id@ && fund_lookup(v@, id@) == Some(
                v@[i as int],
            ) && forall|j: int| 0 <= j < i ==> v@[j].id@ != id@,
            None => fund_lookup(v@, id@) is None && forall|j: int| 0 <= j < v@.len() ==> v@[j].id@
                != id@,
        },
{
    let mut i: usize = 0;
    while i < v.len()
        invariant
            0 <= i <= v.len(),
            forall|j: int| 0 <= j < i ==> v@[j].id@ != id@,
        decreases v.len() - i,
    {
        if crate::bytes::bytes_eq(&v[i].id, id) {
            proof {
                lemma_fund_lookup_found(v@, i as int);
            }
            return Some(i);
        }
        i = i + 1;
    }
    proof {
        lemma_fund_lookup_absent(v@, id@);
    }
    None
}

// ------------------------------------------------------------------
// Receivable store
// ------------------------------------------------------------------

/// No identifier names two records.
pub open spec fn rcv_ids_unique(s: Seq<Receivable>) -> bool {
    forall|i: int, j: int| 0 <= i < j < s.len() ==> s[i].id@ != s[j].id@
}

/// The record named `id`, or `None`.
pub open spec fn rcv_lookup(s: Seq<Receivable>, id: Seq<u8>) -> Option<Receivable>
    decreases s.len(),
{
    if s.len() == 0 {
        None
    } else if s[0].id@ == id {
        Some(s[0])
    } else {
        rcv_lookup(s.drop_first(), id)
    }
}

pub proof fn lemma_rcv_lookup_found(s: Seq<Receivable>, i: int)
    requires
        0 <= i < s.len(),
        forall|j: int| 0 <= j < i ==> s[j].id@ != s[i].id@,
    ensures
        rcv_lookup(s, s[i].id@) == Some(s[i]),
    decreases i,
{
    if i > 0 {
        lemma_rcv_lookup_found(s.drop_first(), i - 1);
    }
}

pub proof fn lemma_rcv_lookup_absent(s: Seq<Receivable>, id: Seq<u8>)
    requires
        forall|j: int| 0 <= j < s.len() ==> s[j].id@ != id,
    ensures
        rcv_lookup(s, id) is None,
    decreases s.len(),
{
    if s.len() > 0 {
        lemma_rcv_lookup_absent(s.drop_first(), id);
    }
}

pub proof fn lemma_rcv_update(s: Seq<Receivable>, i: int, r2: Receivable, id2: Seq<u8>)
    requires
        0 <= i < s.len(),
        forall|j: int| 0 <= j < i ==> s[j].id@ != s[i].id@,
        r2.id@ == s[i].id@,
    ensures
        rcv_lookup(s.update(i, r2), id2) == if id2 == s[i].id@ {
            Some(r2)
        } else {
            rcv_lookup(s, id2)
        },
        rcv_ids_unique(s) ==> rcv_ids_unique(s.update(i, r2)),
    decreases i,
{
    let t = s.update(i, r2);
    assert forall|a: int, b: int|
        rcv_ids_unique(s) && 0 <= a < b < t.len() implies t[a].id@ != t[b].id@ by {
        assert(s[a].id@ != s[b].id@);
    }
    if i == 0 {
        assert(t[0] == r2);
        assert(t.drop_first() =~= s.drop_first());
    } else {
        assert(t[0] == s[0]);
        assert(s.drop_first()[i - 1] == s[i]);
        assert(t.drop_first() =~= s.drop_first().update(i - 1, r2));
        lemma_rcv_update(s.drop_first(), i - 1, r2, id2);
    }
}

pub proof fn lemma_rcv_push(s: Seq<Receivable>, r2: Receivable, id2: Seq<u8>)
    requires
        forall|j: int| 0 <= j < s.len() ==> s[j].id@ != r2.id@,
    ensures
        rcv_lookup(s.push(r2), id2) == if id2 == r2.id@ {
            Some(r2)
        } else {
            rcv_lookup(s, id2)
        },
        rcv_ids_unique(s) ==> rcv_ids_unique(s.push(r2)),
    decreases s.len(),
{
    let t = s.push(r2);
    assert(t[s.len() as int] == r2);
    assert forall|a: int, b: int|
        rcv_ids_unique(s) && 0 <= a < b < t.len() implies t[a].id@ != t[b].id@ by {
        if b < s.len() {
            assert(s[a].id@ != s[b].id@);
        } else {
            assert(t[a] == s[a] && t[b] == r2);
        }
    }
    if s.len() == 0 {
        assert(t[0] == r2);
        assert(t.drop_first() =~= Seq::<Receivable>::empty());
        assert(rcv_lookup(Seq::<Receivable>::empty(), id2) is None);
    } else {
        assert(t[0] == s[0]);
        assert(t.drop_first() =~= s.drop_first().push(r2));
        lemma_rcv_push(s.drop_first(), r2, id2);
    }
}

/// The index of the record named `id`, or `None`.
pub fn rcv_find(v: &Vec<Receivable>, id: &Vec<u8>) -> (r: Option<usize>)
    ensures
        match r {
            Some(i) => i < v.len() && v@[i as int].id@ == id@ && rcv_lookup(v@, id@) == Some(
                v@[i as int],
            ) && forall|j: int| 0 <= j < i ==> v@[j].id@ != id@,
            None => rcv_lookup(v@, id@) is None && forall|j: int| 0 <= j < v@.len() ==> v@[j].id@
                != id@,
        },
{
    let mut i: usize = 0;
    while i < v.len()
        invariant
            0 <= i <= v.len(),
            forall|j: int| 0 <= j < i ==> v@[j].id@ != id@,
        decreases v.len() - i,
    {
        if crate::bytes::bytes_eq(&v[i].id, id) {
            proof {
                lemma_rcv_lookup_found(v@, i as int);
            }
            return Some(i);
        }
        i = i + 1;
    }
    proof {
        lemma_rcv_lookup_absent(v@, id@);
    }
    None
}

} // verus!
