//! Storage of contract records, with the append-only indexes by party.
use vstd::prelude::*;

use crate::account::AccountId;
use crate::contract::{lookup, record_wf, records_wf, Contract, ContractStatus};
use crate::error::Error;

verus! {

/// One line of a party index: `party` takes part in contract `id`.
#[derive(Clone, Copy, Debug, PartialEq, Eq)]
pub struct IndexEntry {
    pub party: AccountId,
    pub id: u64,
}

/// The ids that `log` lists for `party`, in the order they were appended.
pub open spec fn ids_of(log: Seq<IndexEntry>, party: AccountId) -> Seq<u64>
    decreases log.len(),
{
    if log.len() == 0 {
        Seq::empty()
    } else {
        let rest = ids_of(log.drop_last(), party);
        if log.last().party == party {
            rest.push(log.last().id)
        } else {
            rest
        }
    }
}

/// The records of `records` whose status is `status`, in id order.
pub open spec fn with_status(records: Seq<Contract>, status: ContractStatus) -> Seq<Contract>
    decreases records.len(),
{
    if records.len() == 0 {
        Seq::empty()
    } else {
        let rest = with_status(records.drop_last(), status);
        if records.last().status == status {
            rest.push(records.last())
        } else {
            rest
        }
    }
}

/// The records whose ids lie in `start..end`.
pub open spec fn id_range(records: Seq<Contract>, start: u64, end: u64) -> Seq<Contract> {
    let lo = if start < records.len() { start as int } else { records.len() as int };
    let hi = if end < records.len() { end as int } else { records.len() as int };
    if lo < hi {
        records.subrange(lo, hi)
    } else {
        Seq::empty()
    }
}

/// The principal index implied by the records: one line per contract, in id order.
pub open spec fn principal_entries(records: Seq<Contract>) -> Seq<IndexEntry> {
    Seq::new(records.len(), |i: int| IndexEntry { party: records[i].principal_party, id: i as u64 })
}

/// Whether `log` lists exactly the matched contracts of `records`, each once,
/// under its counterparty.
pub open spec fn counterparty_log_wf(records: Seq<Contract>, log: Seq<IndexEntry>) -> bool {
    &&& forall|k: int|
        0 <= k < log.len() ==> (#[trigger] log[k]).id < records.len() && records[log[k].id as int].counterparty
            == Some(log[k].party)
    &&& forall|k1: int, k2: int|
        0 <= k1 < k2 < log.len() ==> (#[trigger] log[k1]).id != (#[trigger] log[k2]).id
    &&& forall|i: int|
        0 <= i < records.len() && (#[trigger] records[i]).counterparty.is_some() ==> exists|k: int|
            0 <= k < log.len() && (#[trigger] log[k]).id == i
}

/// An id is in `ids_of(log, party)` exactly when some line of `log` names both.
proof fn lemma_ids_of_membership(log: Seq<IndexEntry>, party: AccountId, id: u64)
    ensures
        ids_of(log, party).contains(id) <==> exists|k: int|
            0 <= k < log.len() && (#[trigger] log[k]).party == party && log[k].id == id,
    decreases log.len(),
{
    if log.len() > 0 {
        let init = log.drop_last();
        lemma_ids_of_membership(init, party, id);
        let rest = ids_of(init, party);
        if ids_of(log, party).contains(id) {
            if log.last().party == party && log.last().id == id {
                assert(log[log.len() - 1].party == party);
            } else {
                if log.last().party == party {
                    let j = choose|j: int| 0 <= j < rest.push(log.last().id).len() && rest.push(log.last().id)[j] == id;
                    assert(j < rest.len());
                    assert(rest.contains(id));
                }
                let k = choose|k: int| 0 <= k < init.len() && (#[trigger] init[k]).party == party && init[k].id == id;
                assert(log[k] == init[k]);
            }
        } else {
            if exists|k: int| 0 <= k < log.len() && (#[trigger] log[k]).party == party && log[k].id == id {
                let k = choose|k: int| 0 <= k < log.len() && (#[trigger] log[k]).party == party && log[k].id == id;
                if k == log.len() - 1 {
                    assert(ids_of(log, party) == rest.push(id));
                    assert(ids_of(log, party)[rest.len() as int] == id);
                } else {
                    assert(init[k] == log[k]);
                    let j = choose|j: int| 0 <= j < rest.len() && rest[j] == id;
                    if log.last().party == party {
                        assert(rest.push(log.last().id)[j] == id);
                    }
                }
            }
        }
    }
}

/// The principal index can be rebuilt from the records: it lists `id` for
/// `party` exactly when contract `id` exists and was listed by `party`.
pub proof fn principal_index_matches_records(records: Seq<Contract>, party: AccountId, id: u64)
    requires
        records_wf(records),
    ensures
        ids_of(principal_entries(records), party).contains(id) <==> (id < records.len()
            && records[id as int].principal_party == party),
{
    let log = principal_entries(records);
    lemma_ids_of_membership(log, party, id);
    if id < records.len() && records[id as int].principal_party == party {
        assert(log[id as int].party == party && log[id as int].id == id);
    }
    if ids_of(log, party).contains(id) {
        let k = choose|k: int| 0 <= k < log.len() && (#[trigger] log[k]).party == party && log[k].id == id;
        assert(log[k].id == k as u64);
        assert(k == id);
    }
}

/// The counterparty index can be rebuilt from the records: a well-formed index
/// lists `id` for `party` exactly when contract `id` exists and `party` is its
/// counterparty.
pub proof fn counterparty_index_matches_records(
    records: Seq<Contract>,
    log: Seq<IndexEntry>,
    party: AccountId,
    id: u64,
)
    requires
        counterparty_log_wf(records, log),
    ensures
        ids_of(log, party).contains(id) <==> (id < records.len() && records[id as int].counterparty
            == Some(party)),
{
    lemma_ids_of_membership(log, party, id);
    if id < records.len() && records[id as int].counterparty == Some(party) {
        let k = choose|k: int| 0 <= k < log.len() && (#[trigger] log[k]).id == id as int;
        assert(records[log[k].id as int].counterparty == Some(log[k].party));
    }
}

/// The contract map keyed by sequence id and two party indexes: principal party
/// to ids, counterparty to ids. Ids run from zero without gaps, so the map is a
/// vector; the indexes only grow.
pub struct ContractRegistry {
    contracts: Vec<Contract>,
    by_principal: Vec<IndexEntry>,
    by_counterparty: Vec<IndexEntry>,
}

impl ContractRegistry {
    /// The records, the one at index `i` having id `i`.
    pub closed spec fn records(&self) -> Seq<Contract> {
        self.contracts@
    }

    /// The principal index, in the order of listing.
    pub closed spec fn principal_log(&self) -> Seq<IndexEntry> {
        self.by_principal@
    }

    /// The counterparty index, in the order of matching.
    pub closed spec fn counterparty_log(&self) -> Seq<IndexEntry> {
        self.by_counterparty@
    }

    pub closed spec fn wf(&self) -> bool {
        &&& records_wf(self.contracts@)
        &&& self.by_principal@ == principal_entries(self.contracts@)
        &&& counterparty_log_wf(self.contracts@, self.by_counterparty@)
    }

    /// What a well-formed registry guarantees of its records and indexes.
    pub proof fn lemma_wf(&self)
        requires
            self.wf(),
        ensures
            records_wf(self.records()),
            self.principal_log() == principal_entries(self.records()),
            counterparty_log_wf(self.records(), self.counterparty_log()),
    {
    }

    pub fn new() -> (r: ContractRegistry)
        ensures
            r.wf(),
            r.records() == Seq::<Contract>::empty(),
            r.counterparty_log() == Seq::<IndexEntry>::empty(),
    {
        let r = ContractRegistry {
            contracts: Vec::new(),
            by_principal: Vec::new(),
            by_counterparty: Vec::new(),
        };
        assert(r.by_principal@ =~= principal_entries(r.contracts@));
        r
    }

    /// The number of records, which is also the next id.
    pub fn len(&self) -> (r: u64)
        requires
            self.wf(),
        ensures
            r == self.records().len(),
    {
        self.contracts.len() as u64
    }

    pub fn get(&self, id: u64) -> (r: Option<Contract>)
        requires
            self.wf(),
        ensures
            r == lookup(self.records(), id),
    {
        if id < self.contracts.len() as u64 {
            Some(self.contracts[id as usize])
        } else {
            None
        }
    }

    /// Stores `record` under the next id, which it returns; the record's own
    /// `id` is overwritten. Refused once every id is taken.
    pub fn create(&mut self, record: Contract) -> (r: Result<u64, Error>)
        requires
            old(self).wf(),
            record_wf(record),
            record.status == ContractStatus::Available,
        ensures
            final(self).wf(),
            old(self).records().len() >= u64::MAX ==> r == Err::<u64, Error>(
                Error::ArithmeticOverflow,
            ) && final(self).records() == old(self).records(),
            old(self).records().len() < u64::MAX ==> r == Ok::<u64, Error>(
                old(self).records().len() as u64,
            ) && final(self).records() == old(self).records().push(
                Contract { id: old(self).records().len() as u64, ..record },
            ),
            final(self).counterparty_log() == old(self).counterparty_log(),
    {
        let n = self.contracts.len() as u64;
        if n >= u64::MAX {
            return Err(Error::ArithmeticOverflow);
        }
        let c = Contract { id: n, ..record };
        let ghost old_records = self.contracts@;
        self.contracts.push(c);
        self.by_principal.push(IndexEntry { party: c.principal_party, id: n });
        proof {
            assert(self.by_principal@ =~= principal_entries(self.contracts@));
            assert forall|i: int| 0 <= i < self.contracts@.len() implies (#[trigger] self.contracts@[i]).id
                == i && record_wf(self.contracts@[i]) by {
                if i < old_records.len() {
                    assert(self.contracts@[i] == old_records[i]);
                }
            }
            assert forall|i: int|
                0 <= i < self.contracts@.len() && (#[trigger] self.contracts@[i]).counterparty.is_some()
                    implies exists|k: int|
                0 <= k < self.by_counterparty@.len() && (#[trigger] self.by_counterparty@[k]).id == i by {
                assert(i < old_records.len());
                assert(self.contracts@[i] == old_records[i]);
            }
        }
        Ok(n)
    }

    /// Replaces the record with id `id` by `record`. The principal party never
    /// changes, and a counterparty, once set, stays; when one is set for the
    /// first time, the counterparty index gains a line for it.
    pub fn update(&mut self, id: u64, record: Contract) -> (r: Result<(), Error>)
        requires
            old(self).wf(),
            record_wf(record),
            record.id == id,
            id < old(self).records().len() ==> record.principal_party == old(self).records()[id as int].principal_party,
            id < old(self).records().len() && old(self).records()[id as int].counterparty.is_some()
                ==> record.counterparty == old(self).records()[id as int].counterparty,
        ensures
            final(self).wf(),
            id >= old(self).records().len() ==> r == Err::<(), Error>(Error::NotFound) && final(self).records() == old(self).records() && final(self).counterparty_log() == old(self).counterparty_log(),
            id < old(self).records().len() ==> r == Ok::<(), Error>(()) && final(self).records()
                == old(self).records().update(id as int, record),
            id < old(self).records().len() && old(self).records()[id as int].counterparty.is_none()
                && record.counterparty.is_some() ==> final(self).counterparty_log() == old(self).counterparty_log().push(IndexEntry { party: record.counterparty.unwrap(), id }),
            id < old(self).records().len() && !(old(self).records()[id as int].counterparty.is_none()
                && record.counterparty.is_some()) ==> final(self).counterparty_log() == old(self).counterparty_log(),
    {
        if id >= self.contracts.len() as u64 {
            return Err(Error::NotFound);
        }
        let ghost old_records = self.contracts@;
        let ghost old_log = self.by_counterparty@;
        let previous = self.contracts[id as usize];
        self.contracts.set(id as usize, record);
        let fresh = previous.counterparty.is_none() && record.counterparty.is_some();
        if fresh {
            match record.counterparty {
                Some(p) => {
                    self.by_counterparty.push(IndexEntry { party: p, id });
                },
                None => {},
            }
        }
        proof {
            assert(self.by_principal@ =~= principal_entries(self.contracts@));
            assert forall|i: int| 0 <= i < self.contracts@.len() implies (#[trigger] self.contracts@[i]).id
                == i && record_wf(self.contracts@[i]) by {
                if i != id {
                    assert(self.contracts@[i] == old_records[i]);
                }
            }
            let log = self.by_counterparty@;
            assert forall|k: int| 0 <= k < log.len() implies (#[trigger] log[k]).id
                < self.contracts@.len() && self.contracts@[log[k].id as int].counterparty == Some(
                log[k].party,
            ) by {
                if k < old_log.len() {
                    assert(log[k] == old_log[k]);
                }
            }
            assert forall|k1: int, k2: int| 0 <= k1 < k2 < log.len() implies (#[trigger] log[k1]).id
                != (#[trigger] log[k2]).id by {
                if k2 >= old_log.len() {
                    assert(log[k1] == old_log[k1]);
                    assert(old_records[old_log[k1].id as int].counterparty.is_some());
                } else {
                    assert(log[k1] == old_log[k1]);
                    assert(log[k2] == old_log[k2]);
                }
            }
            assert forall|i: int|
                0 <= i < self.contracts@.len() && (#[trigger] self.contracts@[i]).counterparty.is_some()
                    implies exists|k: int| 0 <= k < log.len() && (#[trigger] log[k]).id == i by {
                if i == id && fresh {
                    assert(log[old_log.len() as int].id == i);
                } else {
                    assert(old_records[i].counterparty.is_some());
                    let k = choose|k: int| 0 <= k < old_log.len() && (#[trigger] old_log[k]).id == i;
                    assert(log[k] == old_log[k]);
                }
            }
        }
        Ok(())
    }

    /// All records in id order.
    pub fn all(&self) -> (r: Vec<Contract>)
        requires
            self.wf(),
        ensures
            r@ == self.records(),
    {
        self.contracts.clone()
    }

    /// The records whose ids lie in `start..end`, in id order.
    pub fn range(&self, start: u64, end: u64) -> (r: Vec<Contract>)
        requires
            self.wf(),
        ensures
            r@ == id_range(self.records(), start, end),
    {
        let n: usize = self.contracts.len();
        let lo: usize = if start < n as u64 { start as usize } else { n };
        let hi: usize = if end < n as u64 { end as usize } else { n };
        let mut out: Vec<Contract> = Vec::new();
        if lo < hi {
            let mut i: usize = lo;
            while i < hi
                invariant
                    lo <= i <= hi,
                    hi <= self.contracts@.len(),
                    out@ == self.contracts@.subrange(lo as int, i as int),
                decreases hi - i,
            {
                out.push(self.contracts[i]);
                i = i + 1;
                assert(out@ =~= self.contracts@.subrange(lo as int, i as int));
            }
        }
        proof {
            if !(lo < hi) {
                assert(out@ =~= id_range(self.contracts@, start, end));
            }
        }
        out
    }

    /// The records with status `status`, in id order.
    pub fn with_status(&self, status: ContractStatus) -> (r: Vec<Contract>)
        requires
            self.wf(),
        ensures
            r@ == with_status(self.records(), status),
    {
        let mut out: Vec<Contract> = Vec::new();
        let mut i: usize = 0;
        while i < self.contracts.len()
            invariant
                i <= self.contracts@.len(),
                out@ == with_status(self.contracts@.take(i as int), status),
            decreases self.contracts@.len() - i,
        {
            let c = self.contracts[i];
            proof {
                assert(self.contracts@.take(i as int + 1).drop_last() =~= self.contracts@.take(
                    i as int,
                ));
            }
            if c.status == status {
                out.push(c);
            }
            i = i + 1;
        }
        assert(self.contracts@.take(i as int) =~= self.contracts@);
        out
    }

    /// The ids that `log` lists for `party`, in order.
    fn collect_ids(log: &Vec<IndexEntry>, party: AccountId) -> (r: Vec<u64>)
        ensures
            r@ == ids_of(log@, party),
    {
        let mut out: Vec<u64> = Vec::new();
        let mut i: usize = 0;
        while i < log.len()
            invariant
                i <= log@.len(),
                out@ == ids_of(log@.take(i as int), party),
            decreases log@.len() - i,
        {
            let e = log[i];
            proof {
                assert(log@.take(i as int + 1).drop_last() =~= log@.take(i as int));
            }
            if e.party == party {
                out.push(e.id);
            }
            i = i + 1;
        }
        assert(log@.take(i as int) =~= log@);
        out
    }

    /// The ids of the contracts that `party` listed, in id order.
    pub fn ids_by_principal(&self, party: AccountId) -> (r: Vec<u64>)
        requires
            self.wf(),
        ensures
            r@ == ids_of(self.principal_log(), party),
    {
        Self::collect_ids(&self.by_principal, party)
    }

    /// The ids of the contracts that `party` matched, in the order of matching.
    pub fn ids_by_counterparty(&self, party: AccountId) -> (r: Vec<u64>)
        requires
            self.wf(),
        ensures
            r@ == ids_of(self.counterparty_log(), party),
    {
        Self::collect_ids(&self.by_counterparty, party)
    }
}

} // verus!
