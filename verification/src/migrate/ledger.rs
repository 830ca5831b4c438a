//! The record of which migrations have been applied.
//!
//! The durable ledger lives in the target store. [`Ledger`] holds what the
//! store reported and follows each committed transaction, so that every
//! decision of a run is taken against the same picture of the store.

use vstd::prelude::*;
use crate::migrate::definition::{Version, copy_bytes};

verus! {

/// Entry of the ledger: made when a migration is applied, removed when it is
/// reverted, never changed in between.
#[derive(Debug, Clone, PartialEq, Eq)]
pub struct AppliedRecord {
    pub version: Version,
    pub content_checksum: Vec<u8>,
    /// Seconds since the Unix epoch at which the migration was committed.
    pub applied_at: i64,
    /// Nanoseconds that the up script took.
    pub execution_duration: u64,
}

/// Mathematical value of an [`AppliedRecord`].
pub ghost struct AppliedRecordView {
    pub version: Version,
    pub content_checksum: Seq<u8>,
    pub applied_at: int,
    pub execution_duration: int,
}

impl View for AppliedRecord {
    type V = AppliedRecordView;

    open spec fn view(&self) -> AppliedRecordView {
        AppliedRecordView {
            version: self.version,
            content_checksum: self.content_checksum@,
            applied_at: self.applied_at as int,
            execution_duration: self.execution_duration as int,
        }
    }
}

impl AppliedRecord {
    /// A copy with the same fields.
    pub fn duplicate(&self) -> (r: AppliedRecord)
        ensures
            r@ == self@,
    {
        AppliedRecord {
            version: self.version,
            content_checksum: copy_bytes(&self.content_checksum),
            applied_at: self.applied_at,
            execution_duration: self.execution_duration,
        }
    }
}

/// The records of a vector, one view for each.
pub open spec fn record_views(records: Seq<AppliedRecord>) -> Seq<AppliedRecordView> {
    records.map_values(|r: AppliedRecord| r@)
}

/// Versions grow strictly from each record to the next.
pub open spec fn records_ascending(s: Seq<AppliedRecordView>) -> bool {
    forall|i: int, j: int| 0 <= i < j < s.len() ==> s[i].version < s[j].version
}

/// Some record of `s` has version `v`.
pub open spec fn records_contain(s: Seq<AppliedRecordView>, v: Version) -> bool {
    exists|i: int| 0 <= i < s.len() && #[trigger] s[i].version == v
}

/// Where the record with version `v` stands in `s`, if there is one.
pub open spec fn record_index(s: Seq<AppliedRecordView>, v: Version) -> int {
    choose|i: int| 0 <= i < s.len() && #[trigger] s[i].version == v
}

/// The mapping from version to record that the sequence `s` stands for.
pub open spec fn records_as_map(s: Seq<AppliedRecordView>) -> Map<Version, AppliedRecordView> {
    Map::new(|v: Version| records_contain(s, v), |v: Version| s[record_index(s, v)])
}

/// No two records of `s` share a version.
pub open spec fn records_distinct(s: Seq<AppliedRecordView>) -> bool {
    forall|i: int, j: int| 0 <= i < j < s.len() ==> s[i].version != s[j].version
}

/// In an ascending sequence a version names one index only.
pub proof fn lemma_record_index_unique(s: Seq<AppliedRecordView>, i: int)
    requires
        records_ascending(s),
        0 <= i < s.len(),
    ensures
        records_contain(s, s[i].version),
        record_index(s, s[i].version) == i,
        records_as_map(s)[s[i].version] == s[i],
{
    let v = s[i].version;
    let k = record_index(s, v);
    assert(0 <= k < s.len() && s[k].version == v);
    if k < i {
        assert(s[k].version < s[i].version);
    }
    if i < k {
        assert(s[i].version < s[k].version);
    }
}

/// Inserting a record at the place that keeps the versions ascending adds
/// one entry to the mapping.
pub proof fn lemma_records_insert(s: Seq<AppliedRecordView>, p: int, r: AppliedRecordView)
    requires
        records_ascending(s),
        0 <= p <= s.len(),
        forall|i: int| 0 <= i < p ==> s[i].version < r.version,
        forall|i: int| p <= i < s.len() ==> r.version < s[i].version,
    ensures
        records_ascending(s.insert(p, r)),
        !records_contain(s, r.version),
        records_as_map(s.insert(p, r)) == records_as_map(s).insert(r.version, r),
{
    let t = s.insert(p, r);
    assert forall|i: int, j: int| 0 <= i < j < t.len() implies t[i].version < t[j].version by {
        if j < p {
            assert(t[i] == s[i] && t[j] == s[j]);
        } else if j == p {
            assert(t[i] == s[i]);
        } else if i < p {
            assert(t[i] == s[i] && t[j] == s[j - 1]);
        } else if i == p {
            assert(t[j] == s[j - 1]);
        } else {
            assert(t[i] == s[i - 1] && t[j] == s[j - 1]);
        }
    }
    assert(!records_contain(s, r.version)) by {
        if records_contain(s, r.version) {
            let k = record_index(s, r.version);
            assert(s[k].version == r.version);
        }
    }
    let m = records_as_map(s).insert(r.version, r);
    assert forall|v: Version| records_as_map(t).dom().contains(v) <==> m.dom().contains(v) by {
        if records_contain(t, v) {
            let k = record_index(t, v);
            if k < p {
                assert(s[k].version == v);
            } else if k > p {
                assert(s[k - 1].version == v);
            }
        }
        if records_contain(s, v) {
            let k = record_index(s, v);
            if k < p {
                assert(t[k].version == v);
            } else {
                assert(t[k + 1].version == v);
            }
        }
        if v == r.version {
            assert(t[p].version == v);
        }
    }
    assert forall|v: Version| #[trigger] m.dom().contains(v) implies records_as_map(t)[v] == m[v] by {
        if v == r.version {
            assert(t[p] == r);
            lemma_record_index_unique(t, p);
        } else {
            let k = record_index(s, v);
            assert(s[k].version == v);
            lemma_record_index_unique(s, k);
            if k < p {
                assert(t[k] == s[k]);
                lemma_record_index_unique(t, k);
            } else {
                assert(t[k + 1] == s[k]);
                lemma_record_index_unique(t, k + 1);
            }
        }
    }
    assert(records_as_map(t) =~= m);
}

/// Taking a record out of an ascending sequence takes its version out of the
/// mapping.
pub proof fn lemma_records_remove(s: Seq<AppliedRecordView>, p: int)
    requires
        records_ascending(s),
        0 <= p < s.len(),
    ensures
        records_ascending(s.remove(p)),
        records_as_map(s.remove(p)) == records_as_map(s).remove(s[p].version),
{
    let t = s.remove(p);
    let gone = s[p].version;
    assert forall|i: int, j: int| 0 <= i < j < t.len() implies t[i].version < t[j].version by {
        let a = if i < p { i } else { i + 1 };
        let b = if j < p { j } else { j + 1 };
        assert(t[i] == s[a] && t[j] == s[b]);
    }
    let m = records_as_map(s).remove(gone);
    assert forall|v: Version| records_as_map(t).dom().contains(v) <==> m.dom().contains(v) by {
        if records_contain(t, v) {
            let k = record_index(t, v);
            let a = if k < p { k } else { k + 1 };
            assert(s[a].version == v);
            if a < p {
                assert(s[a].version < s[p].version);
            } else {
                assert(s[p].version < s[a].version);
            }
        }
        if records_contain(s, v) && v != gone {
            let k = record_index(s, v);
            if k < p {
                assert(t[k].version == v);
            } else {
                assert(t[k - 1].version == v);
            }
        }
    }
    assert forall|v: Version| #[trigger] m.dom().contains(v) implies records_as_map(t)[v] == m[v] by {
        let k = record_index(s, v);
        assert(s[k].version == v);
        lemma_record_index_unique(s, k);
        if k < p {
            assert(t[k] == s[k]);
            lemma_record_index_unique(t, k);
        } else {
            assert(t[k - 1] == s[k]);
            lemma_record_index_unique(t, k - 1);
        }
    }
    assert(records_as_map(t) =~= m);
}

/// The applied migrations of one target store, keyed by version.
#[derive(Debug, Clone, PartialEq, Eq)]
pub struct Ledger {
    created: bool,
    records: Vec<AppliedRecord>,
}

impl View for Ledger {
    type V = Map<Version, AppliedRecordView>;

    /// The mapping from version to record.
    open spec fn view(&self) -> Map<Version, AppliedRecordView> {
        records_as_map(self.entries())
    }
}

impl Ledger {
    /// The records in the order in which they are listed.
    pub closed spec fn entries(&self) -> Seq<AppliedRecordView> {
        record_views(self.records@)
    }

    /// Whether the structure that holds the records has been created.
    pub closed spec fn is_created(&self) -> bool {
        self.created
    }

    /// What every ledger satisfies: versions ascend strictly, and a ledger
    /// that was never created holds nothing.
    pub open spec fn wf(&self) -> bool {
        &&& records_ascending(self.entries())
        &&& !self.is_created() ==> self.entries().len() == 0
    }

    /// The ledger of a store that has never seen a migration run.
    pub fn new() -> (ledger: Ledger)
        ensures
            ledger.wf(),
            !ledger.is_created(),
            ledger.entries() == Seq::<AppliedRecordView>::empty(),
            ledger@ == Map::<Version, AppliedRecordView>::empty(),
    {
        let ledger = Ledger { created: false, records: Vec::new() };
        assert(ledger.entries() =~= Seq::<AppliedRecordView>::empty());
        assert(ledger@ =~= Map::<Version, AppliedRecordView>::empty());
        ledger
    }

    /// Creates the structure that holds the records if it is absent, and
    /// says whether it had to. The records stay as they are, so the call can
    /// be made on every run.
    pub fn ensure_table(&mut self) -> (created_now: bool)
        requires
            old(self).wf(),
        ensures
            final(self).wf(),
            final(self).is_created(),
            final(self).entries() == old(self).entries(),
            created_now == !old(self).is_created(),
    {
        let created_now = !self.created;
        self.created = true;
        created_now
    }

    /// The applied records, ascending by version.
    pub fn records(&self) -> (records: &Vec<AppliedRecord>)
        ensures
            record_views(records@) == self.entries(),
    {
        &self.records
    }

    /// Number of applied migrations.
    pub fn len(&self) -> (n: usize)
        ensures
            n == self.entries().len(),
    {
        self.records.len()
    }

    /// Where `version` stands among the records, or where it would be put,
    /// and whether it is there.
    fn position(&self, version: Version) -> (r: (usize, bool))
        requires
            self.wf(),
        ensures
            r.0 <= self.entries().len(),
            forall|i: int| 0 <= i < r.0 ==> self.entries()[i].version < version,
            r.1 ==> r.0 < self.entries().len() && self.entries()[r.0 as int].version == version,
            !r.1 ==> forall|i: int|
                r.0 <= i < self.entries().len() ==> version < self.entries()[i].version,
            r.1 == self@.dom().contains(version),
    {
        let mut p: usize = 0;
        while p < self.records.len() && self.records[p].version < version
            invariant
                p <= self.records.len(),
                self.wf(),
                forall|i: int| 0 <= i < p ==> self.entries()[i].version < version,
            decreases self.records.len() - p,
        {
            p += 1;
        }
        let found = p < self.records.len() && self.records[p].version == version;
        proof {
            let s = self.entries();
            if p < s.len() {
                assert(s[p as int] == self.records[p as int]@);
            }
            assert forall|i: int| p < i < s.len() implies version < s[i].version by {
                assert(s[p as int].version < s[i].version);
            }
            if !found && records_contain(s, version) {
                let k = record_index(s, version);
                assert(s[k].version == version);
            }
        }
        (p, found)
    }

    /// True when `version` is recorded as applied.
    pub fn contains(&self, version: Version) -> (r: bool)
        requires
            self.wf(),
        ensures
            r == self@.dom().contains(version),
    {
        self.position(version).1
    }

    /// The record of `version`, if it is applied.
    pub fn get(&self, version: Version) -> (r: Option<&AppliedRecord>)
        requires
            self.wf(),
        ensures
            r is Some <==> self@.dom().contains(version),
            r is Some ==> r->Some_0@ == self@[version],
    {
        let (p, found) = self.position(version);
        if found {
            proof {
                lemma_record_index_unique(self.entries(), p as int);
            }
            Some(&self.records[p])
        } else {
            None
        }
    }

    /// The applied records, ascending by version.
    pub fn list_applied(&self) -> (list: Vec<AppliedRecord>)
        requires
            self.wf(),
        ensures
            record_views(list@) == self.entries(),
            records_ascending(record_views(list@)),
            records_as_map(record_views(list@)) == self@,
    {
        let mut list: Vec<AppliedRecord> = Vec::new();
        let mut i: usize = 0;
        while i < self.records.len()
            invariant
                i <= self.records.len(),
                record_views(list@) == self.entries().take(i as int),
            decreases self.records.len() - i,
        {
            let ghost before = record_views(list@);
            list.push(self.records[i].duplicate());
            assert(record_views(list@) =~= before.push(self.records[i as int]@));
            assert(self.entries().take(i + 1) =~= self.entries().take(i as int).push(
                self.entries()[i as int],
            ));
            i += 1;
        }
        assert(self.entries().take(i as int) == self.entries());
        list
    }

    /// Records that `version` was applied. The structure is created if it is
    /// absent. A version that is already recorded is left as it is, and the
    /// result is `false`.
    pub fn record_apply(
        &mut self,
        version: Version,
        checksum: Vec<u8>,
        applied_at: i64,
        duration: u64,
    ) -> (inserted: bool)
        requires
            old(self).wf(),
        ensures
            final(self).wf(),
            final(self).is_created(),
            inserted == !old(self)@.dom().contains(version),
            inserted ==> final(self)@ == old(self)@.insert(
                version,
                AppliedRecordView {
                    version,
                    content_checksum: checksum@,
                    applied_at: applied_at as int,
                    execution_duration: duration as int,
                },
            ),
            !inserted ==> final(self).entries() == old(self).entries(),
    {
        self.created = true;
        let (p, found) = self.position(version);
        if found {
            return false;
        }
        let record = AppliedRecord {
            version,
            content_checksum: checksum,
            applied_at,
            execution_duration: duration,
        };
        proof {
            lemma_records_insert(self.entries(), p as int, record@);
        }
        let ghost before = self.entries();
        self.records.insert(p, record);
        assert(self.entries() =~= before.insert(p as int, record@));
        true
    }

    /// Removes the record of `version`. A version that is not recorded
    /// leaves the ledger as it is, and the result is `false`.
    pub fn record_revert(&mut self, version: Version) -> (removed: bool)
        requires
            old(self).wf(),
        ensures
            final(self).wf(),
            final(self).is_created() == old(self).is_created(),
            removed == old(self)@.dom().contains(version),
            final(self)@ == old(self)@.remove(version),
            !removed ==> final(self).entries() == old(self).entries(),
    {
        let (p, found) = self.position(version);
        if found {
            proof {
                lemma_records_remove(self.entries(), p as int);
            }
            let ghost before = self.entries();
            let _ = self.records.remove(p);
            assert(self.entries() =~= before.remove(p as int));
            true
        } else {
            assert(self@.remove(version) =~= self@);
            false
        }
    }
}

} // verus!
