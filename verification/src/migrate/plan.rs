//! What a run has to do: the comparison of what is defined with what is
//! applied, and the steps that follow from it.

use vstd::prelude::*;
use crate::migrate::definition::{MigrationDefinitionView, Version, same_bytes};
use crate::migrate::error::{MigrationError, MigrationErrorView};
use crate::migrate::ledger::{
    AppliedRecord, AppliedRecordView, Ledger, record_views, records_as_map,
};
use crate::migrate::source::{MigrationSource, defines, versions_of};

verus! {

/// The versions of `s`, in its order.
pub open spec fn record_versions(s: Seq<AppliedRecordView>) -> Seq<Version> {
    s.map_values(|r: AppliedRecordView| r.version)
}

/// Holds of a record whose version the source does not define.
pub open spec fn is_undefined(defined: Seq<MigrationDefinitionView>) -> spec_fn(
    AppliedRecordView,
) -> bool {
    |r: AppliedRecordView| !defines(defined, r.version)
}

/// Holds of a definition that the ledger records as applied.
pub open spec fn is_applied(ledger: Map<Version, AppliedRecordView>) -> spec_fn(
    MigrationDefinitionView,
) -> bool {
    |d: MigrationDefinitionView| ledger.dom().contains(d.version)
}

/// Holds of a definition that the ledger does not record.
pub open spec fn is_pending(ledger: Map<Version, AppliedRecordView>) -> spec_fn(
    MigrationDefinitionView,
) -> bool {
    |d: MigrationDefinitionView| !ledger.dom().contains(d.version)
}

/// Holds of an applied definition whose content no longer has the checksum
/// that was recorded when it was applied.
pub open spec fn has_drifted(ledger: Map<Version, AppliedRecordView>) -> spec_fn(
    MigrationDefinitionView,
) -> bool {
    |d: MigrationDefinitionView|
        ledger.dom().contains(d.version) && ledger[d.version].content_checksum
            != d.content_checksum
}

/// Holds of an applied definition that has a down script.
pub open spec fn is_revertible(ledger: Map<Version, AppliedRecordView>) -> spec_fn(
    MigrationDefinitionView,
) -> bool {
    |d: MigrationDefinitionView| ledger.dom().contains(d.version) && d.is_reversible()
}

/// Holds of a definition without a down script.
pub open spec fn is_simple() -> spec_fn(MigrationDefinitionView) -> bool {
    |d: MigrationDefinitionView| !d.is_reversible()
}

/// The applied versions that the source does not define, in the order of
/// the records.
pub open spec fn missing_versions(
    applied: Seq<AppliedRecordView>,
    defined: Seq<MigrationDefinitionView>,
) -> Seq<Version> {
    record_versions(applied.filter(is_undefined(defined)))
}

/// The defined versions that are not applied, lowest first.
pub open spec fn pending_versions(
    defined: Seq<MigrationDefinitionView>,
    ledger: Map<Version, AppliedRecordView>,
) -> Seq<Version> {
    versions_of(defined.filter(is_pending(ledger)))
}

/// The applied versions whose content was edited since, lowest first.
pub open spec fn drifted_versions(
    defined: Seq<MigrationDefinitionView>,
    ledger: Map<Version, AppliedRecordView>,
) -> Seq<Version> {
    versions_of(defined.filter(has_drifted(ledger)))
}

/// The versions that can never be reverted, lowest first.
pub open spec fn simple_versions(defined: Seq<MigrationDefinitionView>) -> Seq<Version> {
    versions_of(defined.filter(is_simple()))
}

/// The applied versions that have a down script, highest first.
pub open spec fn revertible_versions(
    defined: Seq<MigrationDefinitionView>,
    ledger: Map<Version, AppliedRecordView>,
) -> Seq<Version> {
    versions_of(defined.filter(is_revertible(ledger))).reverse()
}

/// How many of the defined migrations are applied. Records of versions
/// that the source does not define are not counted.
pub open spec fn applied_count(
    defined: Seq<MigrationDefinitionView>,
    ledger: Map<Version, AppliedRecordView>,
) -> nat {
    defined.filter(is_applied(ledger)).len()
}

/// The versions that a revert of `target` migrations undoes, in the order
/// in which it undoes them: the highest revertible versions, as many as
/// asked for or as many as there are.
pub open spec fn revert_versions(
    defined: Seq<MigrationDefinitionView>,
    ledger: Map<Version, AppliedRecordView>,
    target: nat,
) -> Seq<Version> {
    let all = revertible_versions(defined, ledger);
    if target < all.len() {
        all.take(target as int)
    } else {
        all
    }
}

/// What filtering yields once one more element is looked at.
pub proof fn lemma_filter_next<A>(s: Seq<A>, keep: spec_fn(A) -> bool, i: int)
    requires
        0 <= i < s.len(),
    ensures
        s.take(i + 1).filter(keep) == if keep(s[i]) {
            s.take(i).filter(keep).push(s[i])
        } else {
            s.take(i).filter(keep)
        },
{
    reveal(Seq::filter);
    assert(s.take(i + 1).drop_last() =~= s.take(i));
}

/// The applied versions that `source` does not define.
pub fn missing_migrations(applied: &[AppliedRecord], source: &MigrationSource) -> (missing: Vec<
    Version,
>)
    requires
        source.wf(),
    ensures
        missing@ == missing_versions(record_views(applied@), source@),
{
    let mut missing: Vec<Version> = Vec::new();
    let ghost records = record_views(applied@);
    let ghost keep = is_undefined(source@);
    let mut i: usize = 0;
    assert(records.take(0).filter(keep) =~= Seq::empty()) by {
        reveal(Seq::filter);
    }
    while i < applied.len()
        invariant
            i <= applied.len(),
            source.wf(),
            records == record_views(applied@),
            keep == is_undefined(source@),
            missing@ == record_versions(records.take(i as int).filter(keep)),
        decreases applied.len() - i,
    {
        let version = applied[i].version;
        proof {
            lemma_filter_next(records, keep, i as int);
            assert(records[i as int].version == version);
        }
        if !source.contains(version) {
            let ghost before = records.take(i as int).filter(keep);
            missing.push(version);
            assert(record_versions(before.push(records[i as int])) =~= record_versions(
                before,
            ).push(version));
        }
        i += 1;
    }
    assert(records.take(i as int) == records);
    missing
}

/// The defined versions that are not applied, lowest first.
pub fn pending_migrations(source: &MigrationSource, ledger: &Ledger) -> (pending: Vec<Version>)
    requires
        source.wf(),
        ledger.wf(),
    ensures
        pending@ == pending_versions(source@, ledger@),
{
    let mut pending: Vec<Version> = Vec::new();
    let ghost keep = is_pending(ledger@);
    let mut i: usize = 0;
    assert(source@.take(0).filter(keep) =~= Seq::empty()) by {
        reveal(Seq::filter);
    }
    while i < source.len()
        invariant
            i <= source@.len(),
            source.wf(),
            ledger.wf(),
            keep == is_pending(ledger@),
            pending@ == versions_of(source@.take(i as int).filter(keep)),
        decreases source@.len() - i,
    {
        let version = source.get(i).version;
        proof {
            lemma_filter_next(source@, keep, i as int);
        }
        if !ledger.contains(version) {
            let ghost before = source@.take(i as int).filter(keep);
            pending.push(version);
            assert(versions_of(before.push(source@[i as int])) =~= versions_of(before).push(
                version,
            ));
        }
        i += 1;
    }
    assert(source@.take(i as int) == source@);
    pending
}

/// The versions that can never be reverted, lowest first. A run that finds
/// any tells the caller so once; it is no failure.
pub fn hunt_simple_migrations(source: &MigrationSource) -> (simple: Vec<Version>)
    ensures
        simple@ == simple_versions(source@),
{
    let mut simple: Vec<Version> = Vec::new();
    let ghost keep = is_simple();
    let mut i: usize = 0;
    assert(source@.take(0).filter(keep) =~= Seq::empty()) by {
        reveal(Seq::filter);
    }
    while i < source.len()
        invariant
            i <= source@.len(),
            keep == is_simple(),
            simple@ == versions_of(source@.take(i as int).filter(keep)),
        decreases source@.len() - i,
    {
        let definition = source.get(i);
        proof {
            lemma_filter_next(source@, keep, i as int);
        }
        if !definition.is_reversible() {
            let ghost before = source@.take(i as int).filter(keep);
            simple.push(definition.version);
            assert(versions_of(before.push(source@[i as int])) =~= versions_of(before).push(
                definition.version,
            ));
        }
        i += 1;
    }
    assert(source@.take(i as int) == source@);
    simple
}

/// The lowest applied version whose content was edited since, if any was.
pub fn first_modified(source: &MigrationSource, ledger: &Ledger) -> (modified: Option<Version>)
    requires
        source.wf(),
        ledger.wf(),
    ensures
        modified is None <==> drifted_versions(source@, ledger@).len() == 0,
        modified is Some ==> modified->Some_0 == drifted_versions(source@, ledger@)[0],
{
    let ghost keep = has_drifted(ledger@);
    let mut i: usize = 0;
    assert(source@.take(0).filter(keep) =~= Seq::empty()) by {
        reveal(Seq::filter);
    }
    while i < source.len()
        invariant
            i <= source@.len(),
            source.wf(),
            ledger.wf(),
            keep == has_drifted(ledger@),
            source@.take(i as int).filter(keep).len() == 0,
        decreases source@.len() - i,
    {
        let definition = source.get(i);
        proof {
            lemma_filter_next(source@, keep, i as int);
        }
        match ledger.get(definition.version) {
            Some(record) => {
                if !same_bytes(&record.content_checksum, &definition.content_checksum) {
                    proof {
                        let head = source@.take(i + 1);
                        let tail = source@.skip(i + 1);
                        assert(source@ =~= head + tail);
                        Seq::filter_distributes_over_add(head, tail, keep);
                        assert(head.filter(keep) =~= seq![source@[i as int]]);
                        assert(source@.filter(keep)[0] == source@[i as int]);
                    }
                    return Some(definition.version);
                }
            },
            None => {},
        }
        i += 1;
    }
    assert(source@.take(i as int) == source@);
    None
}

/// How many of the defined migrations are applied.
pub fn count_applied(source: &MigrationSource, ledger: &Ledger) -> (count: usize)
    requires
        source.wf(),
        ledger.wf(),
    ensures
        count == applied_count(source@, ledger@),
{
    let mut count: usize = 0;
    let ghost keep = is_applied(ledger@);
    let mut i: usize = 0;
    assert(source@.take(0).filter(keep) =~= Seq::empty()) by {
        reveal(Seq::filter);
    }
    while i < source.len()
        invariant
            i <= source@.len(),
            count <= i,
            source.wf(),
            ledger.wf(),
            keep == is_applied(ledger@),
            count == source@.take(i as int).filter(keep).len(),
        decreases source@.len() - i,
    {
        proof {
            lemma_filter_next(source@, keep, i as int);
        }
        if ledger.contains(source.get(i).version) {
            count += 1;
        }
        i += 1;
    }
    assert(source@.take(i as int) == source@);
    count
}

/// The applied versions that have a down script, highest first.
pub fn revertible_migrations(source: &MigrationSource, ledger: &Ledger) -> (revertible: Vec<
    Version,
>)
    requires
        source.wf(),
        ledger.wf(),
    ensures
        revertible@ == revertible_versions(source@, ledger@),
{
    let mut ascending: Vec<Version> = Vec::new();
    let ghost keep = is_revertible(ledger@);
    let mut i: usize = 0;
    assert(source@.take(0).filter(keep) =~= Seq::empty()) by {
        reveal(Seq::filter);
    }
    while i < source.len()
        invariant
            i <= source@.len(),
            source.wf(),
            ledger.wf(),
            keep == is_revertible(ledger@),
            ascending@ == versions_of(source@.take(i as int).filter(keep)),
        decreases source@.len() - i,
    {
        let definition = source.get(i);
        proof {
            lemma_filter_next(source@, keep, i as int);
        }
        if definition.is_reversible() && ledger.contains(definition.version) {
            let ghost before = source@.take(i as int).filter(keep);
            ascending.push(definition.version);
            assert(versions_of(before.push(source@[i as int])) =~= versions_of(before).push(
                definition.version,
            ));
        }
        i += 1;
    }
    assert(source@.take(i as int) == source@);
    let mut revertible: Vec<Version> = Vec::new();
    let mut k: usize = ascending.len();
    while k > 0
        invariant
            k <= ascending@.len(),
            revertible@ == ascending@.reverse().take(ascending@.len() - k),
        decreases k,
    {
        k -= 1;
        revertible.push(ascending[k]);
        assert(revertible@ =~= ascending@.reverse().take(ascending@.len() - k));
    }
    assert(ascending@.reverse().take(ascending@.len() as int) =~= ascending@.reverse());
    revertible
}

/// Where a defined migration stands with respect to the store.
#[derive(Debug, Clone, Copy, PartialEq, Eq, Structural)]
pub enum MigrationStatus {
    /// The ledger has no record of it.
    NotInstalled,
    /// It is applied, and its content is what was applied.
    Installed,
    /// It is applied, and its content was edited since.
    InstalledModified,
}

/// One line of a status report.
#[derive(Debug, Clone, PartialEq, Eq)]
pub struct StatusEntry {
    pub version: Version,
    pub description: String,
    pub status: MigrationStatus,
}

/// Mathematical value of a [`StatusEntry`].
pub ghost struct StatusEntryView {
    pub version: Version,
    pub description: Seq<char>,
    pub status: MigrationStatus,
}

impl View for StatusEntry {
    type V = StatusEntryView;

    open spec fn view(&self) -> StatusEntryView {
        StatusEntryView {
            version: self.version,
            description: self.description@,
            status: self.status,
        }
    }
}

/// The entries of a vector, one view for each.
pub open spec fn status_views(entries: Seq<StatusEntry>) -> Seq<StatusEntryView> {
    entries.map_values(|e: StatusEntry| e@)
}

/// The status of one definition.
pub open spec fn status_of(
    d: MigrationDefinitionView,
    ledger: Map<Version, AppliedRecordView>,
) -> MigrationStatus {
    if !ledger.dom().contains(d.version) {
        MigrationStatus::NotInstalled
    } else if ledger[d.version].content_checksum == d.content_checksum {
        MigrationStatus::Installed
    } else {
        MigrationStatus::InstalledModified
    }
}

/// The report line of one definition.
pub open spec fn status_entry(ledger: Map<Version, AppliedRecordView>) -> spec_fn(
    MigrationDefinitionView,
) -> StatusEntryView {
    |d: MigrationDefinitionView|
        StatusEntryView {
            version: d.version,
            description: d.description,
            status: status_of(d, ledger),
        }
}

/// One line for every defined migration, highest version first. A version
/// that is applied but not defined has no line.
pub open spec fn status_report(
    defined: Seq<MigrationDefinitionView>,
    ledger: Map<Version, AppliedRecordView>,
) -> Seq<StatusEntryView> {
    defined.map_values(status_entry(ledger)).reverse()
}

/// The failure that versions missing from the source cause, unless the
/// caller tolerates them.
pub open spec fn missing_failure(
    defined: Seq<MigrationDefinitionView>,
    applied: Seq<AppliedRecordView>,
    ignore_missing: bool,
) -> Option<MigrationErrorView> {
    let missing = missing_versions(applied, defined);
    if !ignore_missing && missing.len() > 0 {
        Some(MigrationErrorView::MissingMigration { versions: missing })
    } else {
        None
    }
}

/// What an apply decides: the versions to apply, lowest first, or the
/// failure that forbids applying anything. Missing versions are looked for
/// first; then any applied migration that was edited since is fatal, the
/// lowest such version being the one named.
pub open spec fn apply_outcome(
    defined: Seq<MigrationDefinitionView>,
    applied: Seq<AppliedRecordView>,
    ignore_missing: bool,
) -> Result<Seq<Version>, MigrationErrorView> {
    let ledger = records_as_map(applied);
    let drifted = drifted_versions(defined, ledger);
    match missing_failure(defined, applied, ignore_missing) {
        Some(e) => Err(e),
        None => if drifted.len() > 0 {
            Err(MigrationErrorView::ModifiedMigration { version: drifted[0] })
        } else {
            Ok(pending_versions(defined, ledger))
        },
    }
}

/// What a revert of `target` migrations decides: the versions to undo,
/// highest first, or the failure that forbids undoing anything. An edited
/// migration does not stand in the way.
pub open spec fn revert_outcome(
    defined: Seq<MigrationDefinitionView>,
    applied: Seq<AppliedRecordView>,
    target: nat,
    ignore_missing: bool,
) -> Result<Seq<Version>, MigrationErrorView> {
    let ledger = records_as_map(applied);
    let count = applied_count(defined, ledger);
    match missing_failure(defined, applied, ignore_missing) {
        Some(e) => Err(e),
        None => if target > count {
            Err(MigrationErrorView::InsufficientHistory { requested: target, applied: count })
        } else {
            Ok(revert_versions(defined, ledger, target))
        },
    }
}

/// What a status run reports: one line for each defined migration, or the
/// failure that missing versions cause. An edited migration is reported, not
/// refused.
pub open spec fn status_outcome(
    defined: Seq<MigrationDefinitionView>,
    applied: Seq<AppliedRecordView>,
    ignore_missing: bool,
) -> Result<Seq<StatusEntryView>, MigrationErrorView> {
    match missing_failure(defined, applied, ignore_missing) {
        Some(e) => Err(e),
        None => Ok(status_report(defined, records_as_map(applied))),
    }
}

/// The mathematical value of a plan or of the failure in its place.
pub open spec fn plan_view(r: Result<Vec<Version>, MigrationError>) -> Result<
    Seq<Version>,
    MigrationErrorView,
> {
    match r {
        Ok(plan) => Ok(plan@),
        Err(e) => Err(e@),
    }
}

/// The mathematical value of a report or of the failure in its place.
pub open spec fn report_view(r: Result<Vec<StatusEntry>, MigrationError>) -> Result<
    Seq<StatusEntryView>,
    MigrationErrorView,
> {
    match r {
        Ok(report) => Ok(status_views(report@)),
        Err(e) => Err(e@),
    }
}

/// Refuses a ledger that records versions which `source` does not define,
/// unless `ignore_missing` is set.
pub fn check_missing_migrations(
    ledger: &Ledger,
    source: &MigrationSource,
    ignore_missing: bool,
) -> (r: Result<(), MigrationError>)
    requires
        source.wf(),
        ledger.wf(),
    ensures
        match missing_failure(source@, ledger.entries(), ignore_missing) {
            Some(e) => r is Err && r->Err_0@ == e,
            None => r is Ok,
        },
{
    if ignore_missing {
        return Ok(());
    }
    let versions = missing_migrations(ledger.records().as_slice(), source);
    if versions.len() > 0 {
        Err(MigrationError::MissingMigration { versions })
    } else {
        Ok(())
    }
}

/// Decides what an apply does: validates the ledger against the source and
/// lists the pending versions, lowest first.
pub fn plan_apply(source: &MigrationSource, ledger: &Ledger, ignore_missing: bool) -> (r: Result<
    Vec<Version>,
    MigrationError,
>)
    requires
        source.wf(),
        ledger.wf(),
    ensures
        plan_view(r) == apply_outcome(source@, ledger.entries(), ignore_missing),
{
    match check_missing_migrations(ledger, source, ignore_missing) {
        Err(e) => { return Err(e); },
        Ok(()) => {},
    }
    match first_modified(source, ledger) {
        Some(version) => Err(MigrationError::ModifiedMigration { version }),
        None => Ok(pending_migrations(source, ledger)),
    }
}

/// Decides what a revert of `target` migrations does: validates the ledger
/// against the source, refuses a target beyond what is applied, and lists
/// the versions to undo, highest first. Migrations without a down script are
/// passed over and do not count towards the target.
pub fn plan_revert(
    source: &MigrationSource,
    ledger: &Ledger,
    target: u64,
    ignore_missing: bool,
) -> (r: Result<Vec<Version>, MigrationError>)
    requires
        source.wf(),
        ledger.wf(),
    ensures
        plan_view(r) == revert_outcome(source@, ledger.entries(), target as nat, ignore_missing),
{
    match check_missing_migrations(ledger, source, ignore_missing) {
        Err(e) => { return Err(e); },
        Ok(()) => {},
    }
    let count = count_applied(source, ledger);
    if target > count as u64 {
        return Err(MigrationError::InsufficientHistory { requested: target, applied: count as u64 });
    }
    let mut plan = revertible_migrations(source, ledger);
    if target < plan.len() as u64 {
        plan.truncate(target as usize);
    }
    Ok(plan)
}

/// Reports where each defined migration stands, highest version first.
pub fn status(source: &MigrationSource, ledger: &Ledger, ignore_missing: bool) -> (r: Result<
    Vec<StatusEntry>,
    MigrationError,
>)
    requires
        source.wf(),
        ledger.wf(),
    ensures
        report_view(r) == status_outcome(source@, ledger.entries(), ignore_missing),
{
    match check_missing_migrations(ledger, source, ignore_missing) {
        Err(e) => { return Err(e); },
        Ok(()) => {},
    }
    let mut report: Vec<StatusEntry> = Vec::new();
    let ghost lines = source@.map_values(status_entry(ledger@));
    let mut k: usize = source.len();
    while k > 0
        invariant
            k <= source@.len(),
            source.wf(),
            ledger.wf(),
            lines == source@.map_values(status_entry(ledger@)),
            status_views(report@) == lines.reverse().take(lines.len() - k),
        decreases k,
    {
        k -= 1;
        let definition = source.get(k);
        let status = match ledger.get(definition.version) {
            None => MigrationStatus::NotInstalled,
            Some(record) => if same_bytes(&record.content_checksum, &definition.content_checksum) {
                MigrationStatus::Installed
            } else {
                MigrationStatus::InstalledModified
            },
        };
        let entry = StatusEntry {
            version: definition.version,
            description: definition.description.clone(),
            status,
        };
        assert(entry@ == lines[k as int]);
        let ghost before = status_views(report@);
        report.push(entry);
        assert(status_views(report@) =~= before.push(entry@));
        assert(before.push(entry@) =~= lines.reverse().take(lines.len() - k));
    }
    assert(lines.reverse().take(lines.len() as int) =~= lines.reverse());
    Ok(report)
}

} // verus!
