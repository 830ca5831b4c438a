//! What holds of every run, proved from the definitions of the engine.

use vstd::prelude::*;
use crate::migrate::definition::{MigrationDefinitionView, Version};
use crate::migrate::engine::{
    Action, EngineView, EventView, Phase, Request, action_of, commits, committed, definition_of,
    initial, record_of, run, successful_run, target_count, transition,
};
use crate::migrate::error::MigrationErrorView;
use crate::migrate::ledger::{
    AppliedRecordView, record_index, records_as_map, records_ascending, records_contain,
};
use crate::migrate::plan::{
    MigrationStatus, applied_count, apply_outcome, drifted_versions, has_drifted, is_applied,
    is_pending, is_revertible, is_undefined, missing_failure, missing_versions, pending_versions,
    record_versions, revert_outcome, revert_versions, revertible_versions, status_outcome,
    status_report,
};
use crate::migrate::source::{
    defines, definition_index, definitions_ascending, lemma_definition_index_unique, versions_of,
};

verus! {

/// Each version is lower than the next.
pub open spec fn strictly_ascending(versions: Seq<Version>) -> bool {
    forall|i: int, j: int| 0 <= i < j < versions.len() ==> versions[i] < versions[j]
}

/// Each version is higher than the next.
pub open spec fn strictly_descending(versions: Seq<Version>) -> bool {
    forall|i: int, j: int| 0 <= i < j < versions.len() ==> versions[i] > versions[j]
}

/// Filtering keeps the elements that pass, and no others.
pub proof fn lemma_filter_members<A>(s: Seq<A>, keep: spec_fn(A) -> bool, x: A)
    ensures
        s.filter(keep).contains(x) <==> s.contains(x) && keep(x),
{
    if s.filter(keep).contains(x) {
        s.lemma_filter_contains_rev(keep, x);
        let i = choose|i: int| 0 <= i < s.filter(keep).len() && s.filter(keep)[i] == x;
        s.lemma_filter_pred(keep, i);
    }
    if s.contains(x) && keep(x) {
        let i = choose|i: int| 0 <= i < s.len() && s[i] == x;
        s.lemma_filter_contains(keep, i);
    }
}

/// Filtering is empty exactly when no element passes.
pub proof fn lemma_filter_empty<A>(s: Seq<A>, keep: spec_fn(A) -> bool)
    ensures
        s.filter(keep).len() == 0 <==> forall|i: int| 0 <= i < s.len() ==> !keep(#[trigger] s[i]),
{
    if forall|i: int| 0 <= i < s.len() ==> !keep(#[trigger] s[i]) {
        s.lemma_all_neg_filter_empty(keep);
    }
    if s.filter(keep).len() == 0 {
        assert forall|i: int| 0 <= i < s.len() implies !keep(#[trigger] s[i]) by {
            if keep(s[i]) {
                assert(s.contains(s[i]));
                lemma_filter_members(s, keep, s[i]);
                let k = choose|k: int| 0 <= k < s.filter(keep).len() && s.filter(keep)[k] == s[i];
            }
        }
    }
}

/// Where an element of a filtered sequence stands in the sequence itself.
pub proof fn lemma_filter_origin<A>(s: Seq<A>, keep: spec_fn(A) -> bool, k: int) -> (i: int)
    requires
        0 <= k < s.filter(keep).len(),
    ensures
        0 <= i < s.len(),
        s[i] == s.filter(keep)[k],
        keep(s[i]),
{
    let x = s.filter(keep)[k];
    assert(s.filter(keep).contains(x));
    lemma_filter_members(s, keep, x);
    choose|i: int| 0 <= i < s.len() && s[i] == x
}

/// Where an element that passes stands in the filtered sequence.
pub proof fn lemma_filter_image<A>(s: Seq<A>, keep: spec_fn(A) -> bool, i: int) -> (k: int)
    requires
        0 <= i < s.len(),
        keep(s[i]),
    ensures
        0 <= k < s.filter(keep).len(),
        s.filter(keep)[k] == s[i],
{
    assert(s.contains(s[i]));
    lemma_filter_members(s, keep, s[i]);
    choose|k: int| 0 <= k < s.filter(keep).len() && s.filter(keep)[k] == s[i]
}

/// Filtering definitions keeps their order.
pub proof fn lemma_filter_ascending(
    s: Seq<MigrationDefinitionView>,
    keep: spec_fn(MigrationDefinitionView) -> bool,
)
    requires
        definitions_ascending(s),
    ensures
        definitions_ascending(s.filter(keep)),
    decreases s.len(),
{
    reveal(Seq::filter);
    if s.len() > 0 {
        let rest = s.drop_last();
        lemma_filter_ascending(rest, keep);
        let f = rest.filter(keep);
        if keep(s.last()) {
            let g = f.push(s.last());
            assert forall|i: int, j: int| 0 <= i < j < g.len() implies g[i].version
                < g[j].version by {
                if j == f.len() {
                    let k = lemma_filter_origin(rest, keep, i);
                    assert(s[k].version < s[s.len() - 1].version);
                }
            }
        }
    }
}

/// The versions of ascending definitions ascend.
pub proof fn lemma_versions_ascending(s: Seq<MigrationDefinitionView>)
    requires
        definitions_ascending(s),
    ensures
        strictly_ascending(versions_of(s)),
{
}

/// A version is among the versions of a filtered source exactly when a
/// definition that passes has it.
pub proof fn lemma_filtered_versions(
    s: Seq<MigrationDefinitionView>,
    keep: spec_fn(MigrationDefinitionView) -> bool,
    v: Version,
)
    ensures
        versions_of(s.filter(keep)).contains(v) <==> exists|i: int|
            0 <= i < s.len() && keep(s[i]) && #[trigger] s[i].version == v,
{
    let f = s.filter(keep);
    if versions_of(f).contains(v) {
        let k = choose|k: int| 0 <= k < versions_of(f).len() && versions_of(f)[k] == v;
        let i = lemma_filter_origin(s, keep, k);
        assert(keep(s[i]) && s[i].version == v);
    }
    if exists|i: int| 0 <= i < s.len() && keep(s[i]) && #[trigger] s[i].version == v {
        let i = choose|i: int| 0 <= i < s.len() && keep(s[i]) && #[trigger] s[i].version == v;
        let k = lemma_filter_image(s, keep, i);
        assert(versions_of(f)[k] == v);
    }
}

/// An apply executes in strictly ascending order of version: the versions
/// it plans are exactly the defined versions that are not applied, each
/// lower than the next.
pub proof fn lemma_apply_ascends(
    defined: Seq<MigrationDefinitionView>,
    applied: Seq<AppliedRecordView>,
    ignore_missing: bool,
)
    requires
        definitions_ascending(defined),
    ensures
        apply_outcome(defined, applied, ignore_missing) matches Ok(plan) ==> {
            &&& strictly_ascending(plan)
            &&& forall|v: Version|
                plan.contains(v) <==> defines(defined, v) && !records_contain(applied, v)
        },
{
    let ledger = records_as_map(applied);
    let keep = is_pending(ledger);
    lemma_filter_ascending(defined, keep);
    lemma_versions_ascending(defined.filter(keep));
    assert forall|v: Version|
        pending_versions(defined, ledger).contains(v) <==> defines(defined, v) && !records_contain(
            applied,
            v,
        ) by {
        lemma_filtered_versions(defined, keep, v);
        if defines(defined, v) && !records_contain(applied, v) {
            let i = definition_index(defined, v);
            assert(keep(defined[i]) && defined[i].version == v);
        }
    }
}

/// A revert executes in strictly descending order of version, undoes only
/// applied migrations that have a down script, and never more than asked
/// for.
pub proof fn lemma_revert_descends(
    defined: Seq<MigrationDefinitionView>,
    applied: Seq<AppliedRecordView>,
    target: nat,
    ignore_missing: bool,
)
    requires
        definitions_ascending(defined),
    ensures
        revert_outcome(defined, applied, target, ignore_missing) matches Ok(plan) ==> {
            &&& strictly_descending(plan)
            &&& plan.len() <= target
            &&& forall|i: int|
                0 <= i < plan.len() ==> {
                    &&& defines(defined, #[trigger] plan[i])
                    &&& records_contain(applied, plan[i])
                    &&& defined[definition_index(defined, plan[i])].is_reversible()
                }
        },
{
    let ledger = records_as_map(applied);
    let keep = is_revertible(ledger);
    let f = defined.filter(keep);
    lemma_filter_ascending(defined, keep);
    let all = revertible_versions(defined, ledger);
    let plan = revert_versions(defined, ledger, target);
    assert forall|i: int, j: int| 0 <= i < j < all.len() implies all[i] > all[j] by {
        assert(all[i] == f[f.len() - 1 - i].version);
        assert(all[j] == f[f.len() - 1 - j].version);
    }
    assert forall|i: int| 0 <= i < plan.len() implies {
        &&& defines(defined, #[trigger] plan[i])
        &&& records_contain(applied, plan[i])
        &&& defined[definition_index(defined, plan[i])].is_reversible()
    } by {
        let d = f[f.len() - 1 - i];
        assert(plan[i] == all[i]);
        assert(all[i] == d.version);
        let k = lemma_filter_origin(defined, keep, f.len() - 1 - i);
        lemma_definition_index_unique(defined, k);
    }
}

/// An applied migration whose content was edited stops an apply and is
/// only reported by a status run.
pub proof fn lemma_drift(
    defined: Seq<MigrationDefinitionView>,
    applied: Seq<AppliedRecordView>,
    ignore_missing: bool,
    i: int,
)
    requires
        definitions_ascending(defined),
        0 <= i < defined.len(),
        records_contain(applied, defined[i].version),
        records_as_map(applied)[defined[i].version].content_checksum
            != defined[i].content_checksum,
        missing_failure(defined, applied, ignore_missing) is None,
    ensures
        apply_outcome(defined, applied, ignore_missing) matches Err(
            MigrationErrorView::ModifiedMigration { version },
        ) && version <= defined[i].version,
        status_outcome(defined, applied, ignore_missing) matches Ok(report) && report[defined.len()
            - 1 - i].version == defined[i].version && report[defined.len() - 1 - i].status
            == MigrationStatus::InstalledModified,
{
    let ledger = records_as_map(applied);
    let keep = has_drifted(ledger);
    let f = defined.filter(keep);
    assert(keep(defined[i]));
    lemma_filter_ascending(defined, keep);
    let k = lemma_filter_image(defined, keep, i);
    if 0 < k {
        assert(f[0].version < f[k].version);
    }
    assert(drifted_versions(defined, ledger)[0] == f[0].version);
}

/// A version that is applied but not defined stops every command, unless
/// the caller tolerates it. Where it is tolerated the run goes on without
/// that version: no plan holds it and no report has a line for it.
pub proof fn lemma_missing(
    defined: Seq<MigrationDefinitionView>,
    applied: Seq<AppliedRecordView>,
    target: nat,
    i: int,
)
    requires
        definitions_ascending(defined),
        0 <= i < applied.len(),
        !defines(defined, applied[i].version),
    ensures
        apply_outcome(defined, applied, false) matches Err(
            MigrationErrorView::MissingMigration { versions },
        ) && versions.contains(applied[i].version),
        revert_outcome(defined, applied, target, false) == apply_outcome(defined, applied, false),
        status_outcome(defined, applied, false) matches Err(e) && Err::<Seq<Version>, _>(e)
            == apply_outcome(defined, applied, false),
        missing_failure(defined, applied, true) is None,
        apply_outcome(defined, applied, true) matches Ok(plan) ==> !plan.contains(
            applied[i].version,
        ),
        revert_outcome(defined, applied, target, true) matches Ok(plan) ==> !plan.contains(
            applied[i].version,
        ),
        status_outcome(defined, applied, true) matches Ok(report) && forall|k: int|
            0 <= k < report.len() ==> (#[trigger] report[k]).version != applied[i].version,
{
    let v = applied[i].version;
    let keep = is_undefined(defined);
    assert(keep(applied[i]));
    let f = applied.filter(keep);
    let k = lemma_filter_image(applied, keep, i);
    assert(record_versions(f)[k] == v);
    let ledger = records_as_map(applied);
    lemma_apply_ascends(defined, applied, true);
    lemma_revert_descends(defined, applied, target, true);
    match revert_outcome(defined, applied, target, true) {
        Ok(plan) => {
            if plan.contains(v) {
                let j = choose|j: int| 0 <= j < plan.len() && plan[j] == v;
                assert(defines(defined, plan[j]));
            }
        },
        Err(_) => {},
    }
    let report = status_report(defined, ledger);
    assert forall|k: int| 0 <= k < report.len() implies (#[trigger] report[k]).version != v by {
        assert(report[k].version == defined[defined.len() - 1 - k].version);
    }
}

/// A revert of more migrations than are applied is refused, whatever is
/// defined: nothing is planned, so nothing is undone.
pub proof fn lemma_revert_bound(
    defined: Seq<MigrationDefinitionView>,
    applied: Seq<AppliedRecordView>,
    target: nat,
    ignore_missing: bool,
)
    requires
        missing_failure(defined, applied, ignore_missing) is None,
        target > applied_count(defined, records_as_map(applied)),
    ensures
        revert_outcome(defined, applied, target, ignore_missing) == Err::<Seq<Version>, _>(
            MigrationErrorView::InsufficientHistory {
                requested: target,
                applied: applied_count(defined, records_as_map(applied)),
            },
        ),
{
}

/// Running over one event is one transition, and over none is no change.
pub proof fn lemma_run_unfold(s: EngineView, events: Seq<EventView>)
    ensures
        events.len() == 0 ==> run(s, events) == s,
        events.len() == 1 ==> run(s, events) == transition(s, events[0]),
        events.len() == 2 ==> run(s, events) == transition(transition(s, events[0]), events[1]),
{
    reveal_with_fuel(run, 3);
    if events.len() == 2 {
        assert(events.drop_last().drop_last().len() == 0);
        assert(events.drop_last().last() == events[0]);
    }
}

/// The state of an apply after the store listed `applied`, when the
/// request was not refused.
pub open spec fn apply_ready(
    defined: Seq<MigrationDefinitionView>,
    applied: Seq<AppliedRecordView>,
    ignore_missing: bool,
) -> EngineView {
    run(
        initial(defined, Request::Apply { ignore_missing }),
        seq![EventView::Connected, EventView::Listed { applied }],
    )
}

/// How an apply proceeds at a store where every script succeeds. After
/// `k` commits the engine asks for the version at place `k` of its plan, so
/// the versions are applied in the order of the plan; the ledger has gained
/// a record for each of the first `k` versions of the plan, made from the
/// definition of that version, and is otherwise what the store listed.
pub proof fn lemma_apply_progress(
    defined: Seq<MigrationDefinitionView>,
    applied: Seq<AppliedRecordView>,
    ignore_missing: bool,
    stamps: Seq<(int, int)>,
    k: int,
)
    requires
        definitions_ascending(defined),
        apply_outcome(defined, applied, ignore_missing) is Ok,
        0 <= k <= stamps.len(),
        stamps.len() == apply_outcome(defined, applied, ignore_missing)->Ok_0.len(),
    ensures
        ({
            let plan = apply_outcome(defined, applied, ignore_missing)->Ok_0;
            let before = records_as_map(applied);
            let t = run(apply_ready(defined, applied, ignore_missing), commits(stamps.take(k)));
            &&& t.request == Request::Apply { ignore_missing }
            &&& t.defined == defined
            &&& t.plan == plan
            &&& t.done == k
            &&& t.failure is None
            &&& t.phase == if k == plan.len() {
                Phase::Reporting
            } else {
                Phase::Executing
            }
            &&& k < plan.len() ==> action_of(t) == Action::Apply { version: plan[k] }
            &&& forall|v: Version|
                t.ledger.dom().contains(v) <==> before.dom().contains(v) || plan.take(k).contains(v)
            &&& forall|v: Version| before.dom().contains(v) ==> t.ledger[v] == before[v]
            &&& forall|i: int|
                0 <= i < k ==> {
                    &&& defines(defined, #[trigger] plan[i])
                    &&& t.ledger[plan[i]] == record_of(
                        defined[definition_index(defined, plan[i])],
                        stamps[i].0,
                        stamps[i].1,
                    )
                }
        }),
    decreases k,
{
    let plan = apply_outcome(defined, applied, ignore_missing)->Ok_0;
    let before = records_as_map(applied);
    let ready = apply_ready(defined, applied, ignore_missing);
    lemma_apply_ascends(defined, applied, ignore_missing);
    if k == 0 {
        lemma_run_unfold(
            initial(defined, Request::Apply { ignore_missing }),
            seq![EventView::Connected, EventView::Listed { applied }],
        );
        assert(commits(stamps.take(0)) =~= Seq::empty());
        lemma_run_unfold(ready, commits(stamps.take(0)));
        assert(plan.take(0) =~= Seq::empty());
    } else {
        lemma_apply_progress(defined, applied, ignore_missing, stamps, k - 1);
        let events = commits(stamps.take(k));
        let s = run(ready, commits(stamps.take(k - 1)));
        assert(events.drop_last() =~= commits(stamps.take(k - 1)));
        assert(events.last() == EventView::Committed {
            applied_at: stamps[k - 1].0,
            duration: stamps[k - 1].1,
        });
        let t = run(ready, events);
        assert(t == committed(s, stamps[k - 1].0, stamps[k - 1].1));
        let version = plan[k - 1];
        assert(plan.contains(version));
        assert(defines(defined, version) && !before.dom().contains(version));
        let shorter = plan.take(k - 1);
        let longer = plan.take(k);
        assert(!s.ledger.dom().contains(version)) by {
            if shorter.contains(version) {
                let j = choose|j: int| 0 <= j < shorter.len() && shorter[j] == version;
                assert(plan[j] < plan[k - 1]);
            }
        }
        let d = defined[definition_index(defined, version)];
        assert(t.ledger == s.ledger.insert(version, record_of(d, stamps[k - 1].0, stamps[k - 1].1)));
        assert forall|v: Version|
            t.ledger.dom().contains(v) <==> before.dom().contains(v) || plan.take(k).contains(
                v,
            ) by {
            if longer.contains(v) {
                let j = choose|j: int| 0 <= j < longer.len() && longer[j] == v;
                if j < k - 1 {
                    assert(shorter[j] == v);
                }
            }
            if shorter.contains(v) {
                let j = choose|j: int| 0 <= j < shorter.len() && shorter[j] == v;
                assert(longer[j] == v);
            }
            if v == version {
                assert(longer[k - 1] == v);
            }
        }
        assert forall|i: int| 0 <= i < k implies {
            &&& defines(defined, #[trigger] plan[i])
            &&& t.ledger[plan[i]] == record_of(
                defined[definition_index(defined, plan[i])],
                stamps[i].0,
                stamps[i].1,
            )
        } by {
            if i < k - 1 {
                assert(plan[i] < plan[k - 1]);
                assert(stamps.take(k - 1)[i] == stamps[i]);
            }
        }
    }
}

/// Applying twice in a row, with nothing newly defined in between, succeeds
/// both times, and the second run finds nothing to apply: it plans no step
/// and leaves the ledger as the first run left it.
pub proof fn lemma_apply_idempotent(
    defined: Seq<MigrationDefinitionView>,
    applied: Seq<AppliedRecordView>,
    ignore_missing: bool,
    stamps: Seq<(int, int)>,
    listed_again: Seq<AppliedRecordView>,
)
    requires
        definitions_ascending(defined),
        records_ascending(applied),
        apply_outcome(defined, applied, ignore_missing) is Ok,
        stamps.len() == apply_outcome(defined, applied, ignore_missing)->Ok_0.len(),
        records_ascending(listed_again),
        records_as_map(listed_again) == successful_run(
            defined,
            Request::Apply { ignore_missing },
            applied,
            stamps,
        ).ledger,
    ensures
        ({
            let request = Request::Apply { ignore_missing };
            let first = successful_run(defined, request, applied, stamps);
            let second = successful_run(defined, request, listed_again, Seq::empty());
            &&& first.phase == Phase::Done
            &&& first.failure is None
            &&& apply_outcome(defined, listed_again, ignore_missing) == Ok::<
                _,
                MigrationErrorView,
            >(Seq::<Version>::empty())
            &&& second.phase == Phase::Done
            &&& second.failure is None
            &&& second.plan.len() == 0
            &&& second.ledger == first.ledger
        }),
{
    let request = Request::Apply { ignore_missing };
    let plan = apply_outcome(defined, applied, ignore_missing)->Ok_0;
    let before = records_as_map(applied);
    let ready = apply_ready(defined, applied, ignore_missing);
    lemma_apply_ascends(defined, applied, ignore_missing);
    lemma_apply_progress(defined, applied, ignore_missing, stamps, stamps.len() as int);
    assert(stamps.take(stamps.len() as int) == stamps);
    assert(plan.take(plan.len() as int) == plan);
    let reported = run(ready, commits(stamps));
    lemma_run_unfold(reported, seq![EventView::Reported]);
    let first = successful_run(defined, request, applied, stamps);
    let after = first.ledger;
    assert(after == reported.ledger);

    // Nothing that the store lists now is unknown to the source.
    if !ignore_missing {
        lemma_filter_empty(applied, is_undefined(defined));
        assert forall|j: int| 0 <= j < listed_again.len() implies !is_undefined(defined)(
            #[trigger] listed_again[j],
        ) by {
            let v = listed_again[j].version;
            assert(records_contain(listed_again, v));
            assert(after.dom().contains(v));
            if before.dom().contains(v) {
                let i = record_index(applied, v);
                assert(applied[i].version == v);
                assert(!is_undefined(defined)(applied[i]));
            } else {
                let i = choose|i: int| 0 <= i < plan.len() && plan[i] == v;
                assert(defines(defined, plan[i]));
            }
        }
        lemma_filter_empty(listed_again, is_undefined(defined));
        assert(missing_versions(listed_again, defined) =~= Seq::empty());
    }
    // Nothing has drifted, and nothing is pending.
    lemma_filter_empty(defined, has_drifted(before));
    assert forall|i: int| 0 <= i < defined.len() implies !has_drifted(after)(
        #[trigger] defined[i],
    ) && !is_pending(after)(defined[i]) by {
        let d = defined[i];
        lemma_definition_index_unique(defined, i);
        if before.dom().contains(d.version) {
            assert(!has_drifted(before)(d));
        } else {
            assert(plan.contains(d.version));
            let j = choose|j: int| 0 <= j < plan.len() && plan[j] == d.version;
            assert(after[plan[j]] == record_of(d, stamps[j].0, stamps[j].1));
        }
    }
    lemma_filter_empty(defined, has_drifted(after));
    lemma_filter_empty(defined, is_pending(after));
    assert(pending_versions(defined, after) =~= Seq::<Version>::empty());
    assert(drifted_versions(defined, after) =~= Seq::<Version>::empty());

    let again = apply_ready(defined, listed_again, ignore_missing);
    lemma_run_unfold(
        initial(defined, request),
        seq![EventView::Connected, EventView::Listed { applied: listed_again }],
    );
    assert(commits(Seq::empty()) =~= Seq::empty());
    lemma_run_unfold(again, commits(Seq::empty()));
    lemma_run_unfold(again, seq![EventView::Reported]);
}

/// The state of a revert after the store listed `applied`.
pub open spec fn revert_ready(
    defined: Seq<MigrationDefinitionView>,
    applied: Seq<AppliedRecordView>,
    request: Request,
) -> EngineView {
    run(initial(defined, request), seq![EventView::Connected, EventView::Listed { applied }])
}

/// The number of migrations that a revert request asks to undo, given what
/// is defined and applied.
pub open spec fn requested_reverts(
    defined: Seq<MigrationDefinitionView>,
    applied: Seq<AppliedRecordView>,
    count: Option<u64>,
    all: bool,
) -> nat {
    target_count(count, all, applied_count(defined, records_as_map(applied)))
}

/// How a revert proceeds at a store where every script succeeds. After
/// `k` commits the engine asks for the version at place `k` of its plan, so
/// the versions are undone in the order of the plan; the ledger has lost the
/// records of the first `k` versions of the plan and is otherwise what the
/// store listed.
pub proof fn lemma_revert_progress(
    defined: Seq<MigrationDefinitionView>,
    applied: Seq<AppliedRecordView>,
    count: Option<u64>,
    all: bool,
    ignore_missing: bool,
    stamps: Seq<(int, int)>,
    k: int,
)
    requires
        definitions_ascending(defined),
        revert_outcome(
            defined,
            applied,
            requested_reverts(defined, applied, count, all),
            ignore_missing,
        ) is Ok,
        0 <= k <= stamps.len(),
        stamps.len() == revert_outcome(
            defined,
            applied,
            requested_reverts(defined, applied, count, all),
            ignore_missing,
        )->Ok_0.len(),
    ensures
        ({
            let request = Request::Revert { count, all, ignore_missing };
            let plan = revert_outcome(
                defined,
                applied,
                requested_reverts(defined, applied, count, all),
                ignore_missing,
            )->Ok_0;
            let before = records_as_map(applied);
            let t = run(revert_ready(defined, applied, request), commits(stamps.take(k)));
            &&& t.request == request
            &&& t.defined == defined
            &&& t.plan == plan
            &&& t.done == k
            &&& t.failure is None
            &&& t.phase == if k == plan.len() {
                Phase::Reporting
            } else {
                Phase::Executing
            }
            &&& k < plan.len() ==> action_of(t) == Action::Revert { version: plan[k] }
            &&& forall|v: Version|
                t.ledger.dom().contains(v) <==> before.dom().contains(v) && !plan.take(k).contains(
                    v,
                )
            &&& forall|v: Version| t.ledger.dom().contains(v) ==> t.ledger[v] == before[v]
        }),
    decreases k,
{
    let request = Request::Revert { count, all, ignore_missing };
    let target = requested_reverts(defined, applied, count, all);
    let plan = revert_outcome(defined, applied, target, ignore_missing)->Ok_0;
    let before = records_as_map(applied);
    let ready = revert_ready(defined, applied, request);
    if k == 0 {
        lemma_run_unfold(
            initial(defined, request),
            seq![EventView::Connected, EventView::Listed { applied }],
        );
        assert(commits(stamps.take(0)) =~= Seq::empty());
        lemma_run_unfold(ready, commits(stamps.take(0)));
        assert(plan.take(0) =~= Seq::empty());
    } else {
        lemma_revert_progress(defined, applied, count, all, ignore_missing, stamps, k - 1);
        let events = commits(stamps.take(k));
        let s = run(ready, commits(stamps.take(k - 1)));
        assert(events.drop_last() =~= commits(stamps.take(k - 1)));
        assert(events.last() == EventView::Committed {
            applied_at: stamps[k - 1].0,
            duration: stamps[k - 1].1,
        });
        let t = run(ready, events);
        assert(t == committed(s, stamps[k - 1].0, stamps[k - 1].1));
        let version = plan[k - 1];
        let shorter = plan.take(k - 1);
        let longer = plan.take(k);
        assert(t.ledger == s.ledger.remove(version));
        assert forall|v: Version|
            t.ledger.dom().contains(v) <==> before.dom().contains(v) && !longer.contains(v) by {
            if longer.contains(v) {
                let j = choose|j: int| 0 <= j < longer.len() && longer[j] == v;
                if j < k - 1 {
                    assert(shorter[j] == v);
                }
            }
            if shorter.contains(v) {
                let j = choose|j: int| 0 <= j < shorter.len() && shorter[j] == v;
                assert(longer[j] == v);
            }
            if v == version {
                assert(longer[k - 1] == v);
            }
        }
    }
}

/// A migration without a down script is never touched by a revert: where
/// it is applied, every step of the run leaves its record as it was.
/// The same holds of a record whose version the source does not define.
pub proof fn lemma_simple_is_terminal(
    defined: Seq<MigrationDefinitionView>,
    applied: Seq<AppliedRecordView>,
    count: Option<u64>,
    all: bool,
    ignore_missing: bool,
    stamps: Seq<(int, int)>,
    k: int,
    v: Version,
)
    requires
        definitions_ascending(defined),
        revert_outcome(
            defined,
            applied,
            requested_reverts(defined, applied, count, all),
            ignore_missing,
        ) is Ok,
        0 <= k <= stamps.len(),
        stamps.len() == revert_outcome(
            defined,
            applied,
            requested_reverts(defined, applied, count, all),
            ignore_missing,
        )->Ok_0.len(),
        records_contain(applied, v),
        definition_of(defined, v) matches Some(d) ==> !d.is_reversible(),
    ensures
        ({
            let request = Request::Revert { count, all, ignore_missing };
            let t = run(revert_ready(defined, applied, request), commits(stamps.take(k)));
            &&& t.ledger.dom().contains(v)
            &&& t.ledger[v] == records_as_map(applied)[v]
            &&& action_of(t) != Action::Revert { version: v }
        }),
{
    let target = requested_reverts(defined, applied, count, all);
    let plan = revert_outcome(defined, applied, target, ignore_missing)->Ok_0;
    lemma_revert_progress(defined, applied, count, all, ignore_missing, stamps, k);
    lemma_revert_descends(defined, applied, target, ignore_missing);
    assert(!plan.contains(v)) by {
        if plan.contains(v) {
            let j = choose|j: int| 0 <= j < plan.len() && plan[j] == v;
            assert(defines(defined, plan[j]));
            assert(defined[definition_index(defined, plan[j])].is_reversible());
            assert(definition_of(defined, v) == Some(defined[definition_index(defined, v)]));
        }
    }
    let prefix = plan.take(k);
    if prefix.contains(v) {
        let j = choose|j: int| 0 <= j < prefix.len() && prefix[j] == v;
        assert(plan[j] == v);
        assert(plan.contains(v));
    }
    if k < plan.len() {
        assert(plan.contains(plan[k]));
    }
    assert(records_as_map(applied).dom().contains(v));
}

/// A revert of more migrations than are applied fails at once. The engine
/// asks for no step, whatever happens afterwards, and the ledger it holds is
/// the one that the store listed.
pub proof fn lemma_revert_refused(
    defined: Seq<MigrationDefinitionView>,
    applied: Seq<AppliedRecordView>,
    count: Option<u64>,
    all: bool,
    ignore_missing: bool,
    later: EventView,
)
    requires
        missing_failure(defined, applied, ignore_missing) is None,
        requested_reverts(defined, applied, count, all) > applied_count(
            defined,
            records_as_map(applied),
        ),
    ensures
        ({
            let request = Request::Revert { count, all, ignore_missing };
            let t = revert_ready(defined, applied, request);
            &&& t.phase == Phase::Failed
            &&& t.failure == Some(
                MigrationErrorView::InsufficientHistory {
                    requested: requested_reverts(defined, applied, count, all),
                    applied: applied_count(defined, records_as_map(applied)),
                },
            )
            &&& t.ledger == records_as_map(applied)
            &&& action_of(t) == Action::Abort
            &&& transition(t, later) == t
        }),
{
    let request = Request::Revert { count, all, ignore_missing };
    lemma_run_unfold(
        initial(defined, request),
        seq![EventView::Connected, EventView::Listed { applied }],
    );
}

/// What filtering a single element yields.
pub proof fn lemma_filter_single<A>(x: A, keep: spec_fn(A) -> bool)
    ensures
        seq![x].filter(keep) == if keep(x) {
            seq![x]
        } else {
            Seq::<A>::empty()
        },
{
    reveal_with_fuel(Seq::filter, 2);
    assert(seq![x].drop_last() =~= Seq::<A>::empty());
    assert(Seq::<A>::empty().push(x) =~= seq![x]);
}

/// Round trip: where a single migration with a down script is defined and
/// nothing is applied, an apply records it, and a revert of one migration
/// right after removes that record again, so that the ledger is what it was
/// before the apply.
pub proof fn lemma_round_trip(
    d: MigrationDefinitionView,
    ignore_missing: bool,
    applied_at: int,
    took: int,
    listed: Seq<AppliedRecordView>,
    reverted_in: int,
)
    requires
        d.is_reversible(),
        records_ascending(listed),
        records_as_map(listed) == successful_run(
            seq![d],
            Request::Apply { ignore_missing },
            Seq::empty(),
            seq![(applied_at, took)],
        ).ledger,
    ensures
        ({
            let apply = Request::Apply { ignore_missing };
            let revert = Request::Revert { count: Some(1), all: false, ignore_missing };
            let first = successful_run(seq![d], apply, Seq::empty(), seq![(applied_at, took)]);
            let second = successful_run(seq![d], revert, listed, seq![(0, reverted_in)]);
            &&& first.phase == Phase::Done
            &&& first.plan == seq![d.version]
            &&& first.ledger == Map::<Version, AppliedRecordView>::empty().insert(
                d.version,
                record_of(d, applied_at, took),
            )
            &&& second.phase == Phase::Done
            &&& second.plan == seq![d.version]
            &&& second.ledger == Map::<Version, AppliedRecordView>::empty()
        }),
{
    let defined = seq![d];
    let nothing = Seq::<AppliedRecordView>::empty();
    let apply = Request::Apply { ignore_missing };
    let revert = Request::Revert { count: Some(1), all: false, ignore_missing };
    let stamps = seq![(applied_at, took)];
    let empty = Map::<Version, AppliedRecordView>::empty();
    assert(definitions_ascending(defined));
    assert(records_as_map(nothing) =~= empty);
    lemma_definition_index_unique(defined, 0);

    // The apply.
    lemma_filter_single(d, is_pending(empty));
    lemma_filter_single(d, has_drifted(empty));
    lemma_filter_empty(nothing, is_undefined(defined));
    assert(missing_versions(nothing, defined) =~= Seq::empty());
    assert(drifted_versions(defined, empty) =~= Seq::empty());
    assert(pending_versions(defined, empty) =~= seq![d.version]);
    assert(apply_outcome(defined, nothing, ignore_missing) == Ok::<_, MigrationErrorView>(
        seq![d.version],
    ));
    lemma_apply_progress(defined, nothing, ignore_missing, stamps, 1);
    assert(stamps.take(1) == stamps);
    let reported = run(apply_ready(defined, nothing, ignore_missing), commits(stamps));
    lemma_run_unfold(reported, seq![EventView::Reported]);
    let first = successful_run(defined, apply, nothing, stamps);
    let record = record_of(d, applied_at, took);
    assert(first.ledger =~= empty.insert(d.version, record)) by {
        let plan = apply_outcome(defined, nothing, ignore_missing)->Ok_0;
        let steps = plan.take(1);
        assert(first.ledger == reported.ledger);
        assert forall|v: Version| first.ledger.dom().contains(v) <==> v == d.version by {
            assert(reported.ledger.dom().contains(v) <==> records_as_map(nothing).dom().contains(v)
                || steps.contains(v));
            assert(!records_as_map(nothing).dom().contains(v));
            if steps.contains(v) {
                let j = choose|j: int| 0 <= j < steps.len() && steps[j] == v;
                assert(v == d.version);
            }
            if v == d.version {
                assert(steps[0] == v);
                assert(steps.contains(v));
            }
        }
        assert(plan[0] == d.version);
    }

    // The revert.
    let ledger = records_as_map(listed);
    lemma_filter_single(d, is_applied(ledger));
    lemma_filter_single(d, is_revertible(ledger));
    assert(applied_count(defined, ledger) == 1);
    assert(versions_of(seq![d]) =~= seq![d.version]);
    assert(seq![d.version].reverse() =~= seq![d.version]);
    assert(revert_versions(defined, ledger, 1) == seq![d.version]);
    assert forall|j: int| 0 <= j < listed.len() implies !is_undefined(defined)(
        #[trigger] listed[j],
    ) by {
        assert(records_contain(listed, listed[j].version));
        assert(ledger.dom().contains(listed[j].version));
    }
    lemma_filter_empty(listed, is_undefined(defined));
    assert(missing_versions(listed, defined) =~= Seq::empty());
    let again = seq![(0, reverted_in)];
    lemma_revert_progress(defined, listed, Some(1), false, ignore_missing, again, 1);
    assert(again.take(1) == again);
    let undone = run(revert_ready(defined, listed, revert), commits(again));
    lemma_run_unfold(undone, seq![EventView::Reported]);
    let second = successful_run(defined, revert, listed, again);
    assert(second.ledger =~= empty) by {
        let plan = revert_outcome(
            defined,
            listed,
            requested_reverts(defined, listed, Some(1), false),
            ignore_missing,
        )->Ok_0;
        let steps = plan.take(1);
        assert(second.ledger == undone.ledger);
        assert(steps[0] == d.version);
        assert(steps.contains(d.version));
    }
}

/// A revert of no migration, and an apply that finds nothing pending, end
/// well without a step: the ledger stays what the store listed.
pub proof fn lemma_no_op(
    defined: Seq<MigrationDefinitionView>,
    applied: Seq<AppliedRecordView>,
    ignore_missing: bool,
)
    requires
        missing_failure(defined, applied, ignore_missing) is None,
    ensures
        ({
            let revert = Request::Revert { count: Some(0), all: false, ignore_missing };
            let t = successful_run(defined, revert, applied, Seq::empty());
            &&& t.phase == Phase::Done
            &&& t.failure is None
            &&& t.plan.len() == 0
            &&& t.done == 0
            &&& t.ledger == records_as_map(applied)
        }),
        apply_outcome(defined, applied, ignore_missing) == Ok::<_, MigrationErrorView>(
            Seq::<Version>::empty(),
        ) ==> ({
            let apply = Request::Apply { ignore_missing };
            let t = successful_run(defined, apply, applied, Seq::empty());
            &&& t.phase == Phase::Done
            &&& t.failure is None
            &&& t.done == 0
            &&& t.ledger == records_as_map(applied)
        }),
{
    let ledger = records_as_map(applied);
    let revert = Request::Revert { count: Some(0), all: false, ignore_missing };
    let apply = Request::Apply { ignore_missing };
    assert(revert_versions(defined, ledger, 0) =~= Seq::<Version>::empty());
    assert(commits(Seq::empty()) =~= Seq::empty());
    let listed = seq![EventView::Connected, EventView::Listed { applied }];
    lemma_run_unfold(initial(defined, revert), listed);
    let reverting = run(initial(defined, revert), listed);
    lemma_run_unfold(reverting, commits(Seq::empty()));
    lemma_run_unfold(reverting, seq![EventView::Reported]);
    lemma_run_unfold(initial(defined, apply), listed);
    let applying = run(initial(defined, apply), listed);
    lemma_run_unfold(applying, commits(Seq::empty()));
    lemma_run_unfold(applying, seq![EventView::Reported]);
}

/// What the request decides once the store has listed `applied`: nothing
/// where it is refused, and the failure that refuses it.
pub open spec fn refusal(
    defined: Seq<MigrationDefinitionView>,
    request: Request,
    applied: Seq<AppliedRecordView>,
) -> Option<MigrationErrorView> {
    match request {
        Request::Status { ignore_missing } => match status_outcome(
            defined,
            applied,
            ignore_missing,
        ) {
            Ok(_) => None,
            Err(e) => Some(e),
        },
        Request::Apply { ignore_missing } => match apply_outcome(defined, applied, ignore_missing) {
            Ok(_) => None,
            Err(e) => Some(e),
        },
        Request::Revert { count, all, ignore_missing } => match revert_outcome(
            defined,
            applied,
            requested_reverts(defined, applied, count, all),
            ignore_missing,
        ) {
            Ok(_) => None,
            Err(e) => Some(e),
        },
    }
}

/// A request that is refused fails the run before any step: the failure is
/// the one that refuses it, the engine asks for nothing more whatever
/// happens afterwards, and the ledger it holds is the one that the store
/// listed. A status run is never refused for an edited migration, and a
/// request is refused for missing versions only where they are not
/// tolerated.
pub proof fn lemma_refused_is_final(
    defined: Seq<MigrationDefinitionView>,
    request: Request,
    applied: Seq<AppliedRecordView>,
    later: EventView,
)
    requires
        refusal(defined, request, applied) is Some,
    ensures
        ({
            let t = run(
                initial(defined, request),
                seq![EventView::Connected, EventView::Listed { applied }],
            );
            &&& t.phase == Phase::Failed
            &&& t.failure == refusal(defined, request, applied)
            &&& t.ledger == records_as_map(applied)
            &&& t.done == 0
            &&& action_of(t) == Action::Abort
            &&& transition(t, later) == t
        }),
        request is Status ==> !(refusal(defined, request, applied)->Some_0 is ModifiedMigration),
        refusal(defined, request, applied)->Some_0 is MissingMigration ==> !match request {
            Request::Status { ignore_missing } => ignore_missing,
            Request::Apply { ignore_missing } => ignore_missing,
            Request::Revert { ignore_missing, .. } => ignore_missing,
        },
{
    lemma_run_unfold(
        initial(defined, request),
        seq![EventView::Connected, EventView::Listed { applied }],
    );
}

/// A store that cannot be reached fails the run before anything is
/// changed, whether it is found out on connecting or on listing.
pub proof fn lemma_unreachable_is_final(
    defined: Seq<MigrationDefinitionView>,
    request: Request,
    later: EventView,
)
    ensures
        ({
            let t = transition(initial(defined, request), EventView::Unreachable);
            &&& t.phase == Phase::Failed
            &&& t.failure == Some(MigrationErrorView::Connectivity)
            &&& t.done == 0
            &&& action_of(t) == Action::Abort
            &&& transition(t, later) == t
        }),
        ({
            let t = transition(
                transition(initial(defined, request), EventView::Connected),
                EventView::Unreachable,
            );
            &&& t.phase == Phase::Failed
            &&& t.failure == Some(MigrationErrorView::Connectivity)
            &&& t.done == 0
            &&& action_of(t) == Action::Abort
            &&& transition(t, later) == t
        }),
{
}

/// A script that fails stops the batch at its version. What was committed
/// before it in the same run stays in the ledger, and nothing is asked for
/// afterwards.
pub proof fn lemma_failed_step_stops(s: EngineView, later: EventView)
    requires
        s.phase == Phase::Executing,
        s.done < s.plan.len(),
    ensures
        ({
            let t = transition(s, EventView::RolledBack);
            &&& t.phase == Phase::Failed
            &&& t.failure == Some(MigrationErrorView::Execution { version: s.plan[s.done as int] })
            &&& t.ledger == s.ledger
            &&& t.done == s.done
            &&& action_of(t) == Action::Abort
            &&& transition(t, later) == t
        }),
{
}

/// Every record of the ledger belongs to a defined migration and carries
/// the checksum of its definition.
pub open spec fn ledger_sound(
    defined: Seq<MigrationDefinitionView>,
    ledger: Map<Version, AppliedRecordView>,
) -> bool {
    forall|v: Version| #[trigger]
        ledger.dom().contains(v) ==> defines(defined, v) && ledger[v].content_checksum
            == defined[definition_index(defined, v)].content_checksum
}

/// An apply that is not refused, at a store where nothing is missing, finds
/// the ledger sound and keeps it so at every step: each record belongs to a
/// defined migration and has the checksum of its definition.
pub proof fn lemma_apply_keeps_ledger_sound(
    defined: Seq<MigrationDefinitionView>,
    applied: Seq<AppliedRecordView>,
    ignore_missing: bool,
    stamps: Seq<(int, int)>,
    k: int,
)
    requires
        definitions_ascending(defined),
        records_ascending(applied),
        missing_versions(applied, defined).len() == 0,
        apply_outcome(defined, applied, ignore_missing) is Ok,
        0 <= k <= stamps.len(),
        stamps.len() == apply_outcome(defined, applied, ignore_missing)->Ok_0.len(),
    ensures
        ledger_sound(
            defined,
            run(apply_ready(defined, applied, ignore_missing), commits(stamps.take(k))).ledger,
        ),
{
    let plan = apply_outcome(defined, applied, ignore_missing)->Ok_0;
    let before = records_as_map(applied);
    let t = run(apply_ready(defined, applied, ignore_missing), commits(stamps.take(k)));
    lemma_apply_progress(defined, applied, ignore_missing, stamps, k);
    lemma_filter_empty(applied, is_undefined(defined));
    lemma_filter_empty(defined, has_drifted(before));
    let steps = plan.take(k);
    assert forall|v: Version| #[trigger] t.ledger.dom().contains(v) implies defines(defined, v)
        && t.ledger[v].content_checksum == defined[definition_index(
        defined,
        v,
    )].content_checksum by {
        if before.dom().contains(v) {
            let i = record_index(applied, v);
            assert(applied[i].version == v);
            assert(!is_undefined(defined)(applied[i]));
            let j = definition_index(defined, v);
            assert(defined[j].version == v);
            assert(!has_drifted(before)(defined[j]));
        } else {
            assert(steps.contains(v));
            let i = choose|i: int| 0 <= i < steps.len() && steps[i] == v;
            assert(plan[i] == v);
        }
    }
}

/// A run keeps the request it was started with.
pub proof fn lemma_run_keeps_request(s: EngineView, events: Seq<EventView>)
    ensures
        run(s, events).request == s.request,
        run(s, events).defined == s.defined,
    decreases events.len(),
{
    if events.len() > 0 {
        lemma_run_keeps_request(s, events.drop_last());
    }
}

/// A status run only reads: whatever happens, the engine never asks for a
/// migration to be applied or reverted.
pub proof fn lemma_status_reads_only(
    defined: Seq<MigrationDefinitionView>,
    ignore_missing: bool,
    events: Seq<EventView>,
)
    ensures
        !(action_of(run(initial(defined, Request::Status { ignore_missing }), events)) is Apply),
        !(action_of(run(initial(defined, Request::Status { ignore_missing }), events)) is Revert),
{
    lemma_run_keeps_request(initial(defined, Request::Status { ignore_missing }), events);
}

} // verus!
