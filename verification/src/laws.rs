//! Properties that hold across the library's operations.
use vstd::prelude::*;

use crate::calendar::{civil_date_after_days, day_after, days_in_month, is_valid_date, CivilDate, UtcDateTime};
use crate::recurrence::{completion_ensures, next_scheduled_date, Frequency, RecurrenceRule, TaskCompletion};
use crate::task::{built_from_draft, draft_is_valid, patch_is_valid, patched_task, Task, TaskDraft, TaskPatch};
use crate::text::trimmed;
use crate::error::{AppError, AppErrorKind};
use crate::task::is_title_valid;
use crate::project::is_project_name_valid;
use crate::commands::tag_name_valid;
use crate::reminders::lease_expiry_of;
use crate::webdav::{is_status_error, is_success};
use crate::storage::{priority_name, words};
use crate::task::Priority;
use crate::text::whitespace;
use crate::quick_panel::{clamp_axis, clamp_int};
use crate::sync_service::{interval_seconds, SyncFrequency};
use crate::recurrence::month_step;
use crate::sync::{field_map, fields_sorted, lemma_field_map_at, SyncEntity, SyncField};
use crate::sync_merge::{
    all_wf, fields_view, has_key, is_last_with_key, key_set,
    conflict_key, entity_key, has_conflict, in_any_fields, is_field_conflict, is_merge_plan,
    is_merged_entity, lookup, merge_keys, merged_fields, plan_conflict_ok, plan_entity_ok,
    same_entity, value_of, yields_entity, json_view,
};
use crate::sync_merge::{MergeDecision, MergePlan, SyncFieldConflict, SyncValue};
use crate::sync_resolve::{decision_result, object_text};
use crate::task_query::{in_view, TaskView, ViewFacts};

verus! {

/// Merging a snapshot with itself on both sides changes nothing: the plan
/// has no conflicts, and every entity keeps the fields it had.
pub proof fn lemma_merge_unchanged_snapshot(plan: MergePlan, base: Seq<SyncEntity>)
    requires
        is_merge_plan(plan, base, base, base),
    ensures
        plan.conflicts@.len() == 0,
        forall|i: int| 0 <= i < plan.entities@.len() ==> {
            let k = entity_key(#[trigger] plan.entities@[i]);
            lookup(base, k) matches Some(e) && field_map(plan.entities@[i].fields@) == field_map(e.fields@)
        },
{
    if plan.conflicts@.len() > 0 {
        let c = plan.conflicts@[0];
        assert(plan_conflict_ok(base, base, base, c));
        let k = crate::sync_merge::conflict_key(c);
        match lookup(base, k) {
            Some(x) => {
                assert(same_entity(x, x));
                assert(!has_conflict(Some(x), Some(x), Some(x), c.field_name@));
            },
            None => {},
        }
        assert(false);
    }
    assert forall|i: int| 0 <= i < plan.entities@.len() implies {
        let k = entity_key(#[trigger] plan.entities@[i]);
        lookup(base, k) matches Some(e) && field_map(plan.entities@[i].fields@) == field_map(e.fields@)
    } by {
        let e = plan.entities@[i];
        assert(plan_entity_ok(base, base, base, e));
        let k = entity_key(e);
        let x = lookup(base, k)->Some_0;
        assert(merged_fields(x, x, x) =~= field_map(x.fields@));
    }
}

proof fn lemma_has_conflict_symmetric(b: Option<SyncEntity>, l: Option<SyncEntity>, r: Option<SyncEntity>, n: Seq<char>)
    ensures
        has_conflict(b, l, r, n) == has_conflict(b, r, l, n),
        yields_entity(b, l, r) == yields_entity(b, r, l),
{
    match (b, l, r) {
        (Some(x), Some(y), Some(z)) => {
            assert(in_any_fields(x, y, z, n) == in_any_fields(x, z, y, n));
            assert(is_field_conflict(x, y, z, n) == is_field_conflict(x, z, y, n));
        },
        (None, Some(y), Some(z)) => {
            assert(same_entity(y, z) == same_entity(z, y));
        },
        _ => {},
    }
}

/// Swapping the local and the remote side finds the same conflicts: a
/// field of a key conflicts in one merge exactly when it does in the
/// other, and a key gives an entity in one exactly when it does in the other.
pub proof fn lemma_merge_sides_symmetric(
    p: MergePlan,
    q: MergePlan,
    base: Seq<SyncEntity>,
    local: Seq<SyncEntity>,
    remote: Seq<SyncEntity>,
    k: (u8, u128),
    n: Seq<char>,
)
    requires
        is_merge_plan(p, base, local, remote),
        is_merge_plan(q, base, remote, local),
    ensures
        (exists|i: int| 0 <= i < p.conflicts@.len() && conflict_key(p.conflicts@[i]) == k && p.conflicts@[i].field_name@ == n)
            <==> (exists|j: int| 0 <= j < q.conflicts@.len() && conflict_key(q.conflicts@[j]) == k && q.conflicts@[j].field_name@
            == n),
        (exists|i: int| 0 <= i < p.entities@.len() && entity_key(p.entities@[i]) == k) <==> (exists|j: int|
            0 <= j < q.entities@.len() && entity_key(q.entities@[j]) == k),
{
    assert(merge_keys(base, local, remote) =~= merge_keys(base, remote, local));
    let (lb, ll, lr) = (lookup(base, k), lookup(local, k), lookup(remote, k));
    lemma_has_conflict_symmetric(lb, ll, lr, n);
    if exists|i: int| 0 <= i < p.conflicts@.len() && conflict_key(p.conflicts@[i]) == k && p.conflicts@[i].field_name@ == n {
        let i = choose|i: int| 0 <= i < p.conflicts@.len() && conflict_key(p.conflicts@[i]) == k && p.conflicts@[i].field_name@ == n;
        assert(plan_conflict_ok(base, local, remote, p.conflicts@[i]));
        assert(merge_keys(base, remote, local).contains(k));
        assert(has_conflict(lb, lr, ll, n));
    }
    if exists|j: int| 0 <= j < q.conflicts@.len() && conflict_key(q.conflicts@[j]) == k && q.conflicts@[j].field_name@ == n {
        let j = choose|j: int| 0 <= j < q.conflicts@.len() && conflict_key(q.conflicts@[j]) == k && q.conflicts@[j].field_name@ == n;
        assert(plan_conflict_ok(base, remote, local, q.conflicts@[j]));
        assert(merge_keys(base, local, remote).contains(k));
        assert(has_conflict(lb, ll, lr, n));
    }
    if exists|i: int| 0 <= i < p.entities@.len() && entity_key(p.entities@[i]) == k {
        let i = choose|i: int| 0 <= i < p.entities@.len() && entity_key(p.entities@[i]) == k;
        assert(plan_entity_ok(base, local, remote, p.entities@[i]));
        assert(is_merged_entity(p.entities@[i], lb, ll, lr));
        assert(yields_entity(lb, ll, lr));
        assert(merge_keys(base, remote, local).contains(k));
        assert(yields_entity(lb, lr, ll));
    }
    if exists|j: int| 0 <= j < q.entities@.len() && entity_key(q.entities@[j]) == k {
        let j = choose|j: int| 0 <= j < q.entities@.len() && entity_key(q.entities@[j]) == k;
        assert(plan_entity_ok(base, remote, local, q.entities@[j]));
        assert(is_merged_entity(q.entities@[j], lb, lr, ll));
        assert(yields_entity(lb, lr, ll));
        assert(merge_keys(base, local, remote).contains(k));
        assert(yields_entity(lb, ll, lr));
    }
}

/// A window that fits in the work area along an axis is placed inside it.
pub proof fn lemma_clamp_keeps_window_inside(v: int, low: int, room: int, extent: int)
    requires
        0 <= extent <= room,
        i32::MIN <= low,
        low + room <= i32::MAX,
    ensures
        low <= clamp_axis(v, low, room, extent),
        clamp_axis(v, low, room, extent) + extent <= low + room,
        low <= v && v + extent <= low + room ==> clamp_axis(v, low, room, extent) == v,
{
}

/// The stored secrets of the settings never overwrite one another: a
/// password and a passphrase are kept under different keys whatever the
/// users, and two users share a key of either kind only if they are the
/// same user.
pub proof fn lemma_secret_keys_are_distinct(first_user: Seq<char>, second_user: Seq<char>)
    ensures
        "webdav:"@ + first_user != "encryption:"@ + second_user,
        "webdav:"@ + first_user == "webdav:"@ + second_user ==> first_user == second_user,
        "encryption:"@ + first_user == "encryption:"@ + second_user ==> first_user == second_user,
{
    reveal_strlit("webdav:");
    reveal_strlit("encryption:");
    assert(("webdav:"@ + first_user)[0] == 'w');
    assert(("encryption:"@ + second_user)[0] == 'e');
    if "webdav:"@ + first_user == "webdav:"@ + second_user {
        let n = "webdav:"@.len() as int;
        assert(first_user =~= ("webdav:"@ + first_user).subrange(n, n + first_user.len()));
        assert(second_user =~= ("webdav:"@ + second_user).subrange(n, n + second_user.len()));
    }
    if "encryption:"@ + first_user == "encryption:"@ + second_user {
        let n = "encryption:"@.len() as int;
        assert(first_user =~= ("encryption:"@ + first_user).subrange(n, n + first_user.len()));
        assert(second_user =~= ("encryption:"@ + second_user).subrange(n, n + second_user.len()));
    }
}

/// A monthly step of at least one month lands in a later month: the next
/// instance of a monthly or yearly rule never falls on or before the month
/// of the instance it follows.
pub proof fn lemma_month_step_moves_forward(date: CivilDate, months: int, anchor: Option<u8>)
    requires
        date.wf(),
        months >= 1,
        month_step(date, months, anchor) is Some,
    ensures
        ({
            let next = month_step(date, months, anchor)->Some_0;
            next.0 > date.year || (next.0 == date.year && next.1 > date.month)
        }),
{
    let index = date.year * 12 + (date.month - 1) + months;
    let year = index / 12;
    let month = index % 12 + 1;
    assert(index == year * 12 + (month - 1) && 1 <= month <= 12) by (nonlinear_arith)
        requires
            year == index / 12,
            month == index % 12 + 1,
    ;
    assert(year > date.year || (year == date.year && month > date.month)) by (nonlinear_arith)
        requires
            index == year * 12 + (month - 1),
            index == date.year * 12 + (date.month - 1) + months,
            1 <= month <= 12,
            1 <= date.month <= 12,
            months >= 1,
    ;
}

/// Calendar membership follows a task's schedule alone: two top-level tasks
/// scheduled on the same day are both in a calendar view or both out of it,
/// whatever their completion and project, and an unscheduled task is in no
/// calendar view.
pub proof fn lemma_calendar_follows_schedule(start: CivilDate, end: CivilDate, a: ViewFacts, b: ViewFacts)
    requires
        a.is_top_level == b.is_top_level,
        a.scheduled_day == b.scheduled_day,
    ensures
        in_view((TaskView::Calendar { start, end }), a) == in_view((TaskView::Calendar { start, end }), b),
        a.scheduled_day is None ==> !in_view((TaskView::Calendar { start, end }), a),
{
}

proof fn lemma_lookup_found(entities: Seq<SyncEntity>, key: (u8, u128))
    requires
        has_key(entities, key),
    ensures
        exists|i: int| is_last_with_key(entities, key, i),
        lookup(entities, key) matches Some(e) && exists|i: int| 0 <= i < entities.len() && e == entities[i],
    decreases entities.len(),
{
    let n = entities.len() as int;
    if entity_key(entities[n - 1]) == key {
        assert(is_last_with_key(entities, key, n - 1));
    } else {
        let d = entities.drop_last();
        let w = choose|i: int| 0 <= i < entities.len() && entity_key(entities[i]) == key;
        assert(0 <= w < d.len() && entity_key(d[w]) == key);
        lemma_lookup_found(d, key);
        let i = choose|i: int| is_last_with_key(d, key, i);
        assert forall|j: int| i < j < entities.len() implies entity_key(entities[j]) != key by {
            if j < n - 1 {
                assert(d[j] == entities[j]);
            }
        }
        assert(is_last_with_key(entities, key, i));
    }
    let j = choose|i: int| is_last_with_key(entities, key, i);
    assert(0 <= j < entities.len());
}

proof fn lemma_same_fields(a: Seq<SyncField>, b: Seq<SyncField>)
    requires
        fields_sorted(a),
        fields_sorted(b),
        fields_view(a) == fields_view(b),
    ensures
        field_map(a) == field_map(b),
{
    assert(fields_view(a).len() == a.len() && fields_view(b).len() == b.len());
    assert forall|i: int| 0 <= i < a.len() implies a[i].name@ == b[i].name@ && a[i].value@ == b[i].value@ by {
        assert(fields_view(a)[i] == fields_view(b)[i]);
    }
    assert forall|n: Seq<char>| field_map(a).contains_key(n) <==> field_map(b).contains_key(n) by {
        if field_map(a).contains_key(n) {
            let i = choose|i: int| 0 <= i < a.len() && a[i].name@ == n;
            assert(0 <= i < b.len() && b[i].name@ == n);
        }
        if field_map(b).contains_key(n) {
            let i = choose|i: int| 0 <= i < b.len() && b[i].name@ == n;
            assert(0 <= i < a.len() && a[i].name@ == n);
        }
    }
    assert forall|n: Seq<char>| field_map(a).contains_key(n) implies field_map(a)[n] == field_map(b)[n] by {
        let i = choose|i: int| 0 <= i < a.len() && a[i].name@ == n;
        lemma_field_map_at(a, i);
        lemma_field_map_at(b, i);
    }
    assert(field_map(a) =~= field_map(b));
}

/// The plan has an entity with the key.
pub open spec fn is_planned(plan: MergePlan, k: (u8, u128)) -> bool {
    exists|i: int| 0 <= i < plan.entities@.len() && entity_key(plan.entities@[i]) == k
}

/// Merging with a remote side that has not changed since the baseline gives
/// the local side: nothing conflicts, each planned entity is the local
/// version of its key, field for field, and every local entity is planned.
pub proof fn lemma_merge_with_unchanged_remote(plan: MergePlan, base: Seq<SyncEntity>, local: Seq<SyncEntity>)
    requires
        is_merge_plan(plan, base, local, base),
        all_wf(base),
        all_wf(local),
    ensures
        plan.conflicts@.len() == 0,
        forall|i: int| 0 <= i < plan.entities@.len() ==> {
            let e = #[trigger] plan.entities@[i];
            lookup(local, entity_key(e)) matches Some(y) && e.id == y.id && e.kind == y.kind && e.deleted
                == y.deleted && field_map(e.fields@) == field_map(y.fields@)
        },
        forall|j: int| 0 <= j < local.len() ==> is_planned(plan, entity_key(#[trigger] local[j])),
{
    if plan.conflicts@.len() > 0 {
        let c = plan.conflicts@[0];
        assert(plan_conflict_ok(base, local, base, c));
        let k = conflict_key(c);
        match (lookup(base, k), lookup(local, k)) {
            (Some(x), _) => {
                assert(same_entity(x, x));
            },
            _ => {},
        }
        assert(false);
    }
    assert forall|i: int| 0 <= i < plan.entities@.len() implies {
        let e = #[trigger] plan.entities@[i];
        lookup(local, entity_key(e)) matches Some(y) && e.id == y.id && e.kind == y.kind && e.deleted
            == y.deleted && field_map(e.fields@) == field_map(y.fields@)
    } by {
        let e = plan.entities@[i];
        assert(plan_entity_ok(base, local, base, e));
        let k = entity_key(e);
        match (lookup(base, k), lookup(local, k)) {
            (Some(x), Some(y)) => {
                assert(merged_fields(x, y, x) =~= field_map(y.fields@));
            },
            (None, Some(y)) => {
                lemma_lookup_found(local, k);
                assert(y.wf());
                lemma_same_fields(e.fields@, y.fields@);
            },
            _ => {},
        }
    }
    assert forall|j: int| 0 <= j < local.len() implies is_planned(plan, entity_key(#[trigger] local[j])) by {
        let k = entity_key(local[j]);
        assert(has_key(local, k));
        assert(key_set(local).contains(k));
        assert(merge_keys(base, local, base).contains(k));
        lemma_lookup_found(local, k);
        assert(yields_entity(lookup(base, k), lookup(local, k), lookup(base, k)));
        assert(merge_keys(base, local, base).contains(k) && yields_entity(lookup(base, k), lookup(local, k), lookup(base, k)));
        let i = choose|i: int| 0 <= i < plan.entities@.len() && entity_key(plan.entities@[i]) == k;
        assert(0 <= i < plan.entities@.len() && entity_key(plan.entities@[i]) == entity_key(local[j]));
    }
}

/// The names of the fields that each side of a merge derives for itself.
pub open spec fn names_a_derived_field(n: Seq<char>) -> bool {
    n == "id"@ || n == "created_at"@ || n == "updated_at"@ || n == "revision"@ || n == "reminder_sent_at"@
}

/// The three versions, baseline, local and remote, of the key of a planned
/// entity, where all three exist.
pub open spec fn three_versions(
    plan: MergePlan,
    base: Seq<SyncEntity>,
    local: Seq<SyncEntity>,
    remote: Seq<SyncEntity>,
    i: int,
) -> (SyncEntity, SyncEntity, SyncEntity) {
    let k = entity_key(plan.entities@[i]);
    (lookup(base, k)->Some_0, lookup(local, k)->Some_0, lookup(remote, k)->Some_0)
}

/// Field by field, a merged entity takes a change made on one side only:
/// where only the remote side changed a field since the baseline, the
/// merged entity holds the remote value, for every field but id,
/// created_at, updated_at, revision and reminder_sent_at, which each side
/// derives for itself and which keep the local value; where the local side
/// changed a field, or the remote side left it as it was, the local value
/// stays. A field that is missing is missing from the merged entity too.
pub proof fn lemma_merge_takes_one_sided_changes(
    plan: MergePlan,
    base: Seq<SyncEntity>,
    local: Seq<SyncEntity>,
    remote: Seq<SyncEntity>,
    i: int,
    n: Seq<char>,
)
    requires
        is_merge_plan(plan, base, local, remote),
        0 <= i < plan.entities@.len(),
        lookup(base, entity_key(plan.entities@[i])) is Some,
        lookup(local, entity_key(plan.entities@[i])) is Some,
        lookup(remote, entity_key(plan.entities@[i])) is Some,
    ensures
        ({
            let (x, y, z) = three_versions(plan, base, local, remote, i);
            let e = plan.entities@[i];
            &&& !names_a_derived_field(n) && value_of(y, n) == value_of(x, n) && value_of(z, n) != value_of(x, n)
                ==> value_of(e, n) == value_of(z, n)
            &&& names_a_derived_field(n) ==> value_of(e, n) == value_of(y, n)
            &&& value_of(y, n) != value_of(x, n) ==> value_of(e, n) == value_of(y, n)
            &&& value_of(z, n) == value_of(x, n) ==> value_of(e, n) == value_of(y, n)
        }),
{
    let e = plan.entities@[i];
    assert(plan_entity_ok(base, local, remote, e));
    let (x, y, z) = three_versions(plan, base, local, remote, i);
    assert(field_map(e.fields@) == merged_fields(x, y, z));
}

/// A field changed on both sides, to different values, is reported as a
/// conflict of its entity, unless it is one of the fields that each side
/// derives for itself (id, created_at, updated_at, revision and
/// reminder_sent_at), which never conflict.
pub proof fn lemma_merge_reports_two_sided_changes(
    plan: MergePlan,
    base: Seq<SyncEntity>,
    local: Seq<SyncEntity>,
    remote: Seq<SyncEntity>,
    i: int,
    n: Seq<char>,
)
    requires
        is_merge_plan(plan, base, local, remote),
        0 <= i < plan.entities@.len(),
        lookup(base, entity_key(plan.entities@[i])) is Some,
        lookup(local, entity_key(plan.entities@[i])) is Some,
        lookup(remote, entity_key(plan.entities@[i])) is Some,
    ensures
        ({
            let (x, y, z) = three_versions(plan, base, local, remote, i);
            let k = entity_key(plan.entities@[i]);
            &&& !names_a_derived_field(n) && value_of(y, n) != value_of(x, n) && value_of(z, n) != value_of(x, n)
                && value_of(y, n) != value_of(z, n) ==> exists|j: int|
                0 <= j < plan.conflicts@.len() && conflict_key(plan.conflicts@[j]) == k
                    && plan.conflicts@[j].field_name@ == n
            &&& names_a_derived_field(n) ==> forall|j: int|
                0 <= j < plan.conflicts@.len() && conflict_key(#[trigger] plan.conflicts@[j]) == k
                    ==> plan.conflicts@[j].field_name@ != n
        }),
{
    let e = plan.entities@[i];
    assert(plan_entity_ok(base, local, remote, e));
    let k = entity_key(e);
    let (x, y, z) = three_versions(plan, base, local, remote, i);
    if !names_a_derived_field(n) && value_of(y, n) != value_of(x, n) && value_of(z, n) != value_of(x, n)
        && value_of(y, n) != value_of(z, n) {
        assert(in_any_fields(x, y, z, n));
        assert(has_conflict(lookup(base, k), lookup(local, k), lookup(remote, k), n));
    }
    if names_a_derived_field(n) {
        assert forall|j: int|
            0 <= j < plan.conflicts@.len() && conflict_key(#[trigger] plan.conflicts@[j]) == k
                implies plan.conflicts@[j].field_name@ != n by {
            assert(plan_conflict_ok(base, local, remote, plan.conflicts@[j]));
        }
    }
}

/// The views of tasks split them as the lists of the application do: only
/// top-level tasks are listed, each either open (in the inbox) or completed
/// (in the completed list); the open scheduled ones are split by a day
/// between today (scheduled on the day or before it) and upcoming
/// (scheduled after it), and no task is in both; a project lists the open
/// tasks of the project; the quick panel shows today's tasks and the ones
/// completed on the day.
pub proof fn lemma_views_split_the_tasks(day: CivilDate, project: u128, f: ViewFacts)
    ensures
        !f.is_top_level ==> !in_view(TaskView::Inbox, f) && !in_view(TaskView::Completed, f) && !in_view(
            TaskView::Today { day },
            f,
        ) && !in_view(TaskView::Upcoming { day }, f) && !in_view(TaskView::Project(project), f),
        f.is_top_level ==> (in_view(TaskView::Inbox, f) <==> !in_view(TaskView::Completed, f)),
        in_view(TaskView::Completed, f) ==> f.is_completed,
        !(in_view(TaskView::Today { day }, f) && in_view(TaskView::Upcoming { day }, f)),
        in_view(TaskView::Today { day }, f) || in_view(TaskView::Upcoming { day }, f) <==> in_view(TaskView::Inbox, f)
            && f.scheduled_day is Some,
        f.scheduled_day matches Some(s) && !day.is_before(s) ==> (in_view(TaskView::Today { day }, f) <==> in_view(
            TaskView::Inbox,
            f,
        )),
        f.scheduled_day matches Some(s) && day.is_before(s) ==> (in_view(TaskView::Upcoming { day }, f) <==> in_view(
            TaskView::Inbox,
            f,
        )),
        in_view(TaskView::Project(project), f) <==> in_view(TaskView::Inbox, f) && f.project_id == Some(project),
        in_view(TaskView::QuickPanelToday { day }, f) <==> in_view(TaskView::Today { day }, f) || (in_view(
            TaskView::Completed,
            f,
        ) && f.completed_day == Some(day)),
{
}

/// A calendar view from `start` up to `end` holds the top-level tasks
/// scheduled on its first day, and none scheduled on its end day.
pub proof fn lemma_calendar_bounds(start: CivilDate, end: CivilDate, f: ViewFacts)
    ensures
        f.is_top_level && f.scheduled_day == Some(start) && start.is_before(end) ==> in_view(
            TaskView::Calendar { start, end },
            f,
        ),
        f.scheduled_day == Some(end) ==> !in_view(TaskView::Calendar { start, end }, f),
{
}

/// The rule repeats monthly or yearly.
pub open spec fn repeats_by_month(rule: Option<RecurrenceRule>) -> bool {
    rule matches Some(r) && (r.frequency == Frequency::Monthly || r.frequency == Frequency::Yearly)
}

/// Completing a task marks that very task completed, one revision on; the
/// next instance of a recurring task is a copy of it: the same title, note,
/// project, parent, priority, due date and rule, but open, not reminded, one
/// instance further on, created when the task was completed, at the first
/// revision, and scheduled at the same time of day. A task that already has
/// an anchor day passes it on; a monthly or yearly one without one gets the
/// day of the month it was scheduled on.
pub proof fn lemma_next_instance_copies_the_task(
    c: TaskCompletion,
    task: Task,
    completed_at: UtcDateTime,
    id: u128,
)
    requires
        completion_ensures(Ok(c), task, completed_at, id),
    ensures
        c.completed_task == (Task {
            completed_at: Some(completed_at),
            updated_at: completed_at,
            revision: (task.revision + 1) as i64,
            ..task
        }),
        task.recurrence is None ==> c.next_task is None,
        c.next_task matches Some(next) ==> {
            &&& next == (Task {
                id,
                scheduled_at: next.scheduled_at,
                completed_at: None,
                reminder_sent_at: None,
                instance_number: (task.instance_number + 1) as u32,
                monthly_anchor_day: next.monthly_anchor_day,
                created_at: completed_at,
                updated_at: completed_at,
                revision: 1,
                ..task
            })
            &&& next.instance_number == task.instance_number + 1
            &&& task.scheduled_at matches Some(s) && next.scheduled_at matches Some(t)
                && t.second_of_day == s.second_of_day && t.nanosecond == s.nanosecond
            &&& task.monthly_anchor_day is Some ==> next.monthly_anchor_day == task.monthly_anchor_day
            &&& next.scheduled_at->Some_0.date@ == next_scheduled_date(
                task.scheduled_at->Some_0,
                task.recurrence->Some_0,
                task.monthly_anchor_day,
            )->Some_0
            &&& task.recurrence->Some_0.count is Some ==> next.instance_number <= task.recurrence->Some_0.count->Some_0
            &&& task.recurrence->Some_0.until is Some ==> !task.recurrence->Some_0.until->Some_0.is_before(
                next.scheduled_at->Some_0.date,
            )
            &&& task.monthly_anchor_day is None && repeats_by_month(task.recurrence) ==> next.monthly_anchor_day
                == Some(task.scheduled_at->Some_0.date.day as u8)
        },
{
    if let Some(next) = c.next_task {
        let next_copy = Task {
            id,
            scheduled_at: next.scheduled_at,
            completed_at: None,
            reminder_sent_at: None,
            instance_number: (task.instance_number + 1) as u32,
            monthly_anchor_day: next.monthly_anchor_day,
            created_at: completed_at,
            updated_at: completed_at,
            revision: 1,
            ..task
        };
        assert(next == next_copy);
    }
}

/// A task made from a draft carries the draft: its trimmed title, note,
/// project, parent, priority, schedule, due date and rule; it is open, not
/// reminded, the first instance, at the first revision, created at the
/// instant given. A monthly or yearly task scheduled on a day is anchored
/// on that day of the month; any other task has no anchor day.
pub proof fn lemma_task_from_draft(task: Task, draft: TaskDraft, id: u128, now: UtcDateTime)
    requires
        built_from_draft(task, draft, id, now),
    ensures
        task == (Task {
            id,
            title: task.title,
            note: draft.note,
            project_id: draft.project_id,
            parent_id: draft.parent_id,
            priority: draft.priority,
            scheduled_at: draft.scheduled_at,
            due_at: draft.due_at,
            completed_at: None,
            reminder_sent_at: None,
            recurrence: draft.recurrence,
            instance_number: 1,
            monthly_anchor_day: task.monthly_anchor_day,
            created_at: now,
            updated_at: now,
            revision: 1,
        }),
        task.title@ == trimmed(draft.title@),
        repeats_by_month(draft.recurrence) && draft.scheduled_at is Some ==> task.monthly_anchor_day == Some(
            draft.scheduled_at->Some_0.date.day as u8,
        ),
        draft.recurrence is None ==> task.monthly_anchor_day is None,
        draft.scheduled_at is None ==> task.monthly_anchor_day is None,
        draft.recurrence is Some && !repeats_by_month(draft.recurrence) ==> task.monthly_anchor_day is None,
{
    let copy = Task {
        id,
        title: task.title,
        note: draft.note,
        project_id: draft.project_id,
        parent_id: draft.parent_id,
        priority: draft.priority,
        scheduled_at: draft.scheduled_at,
        due_at: draft.due_at,
        completed_at: None,
        reminder_sent_at: None,
        recurrence: draft.recurrence,
        instance_number: 1,
        monthly_anchor_day: task.monthly_anchor_day,
        created_at: now,
        updated_at: now,
        revision: 1,
    };
    assert(task == copy);
}

/// A patch sets each field it names to the value it names and leaves every
/// other field as it was: the title (trimmed), note, project, parent,
/// priority, schedule, due date, completion and rule. The patched task keeps
/// its identifier, instance and creation, is updated at the instant given,
/// one revision on. Its reminder marker is cleared when the schedule
/// changes or a completed task is reopened, and kept otherwise. A daily or
/// weekly rule has no anchor day; a monthly or yearly rule keeps the anchor
/// day the task had, or takes the day of the month of the schedule.
pub proof fn lemma_patch_sets_what_it_names(new: Task, task: Task, patch: TaskPatch, now: UtcDateTime)
    requires
        patched_task(new, task, patch, now),
    ensures
        patch.title matches Some(t) ==> new.title@ == trimmed(t@),
        patch.title is None ==> new.title == task.title,
        patch.note matches Some(v) ==> new.note == v,
        patch.note is None ==> new.note == task.note,
        patch.project_id matches Some(v) ==> new.project_id == v,
        patch.project_id is None ==> new.project_id == task.project_id,
        patch.parent_id matches Some(v) ==> new.parent_id == v,
        patch.parent_id is None ==> new.parent_id == task.parent_id,
        patch.priority matches Some(v) ==> new.priority == v,
        patch.priority is None ==> new.priority == task.priority,
        patch.scheduled_at matches Some(v) ==> new.scheduled_at == v,
        patch.scheduled_at is None ==> new.scheduled_at == task.scheduled_at,
        patch.due_at matches Some(v) ==> new.due_at == v,
        patch.due_at is None ==> new.due_at == task.due_at,
        patch.completed_at matches Some(v) ==> new.completed_at == v,
        patch.completed_at is None ==> new.completed_at == task.completed_at,
        patch.recurrence matches Some(v) ==> new.recurrence == v,
        patch.recurrence is None ==> new.recurrence == task.recurrence,
        new.id == task.id,
        new.instance_number == task.instance_number,
        new.created_at == task.created_at,
        new.updated_at == now,
        new.revision == task.revision + 1,
        new.scheduled_at != task.scheduled_at ==> new.reminder_sent_at is None,
        task.completed_at is Some && new.completed_at is None ==> new.reminder_sent_at is None,
        new.scheduled_at == task.scheduled_at && !(task.completed_at is Some && patch.completed_at == Some(
            None::<UtcDateTime>,
        )) ==> new.reminder_sent_at == task.reminder_sent_at,
        new.recurrence is Some && !repeats_by_month(new.recurrence) ==> new.monthly_anchor_day is None,
        repeats_by_month(new.recurrence) && task.monthly_anchor_day is Some ==> new.monthly_anchor_day
            == task.monthly_anchor_day,
        repeats_by_month(new.recurrence) && task.monthly_anchor_day is None && new.scheduled_at is Some
            ==> new.monthly_anchor_day == Some(new.scheduled_at->Some_0.date.day as u8),
        repeats_by_month(new.recurrence) && task.monthly_anchor_day is None && new.scheduled_at is None
            ==> new.monthly_anchor_day is None,
{
}

/// Where the next instance of a rule falls: a daily rule moves its interval
/// in days, so the next day for an interval of one; a weekly rule moves seven
/// times its interval in days; a monthly rule moves the month forward by
/// exactly its interval, and a yearly rule by twelve times its interval, and
/// both land on the anchor day (the instance's own day where there is no
/// anchor) or, in a shorter month, on its last day.
pub proof fn lemma_next_schedule(s: UtcDateTime, rule: RecurrenceRule, anchor: Option<u8>)
    ensures
        rule.frequency == Frequency::Daily ==> next_scheduled_date(s, rule, anchor) == civil_date_after_days(
            s.date@,
            rule.interval as int,
        ),
        rule.frequency == Frequency::Daily && rule.interval == 1 && s.date.wf() ==> next_scheduled_date(
            s,
            rule,
            anchor,
        ) == civil_date_after_days(day_after(s.date@), 0),
        rule.frequency == Frequency::Weekly ==> next_scheduled_date(s, rule, anchor) == civil_date_after_days(
            s.date@,
            7 * rule.interval,
        ),
        ({
            let months: int = if rule.frequency == Frequency::Monthly {
                rule.interval as int
            } else {
                12 * rule.interval
            };
            let a: int = match anchor {
                Some(d) => d as int,
                None => s.date.day as int,
            };
            (rule.frequency == Frequency::Monthly || rule.frequency == Frequency::Yearly) && next_scheduled_date(
                s,
                rule,
                anchor,
            ) is Some ==> {
                let (y, m, d) = next_scheduled_date(s, rule, anchor)->Some_0;
                &&& is_valid_date(y, m, d)
                &&& y * 12 + m == s.date.year * 12 + s.date.month + months
                &&& a <= days_in_month(y, m) ==> d == a
                &&& a > days_in_month(y, m) ==> d == days_in_month(y, m)
            }
        }),
{
    if rule.frequency == Frequency::Daily && rule.interval == 1 && s.date.wf() {
        let next = day_after(s.date@);
        assert(civil_date_after_days(s.date@, 1) == civil_date_after_days(next, 0));
    }
    if (rule.frequency == Frequency::Monthly || rule.frequency == Frequency::Yearly) && next_scheduled_date(
        s,
        rule,
        anchor,
    ) is Some {
        let months: int = if rule.frequency == Frequency::Monthly {
            rule.interval as int
        } else {
            12 * rule.interval
        };
        let date = s.date;
        let index = date.year * 12 + (date.month - 1) + months;
        let year = index / 12;
        let month = index % 12 + 1;
        assert(index == year * 12 + (month - 1)) by (nonlinear_arith)
            requires
                year == index / 12,
                month == index % 12 + 1,
        ;
    }
}

/// The text that a field holds once a value of a conflict is written to it.
pub open spec fn text_written(v: Option<SyncValue>) -> Option<Seq<char>> {
    match v {
        Some(SyncValue::Json(text)) => Some(text@),
        Some(SyncValue::Entity(fields)) => Some(object_text(fields@)),
        None => None,
    }
}

/// Settling a conflict of one field writes the chosen side's value to that
/// field and leaves every other field, the identifier and the deletion as
/// they were: keeping the local side writes the local value, accepting the
/// remote side writes the remote value, and a conflict copy keeps the local
/// value and adds, where the remote side has a value, a second entity under
/// the copy's own identifier.
pub proof fn lemma_decision_writes_the_chosen_value(
    r: Seq<SyncEntity>,
    entity: SyncEntity,
    conflict: SyncFieldConflict,
    decision: MergeDecision,
    copy_id: u128,
    n: Seq<char>,
)
    requires
        decision_result(r, entity, conflict, decision, copy_id),
        conflict.field_name@ != "__entity__"@,
    ensures
        r.len() >= 1,
        r[0].id == entity.id && r[0].kind == entity.kind && r[0].deleted == entity.deleted,
        n != conflict.field_name@ ==> value_of(r[0], n) == value_of(entity, n),
        decision != MergeDecision::AcceptRemote ==> value_of(r[0], conflict.field_name@) == text_written(
            conflict.local_value,
        ),
        decision == MergeDecision::AcceptRemote ==> value_of(r[0], conflict.field_name@) == text_written(
            conflict.remote_value,
        ),
        decision != MergeDecision::CreateConflictCopy ==> r.len() == 1,
        decision == MergeDecision::CreateConflictCopy ==> (r.len() == 2 <==> conflict.remote_value is Some),
        decision == MergeDecision::CreateConflictCopy && r.len() == 2 ==> r[1].id == copy_id && r[1].kind
            == entity.kind,
        decision == MergeDecision::CreateConflictCopy && r.len() == 2 && conflict.field_name@ != "id"@
            && conflict.field_name@ != "title"@ && conflict.field_name@ != "name"@ ==> value_of(
            r[1],
            conflict.field_name@,
        ) == text_written(conflict.remote_value),
{
    if decision == MergeDecision::CreateConflictCopy && r.len() == 2 {
        let u = choose|u: SyncEntity|
            {
                &&& #[trigger] crate::sync_resolve::is_updated(
                    u,
                    entity,
                    conflict.field_name@,
                    conflict.remote_value,
                )
                &&& r[1].id == copy_id
                &&& r[1].kind == entity.kind
                &&& r[1].deleted == u.deleted
                &&& r[1].wf()
                &&& field_map(r[1].fields@) == crate::sync_resolve::suffixed_fields(
                    field_map(u.fields@).insert("id"@, crate::sync_resolve::json_string_text(crate::ids::hyphenated(copy_id))),
                )
            };
        assert(crate::sync_resolve::is_updated(u, entity, conflict.field_name@, conflict.remote_value));
    }
}

/// The limits of the domain: a task title holds 1 to 500 characters once
/// trimmed, a project name 1 to 120 and a tag name 1 to 80; a reminder
/// claim lasts two minutes, so claims taken before the instant two minutes
/// before `now` have expired, that instant lying on the day before where
/// `now` is within the first two minutes of its day.
pub proof fn lemma_domain_limits(
    title: Seq<char>,
    name: Seq<char>,
    tag: Seq<char>,
    now: UtcDateTime,
    expired_before: UtcDateTime,
)
    ensures
        is_title_valid(title) <==> 1 <= trimmed(title).len() <= 500,
        is_project_name_valid(name) <==> 1 <= trimmed(name).len() <= 120,
        tag_name_valid(tag) <==> 1 <= trimmed(tag).len() <= 80,
        lease_expiry_of(now, expired_before) && now.second_of_day >= 120 ==> expired_before.date == now.date
            && expired_before.second_of_day + 120 == now.second_of_day,
        lease_expiry_of(now, expired_before) && now.second_of_day < 120 && now.date.wf() ==> day_after(
            expired_before.date@,
        ) == now.date@ && expired_before.second_of_day + 120 == now.second_of_day + 86400,
{
}

/// The answers of the WebDAV server: a status from 200 to 299 is a success
/// and every other one is refused; 401 and 403 refuse the credentials, 404
/// reports a missing path, 405 a refused method, and any other status an
/// unavailable server.
pub proof fn lemma_status_meanings(status: u16, e: AppError)
    ensures
        is_success(status) <==> 200 <= status && status < 300,
        is_status_error(e, 401) <==> is_status_error(e, 403),
        is_status_error(e, 401) ==> e.code@ == "sync.remote.authentication_failed"@,
        is_status_error(e, 404) ==> e.code@ == "sync.remote.path_not_found"@,
        is_status_error(e, 405) ==> e.code@ == "sync.remote.method_not_allowed"@,
        status != 401 && status != 403 && status != 404 && status != 405 && is_status_error(e, status) ==> e.code@
            == "sync.remote.unavailable"@,
        is_status_error(e, status) ==> e.kind == AppErrorKind::Remote,
{
}

/// Each priority is stored under a name of its own: low, normal and high.
pub proof fn lemma_priority_names(p: Priority, q: Priority)
    ensures
        p != q ==> priority_name(p) != priority_name(q),
        p == Priority::Low ==> priority_name(p) == "low"@,
        p == Priority::Normal ==> priority_name(p) == "normal"@,
        p == Priority::High ==> priority_name(p) == "high"@,
{
    reveal_strlit("low");
    reveal_strlit("normal");
    reveal_strlit("high");
    if p != q {
        assert(priority_name(p).len() != priority_name(q).len() || priority_name(p)[0] != priority_name(q)[0]);
    }
}

/// The words of a search text are the runs of characters between white
/// space: none is empty and none holds white space, and a text without white
/// space is a single word.
pub proof fn lemma_search_words(s: Seq<char>)
    ensures
        forall|i: int| 0 <= i < words(s).len() ==> (#[trigger] words(s)[i]).len() > 0,
        forall|i: int, j: int| 0 <= i < words(s).len() && 0 <= j < words(s)[i].len() ==> !whitespace(
            #[trigger] words(s)[i][j],
        ),
        s.len() > 0 && (forall|j: int| 0 <= j < s.len() ==> !whitespace(#[trigger] s[j])) ==> words(s) == seq![s],
        (forall|j: int| 0 <= j < s.len() ==> whitespace(#[trigger] s[j])) ==> words(s).len() == 0,
    decreases s.len(),
{
    if s.len() == 0 {
    } else if whitespace(s.last()) {
        lemma_search_words(s.drop_last());
        if forall|j: int| 0 <= j < s.len() ==> whitespace(#[trigger] s[j]) {
            assert forall|j: int| 0 <= j < s.drop_last().len() implies whitespace(#[trigger] s.drop_last()[j]) by {
                assert(s.drop_last()[j] == s[j]);
            }
        }
    } else {
        crate::storage::lemma_last_space(s);
        let k = crate::storage::last_space(s);
        if k >= 0 {
            let pre = s.subrange(0, k);
            let last = s.subrange(k + 1, s.len() as int);
            lemma_search_words(pre);
            assert(words(s) == words(pre).push(last));
            assert forall|i: int, j: int| 0 <= i < words(s).len() && 0 <= j < words(s)[i].len() implies !whitespace(
                #[trigger] words(s)[i][j],
            ) by {
                if i < words(pre).len() {
                    assert(words(s)[i] == words(pre)[i]);
                } else {
                    assert(words(s)[i] == last);
                    assert(last[j] == s[k + 1 + j]);
                }
            }
            assert forall|i: int| 0 <= i < words(s).len() implies (#[trigger] words(s)[i]).len() > 0 by {
                if i < words(pre).len() {
                    assert(words(s)[i] == words(pre)[i]);
                }
            }
        } else {
            assert(words(s) == seq![s]);
            assert forall|i: int, j: int| 0 <= i < words(s).len() && 0 <= j < words(s)[i].len() implies !whitespace(
                #[trigger] words(s)[i][j],
            ) by {
                assert(words(s)[i] == s);
            }
        }
        if s.len() > 0 && (forall|j: int| 0 <= j < s.len() ==> !whitespace(#[trigger] s[j])) {
            if k >= 0 {
                assert(whitespace(s[k]));
            }
        }
    }
}

/// A deletion on one side of an entity of the baseline: where the other
/// side left the entity as it was, the entity is gone from the merge and
/// nothing conflicts; where the other side changed it, the deletion and the
/// change are reported as a conflict of the whole entity, and the entity is
/// not merged; where both sides deleted it, it is gone without conflict.
pub proof fn lemma_merge_deletions(
    plan: MergePlan,
    base: Seq<SyncEntity>,
    local: Seq<SyncEntity>,
    remote: Seq<SyncEntity>,
    k: (u8, u128),
)
    requires
        is_merge_plan(plan, base, local, remote),
        lookup(base, k) is Some,
        lookup(local, k) is None || lookup(remote, k) is None,
    ensures
        ({
            let x = lookup(base, k)->Some_0;
            let other = if lookup(local, k) is None {
                lookup(remote, k)
            } else {
                lookup(local, k)
            };
            &&& !is_planned(plan, k)
            &&& (other is None || same_entity(other->Some_0, x)) ==> forall|j: int|
                0 <= j < plan.conflicts@.len() ==> conflict_key(#[trigger] plan.conflicts@[j]) != k
            &&& (other is Some && !same_entity(other->Some_0, x)) ==> exists|j: int|
                0 <= j < plan.conflicts@.len() && conflict_key(plan.conflicts@[j]) == k
                    && plan.conflicts@[j].field_name@ == "__entity__"@
        }),
{
    let (b, l, r) = (lookup(base, k), lookup(local, k), lookup(remote, k));
    if is_planned(plan, k) {
        let i = choose|i: int| 0 <= i < plan.entities@.len() && entity_key(plan.entities@[i]) == k;
        assert(plan_entity_ok(base, local, remote, plan.entities@[i]));
    }
    assert forall|j: int| 0 <= j < plan.conflicts@.len() && conflict_key(#[trigger] plan.conflicts@[j]) == k
        implies has_conflict(b, l, r, plan.conflicts@[j].field_name@) by {
        assert(plan_conflict_ok(base, local, remote, plan.conflicts@[j]));
    }
    assert(has_key(base, k));
    assert(key_set(base).contains(k));
    assert(merge_keys(base, local, remote).contains(k));
    assert(has_conflict(b, l, r, "__entity__"@) ==> merge_keys(base, local, remote).contains(k) && has_conflict(
        b,
        l,
        r,
        "__entity__"@,
    ));
}

/// Swapping the local and the remote side swaps what the summary counts as
/// only local and only remote, and keeps the merged and conflicting counts.
pub proof fn lemma_merge_summary_symmetric(
    p: MergePlan,
    q: MergePlan,
    base: Seq<SyncEntity>,
    local: Seq<SyncEntity>,
    remote: Seq<SyncEntity>,
)
    requires
        is_merge_plan(p, base, local, remote),
        is_merge_plan(q, base, remote, local),
    ensures
        p.summary.local_only == q.summary.remote_only,
        p.summary.remote_only == q.summary.local_only,
        p.summary.merged == q.summary.merged,
{
    assert(merge_keys(base, local, remote) =~= merge_keys(base, remote, local));
    assert(crate::sync_merge::local_only_keys(base, local, remote) =~= crate::sync_merge::remote_only_keys(
        base,
        remote,
        local,
    ));
    assert(crate::sync_merge::remote_only_keys(base, local, remote) =~= crate::sync_merge::local_only_keys(
        base,
        remote,
        local,
    ));
    assert(crate::sync_merge::merged_keys(base, local, remote) =~= crate::sync_merge::merged_keys(
        base,
        remote,
        local,
    ));
}

/// A conflict of a field of an entity that all three sides hold records
/// the local side's value as the local value, the remote side's as the
/// remote value and the baseline's as the base value, and these are three
/// different values: both sides changed the field, each in its own way.
pub proof fn lemma_field_conflict_records_each_side(
    plan: MergePlan,
    base: Seq<SyncEntity>,
    local: Seq<SyncEntity>,
    remote: Seq<SyncEntity>,
    j: int,
)
    requires
        is_merge_plan(plan, base, local, remote),
        0 <= j < plan.conflicts@.len(),
        lookup(base, conflict_key(plan.conflicts@[j])) is Some,
        lookup(local, conflict_key(plan.conflicts@[j])) is Some,
        lookup(remote, conflict_key(plan.conflicts@[j])) is Some,
    ensures
        ({
            let c = plan.conflicts@[j];
            let k = conflict_key(c);
            let (x, y, z) = (lookup(base, k)->Some_0, lookup(local, k)->Some_0, lookup(remote, k)->Some_0);
            let n = c.field_name@;
            &&& !names_a_derived_field(n)
            &&& c@.local_value == json_view(value_of(y, n))
            &&& c@.remote_value == json_view(value_of(z, n))
            &&& c@.base_value == json_view(value_of(x, n))
            &&& c@.local_value != c@.remote_value && c@.local_value != c@.base_value && c@.remote_value != c@.base_value
        }),
{
    let c = plan.conflicts@[j];
    assert(plan_conflict_ok(base, local, remote, c));
}

/// An entity that the baseline does not hold is new: made on one side only,
/// it is merged as that side has it; made on both sides alike, it is merged
/// as it is; made on both sides differently, the two are reported as a
/// conflict of the whole entity and neither is merged.
pub proof fn lemma_merge_new_entities(
    plan: MergePlan,
    base: Seq<SyncEntity>,
    local: Seq<SyncEntity>,
    remote: Seq<SyncEntity>,
    k: (u8, u128),
)
    requires
        is_merge_plan(plan, base, local, remote),
        all_wf(local),
        all_wf(remote),
        lookup(base, k) is None,
        lookup(local, k) is Some || lookup(remote, k) is Some,
    ensures
        ({
            let (l, r) = (lookup(local, k), lookup(remote, k));
            let new = if l is Some {
                l->Some_0
            } else {
                r->Some_0
            };
            &&& (l is None || r is None || same_entity(l->Some_0, r->Some_0)) ==> exists|i: int|
                0 <= i < plan.entities@.len() && entity_key(plan.entities@[i]) == k && same_entity(
                    #[trigger] plan.entities@[i],
                    new,
                )
            &&& (l is Some && r is Some && !same_entity(l->Some_0, r->Some_0)) ==> !is_planned(plan, k) && exists|j: int|
                0 <= j < plan.conflicts@.len() && conflict_key(plan.conflicts@[j]) == k
                    && plan.conflicts@[j].field_name@ == "__entity__"@
        }),
{
    let (b, l, r) = (lookup(base, k), lookup(local, k), lookup(remote, k));
    if l is Some {
        lemma_lookup_found(local, k);
        assert(key_set(local).contains(k));
    } else {
        lemma_lookup_found(remote, k);
        assert(key_set(remote).contains(k));
    }
    assert(merge_keys(base, local, remote).contains(k));
    if l is None || r is None || same_entity(l->Some_0, r->Some_0) {
        assert(yields_entity(b, l, r));
        let i = choose|i: int| 0 <= i < plan.entities@.len() && entity_key(plan.entities@[i]) == k;
        assert(plan_entity_ok(base, local, remote, plan.entities@[i]));
    } else {
        assert(has_conflict(b, l, r, "__entity__"@));
        if is_planned(plan, k) {
            let i = choose|i: int| 0 <= i < plan.entities@.len() && entity_key(plan.entities@[i]) == k;
            assert(plan_entity_ok(base, local, remote, plan.entities@[i]));
        }
    }
}

/// Every task that a valid draft or a valid patch makes keeps the rules of
/// tasks: a recurring task is scheduled and is not a subtask; a task made
/// from a draft has a title of 1 to 500 characters and no yearly rule, and
/// so does a patched title and a rule that a patch brings.
pub proof fn lemma_made_tasks_keep_the_rules(
    made: Task,
    draft: TaskDraft,
    id: u128,
    now: UtcDateTime,
    patched: Task,
    task: Task,
    patch: TaskPatch,
)
    ensures
        built_from_draft(made, draft, id, now) && draft_is_valid(draft) ==> {
            &&& made.recurrence is Some ==> made.scheduled_at is Some && made.parent_id is None
            &&& 1 <= made.title@.len() <= 500
            &&& made.recurrence is Some ==> made.recurrence->Some_0.frequency != Frequency::Yearly
        },
        patched_task(patched, task, patch, now) && patch_is_valid(task, patch) ==> {
            &&& patched.recurrence is Some ==> patched.scheduled_at is Some && patched.parent_id is None
            &&& patch.title is Some ==> 1 <= patched.title@.len() <= 500
            &&& (patch.recurrence is Some && patch.recurrence->Some_0 is Some && patch.recurrence->Some_0
                != task.recurrence) ==> patch.recurrence->Some_0->Some_0.frequency != Frequency::Yearly
        },
{
}

/// A window larger than the work area along an axis is placed at the work
/// area's start.
pub proof fn lemma_clamp_places_a_large_window_at_the_start(v: int, low: int, room: int, extent: int)
    requires
        0 <= room < extent,
        i32::MIN <= low <= i32::MAX,
    ensures
        clamp_axis(v, low, room, extent) == low,
{
}

/// Automatic synchronisation runs every minute, five minutes, fifteen
/// minutes, thirty minutes or hour, as its frequency is named, counted in
/// seconds; manual synchronisation never runs by itself.
pub proof fn lemma_sync_intervals(frequency: SyncFrequency)
    ensures
        frequency == SyncFrequency::OneMinute ==> interval_seconds(frequency) is Some && interval_seconds(frequency)->Some_0 == 60,
        frequency == SyncFrequency::FiveMinutes ==> interval_seconds(frequency) is Some && interval_seconds(frequency)->Some_0 == 5 * 60,
        frequency == SyncFrequency::FifteenMinutes ==> interval_seconds(frequency) is Some && interval_seconds(frequency)->Some_0 == 15 * 60,
        frequency == SyncFrequency::ThirtyMinutes ==> interval_seconds(frequency) is Some && interval_seconds(frequency)->Some_0 == 30 * 60,
        frequency == SyncFrequency::OneHour ==> interval_seconds(frequency) is Some && interval_seconds(frequency)->Some_0 == 60 * 60,
        interval_seconds(frequency) is None <==> frequency == SyncFrequency::Manual,
{
}

} // verus!
