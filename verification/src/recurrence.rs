//! Recurrence rules and the step from a completed instance to the next one.
use vstd::prelude::*;

use crate::calendar::{
    checked_add_days, civil_date_after_days, date_exists, days_in_month, is_valid_date, CivilDate,
    UtcDateTime, MAX_YEAR, MIN_YEAR,
};
use crate::error::{fails_with, AppError, AppErrorKind};
use crate::ids::new_id;
use crate::task::Task;

verus! {

/// How often a recurring task comes back.
#[derive(Clone, Copy, Debug, PartialEq, Eq, Structural)]
pub enum Frequency {
    Daily,
    Weekly,
    Monthly,
    Yearly,
}

/// A recurrence rule: a frequency, a positive interval, an optional last day
/// and an optional positive number of instances.
#[derive(Clone, Copy, Debug, PartialEq, Eq, Structural)]
pub struct RecurrenceRule {
    pub frequency: Frequency,
    pub interval: u32,
    pub until: Option<CivilDate>,
    pub count: Option<u32>,
}

impl RecurrenceRule {
    /// A stored rule is well formed: its interval is positive and its count,
    /// if any, is positive.
    pub open spec fn wf(self) -> bool {
        self.interval > 0 && self.count != Some(0u32)
    }

    /// Monthly and yearly rules keep the day of the month of their anchor.
    pub open spec fn spec_uses_date_anchor(self) -> bool {
        self.frequency == Frequency::Monthly || self.frequency == Frequency::Yearly
    }

    /// A rule that a new or changed task may carry.
    pub fn new(frequency: Frequency, interval: u32, until: Option<CivilDate>, count: Option<u32>) -> (r:
        Result<Self, AppError>)
        ensures
            interval == 0 ==> fails_with(r, 
                "recurrence.interval.invalid",
                "errors.recurrence.interval.invalid",
                AppErrorKind::Validation,
            ),
            interval != 0 && count == Some(0u32) ==> fails_with(r, 
                "recurrence.count.invalid",
                "errors.recurrence.count.invalid",
                AppErrorKind::Validation,
            ),
            interval != 0 && count != Some(0u32) && frequency == Frequency::Yearly ==> fails_with(r, 
                "recurrence.frequency.unsupported",
                "errors.recurrence.frequency.unsupported",
                AppErrorKind::Validation,
            ),
            r is Ok <==> (interval != 0 && count != Some(0u32) && frequency != Frequency::Yearly),
            r matches Ok(rule) ==> rule == (RecurrenceRule { frequency, interval, until, count }),
    {
        let rule = Self::from_persisted(frequency, interval, until, count)?;
        rule.validate_new_task()?;
        Ok(rule)
    }

    /// A rule as it was stored, which may be a yearly rule of an older version.
    pub fn from_persisted(
        frequency: Frequency,
        interval: u32,
        until: Option<CivilDate>,
        count: Option<u32>,
    ) -> (r: Result<Self, AppError>)
        ensures
            interval == 0 ==> fails_with(r, 
                "recurrence.interval.invalid",
                "errors.recurrence.interval.invalid",
                AppErrorKind::Validation,
            ),
            interval != 0 && count == Some(0u32) ==> fails_with(r, 
                "recurrence.count.invalid",
                "errors.recurrence.count.invalid",
                AppErrorKind::Validation,
            ),
            r is Ok <==> (interval != 0 && count != Some(0u32)),
            r matches Ok(rule) ==> rule == (RecurrenceRule { frequency, interval, until, count })
                && rule.wf(),
    {
        if interval == 0 {
            return Err(
                validation_error("recurrence.interval.invalid", "errors.recurrence.interval.invalid"),
            );
        }
        if let Some(c) = count {
            if c == 0 {
                return Err(
                    validation_error("recurrence.count.invalid", "errors.recurrence.count.invalid"),
                );
            }
        }
        Ok(RecurrenceRule { frequency, interval, until, count })
    }

    /// A rule of the older wire format, which named only a frequency: it
    /// recurs every period without an end. Unknown names give `None`.
    pub fn from_legacy_name(name: &str) -> (r: Option<Self>)
        ensures
            r is Some <==> (name@ == "Daily"@ || name@ == "Weekly"@ || name@ == "Monthly"@ || name@
                == "Yearly"@),
            r matches Some(rule) ==> rule.interval == 1 && rule.until is None && rule.count is None
                && (name@ == "Daily"@ ==> rule.frequency == Frequency::Daily) && (name@ == "Weekly"@
                ==> rule.frequency == Frequency::Weekly) && (name@ == "Monthly"@ ==> rule.frequency
                == Frequency::Monthly) && (name@ == "Yearly"@ ==> rule.frequency == Frequency::Yearly),
    {
        proof {
            reveal_strlit("Daily");
            reveal_strlit("Weekly");
            reveal_strlit("Monthly");
            reveal_strlit("Yearly");
            assert("Daily"@[0] == 'D' && "Weekly"@[0] == 'W' && "Monthly"@[0] == 'M' && "Yearly"@[0]
                == 'Y');
        }
        let frequency = if str_equals(name, "Daily") {
            Frequency::Daily
        } else if str_equals(name, "Weekly") {
            Frequency::Weekly
        } else if str_equals(name, "Monthly") {
            Frequency::Monthly
        } else if str_equals(name, "Yearly") {
            Frequency::Yearly
        } else {
            return None;
        };
        Some(RecurrenceRule { frequency, interval: 1, until: None, count: None })
    }

    pub fn frequency(&self) -> (r: Frequency)
        ensures
            r == self.frequency,
    {
        self.frequency
    }

    pub fn interval(&self) -> (r: u32)
        ensures
            r == self.interval,
    {
        self.interval
    }

    /// New tasks may not use the yearly frequency any more.
    pub fn validate_new_task(&self) -> (r: Result<(), AppError>)
        ensures
            r is Ok <==> self.frequency != Frequency::Yearly,
            r matches Err(e) ==> e.has(
                "recurrence.frequency.unsupported",
                "errors.recurrence.frequency.unsupported",
                AppErrorKind::Validation,
            ),
    {
        match self.frequency {
            Frequency::Yearly => Err(
                validation_error(
                    "recurrence.frequency.unsupported",
                    "errors.recurrence.frequency.unsupported",
                ),
            ),
            _ => Ok(()),
        }
    }

    pub fn uses_date_anchor(&self) -> (r: bool)
        ensures
            r == self.spec_uses_date_anchor(),
    {
        match self.frequency {
            Frequency::Monthly | Frequency::Yearly => true,
            _ => false,
        }
    }
}

/// Equality of two texts, by their characters.
pub fn str_equals(a: &str, b: &str) -> (r: bool)
    ensures
        r == (a@ == b@),
{
    let n = a.unicode_len();
    if n != b.unicode_len() {
        return false;
    }
    let mut i: usize = 0;
    while i < n
        invariant
            n == a@.len(),
            n == b@.len(),
            i <= n,
            forall|j: int| 0 <= j < i ==> a@[j] == b@[j],
        decreases n - i,
    {
        if a.get_char(i) != b.get_char(i) {
            return false;
        }
        i = i + 1;
    }
    assert(a@ =~= b@);
    true
}

pub(crate) fn validation_error(code: &'static str, translation_key: &'static str) -> (e: AppError)
    ensures
        e.code == code,
        e.translation_key == translation_key,
        e.kind == AppErrorKind::Validation,
{
    AppError::new(code, translation_key, AppErrorKind::Validation)
}

pub open spec fn is_schedule_overflow(e: AppError) -> bool {
    e.has(
        "recurrence.schedule.overflow",
        "errors.recurrence.schedule.overflow",
        AppErrorKind::Validation,
    )
}

fn schedule_overflow() -> (e: AppError)
    ensures
        is_schedule_overflow(e),
{
    validation_error("recurrence.schedule.overflow", "errors.recurrence.schedule.overflow")
}

/// The number of days of the month, as the calendar gives it, or 28 outside
/// the calendar's years or months.
pub open spec fn spec_last_day_of_month(year: int, month: int) -> int {
    if MIN_YEAR <= year <= MAX_YEAR && 1 <= month <= 12 {
        days_in_month(year, month)
    } else {
        28
    }
}

/// The last day of a month: the greatest of 31, 30, 29 and 28 that exists,
/// and 28 where none does.
pub fn last_day_of_month(year: i32, month: u32) -> (r: u32)
    ensures
        r == spec_last_day_of_month(year as int, month as int),
{
    let mut day: u32 = 31;
    while day > 28
        invariant
            28 <= day <= 31,
            forall|d: int| day < d <= 31 ==> !is_valid_date(year as int, month as int, d),
        decreases day,
    {
        if date_exists(year, month, day) {
            proof {
                if day < days_in_month(year as int, month as int) {
                    assert(!is_valid_date(year as int, month as int, days_in_month(year as int, month as int)));
                }
            }
            return day;
        }
        day = day - 1;
    }
    proof {
        if MIN_YEAR <= year <= MAX_YEAR && 1 <= month <= 12 {
            assert(!is_valid_date(year as int, month as int, 29));
            assert(!is_valid_date(year as int, month as int, 30));
            assert(!is_valid_date(year as int, month as int, 31));
        }
    }
    28
}

/// The day reached by moving a day's month forward by `months`, keeping the
/// anchor day (or the day itself) where the month has it and the month's
/// last day otherwise; `None` when that day lies beyond the calendar.
pub open spec fn month_step(date: CivilDate, months: int, anchor: Option<u8>) -> Option<(int, int, int)> {
    let index = date.year * 12 + (date.month - 1) + months;
    let year = index / 12;
    let month = index % 12 + 1;
    let anchor_day: int = match anchor {
        Some(d) => d as int,
        None => date.day as int,
    };
    let last = spec_last_day_of_month(year, month);
    let day = if last < anchor_day { last } else { anchor_day };
    if is_valid_date(year, month, day) {
        Some((year, month, day))
    } else {
        None
    }
}

/// Moves an instant forward by whole months, keeping its time of day.
pub fn advance_months(scheduled_at: UtcDateTime, interval: u32, monthly_anchor_day: Option<u8>) -> (r:
    Result<UtcDateTime, AppError>)
    requires
        scheduled_at.wf(),
    ensures
        match r {
            Ok(t) => month_step(scheduled_at.date, interval as int, monthly_anchor_day) == Some(t.date@)
                && t.wf() && t.second_of_day == scheduled_at.second_of_day && t.nanosecond
                == scheduled_at.nanosecond && (interval > 0 ==> scheduled_at.date.is_before(t.date)),
            Err(e) => month_step(scheduled_at.date, interval as int, monthly_anchor_day) is None
                && is_schedule_overflow(e),
        },
{
    let date = scheduled_at.date;
    let offset: u64 = (date.year as i64 + 262143) as u64;
    let shifted: u64 = offset * 12 + (date.month - 1) as u64 + interval as u64;
    let year_shifted: u64 = shifted / 12;
    let month_rest: u64 = shifted % 12;
    proof {
        let index = date.year * 12 + (date.month - 1) + interval;
        assert(shifted == index + 262143 * 12);
        assert(year_shifted == index / 12 + 262143) by (nonlinear_arith)
            requires
                shifted == index + 262143 * 12,
                year_shifted == shifted / 12,
                shifted >= 0,
        ;
        assert(month_rest == index % 12) by (nonlinear_arith)
            requires
                shifted == index + 262143 * 12,
                month_rest == shifted % 12,
                shifted >= 0,
        ;
        assert(year_shifted <= 400_000_000) by (nonlinear_arith)
            requires
                year_shifted == shifted / 12,
                shifted <= 524286 * 12 + 11 + 0xffff_ffff,
        ;
    }
    let year: i32 = (year_shifted as i64 - 262143) as i32;
    let month: u32 = (month_rest + 1) as u32;
    let anchor_day: u32 = match monthly_anchor_day {
        Some(d) => d as u32,
        None => date.day,
    };
    let last = last_day_of_month(year, month);
    let day = if last < anchor_day {
        last
    } else {
        anchor_day
    };
    if !date_exists(year, month, day) {
        return Err(schedule_overflow());
    }
    proof {
        if interval > 0 {
            crate::laws::lemma_month_step_moves_forward(date, interval as int, monthly_anchor_day);
        }
    }
    Ok(
        UtcDateTime {
            date: CivilDate { year, month, day },
            second_of_day: scheduled_at.second_of_day,
            nanosecond: scheduled_at.nanosecond,
        },
    )
}

/// Moves an instant forward by whole days, keeping its time of day.
pub fn add_days(scheduled_at: UtcDateTime, days: u64) -> (r: Result<UtcDateTime, AppError>)
    requires
        scheduled_at.wf(),
    ensures
        match r {
            Ok(t) => civil_date_after_days(scheduled_at.date@, days as int) == Some(t.date@) && t.wf()
                && t.second_of_day == scheduled_at.second_of_day && t.nanosecond
                == scheduled_at.nanosecond && (days > 0 ==> scheduled_at.date.is_before(t.date)),
            Err(e) => civil_date_after_days(scheduled_at.date@, days as int) is None
                && is_schedule_overflow(e),
        },
{
    match checked_add_days(scheduled_at.date, days) {
        Some(date) => {
            proof {
                if days > 0 {
                    crate::calendar::lemma_days_move_forward(scheduled_at.date@, days as int);
                }
            }
            Ok(
                UtcDateTime {
                    date,
                    second_of_day: scheduled_at.second_of_day,
                    nanosecond: scheduled_at.nanosecond,
                },
            )
        },
        None => Err(schedule_overflow()),
    }
}

/// The day of the next instance of a rule, before its `until` is applied.
pub open spec fn next_scheduled_date(scheduled_at: UtcDateTime, rule: RecurrenceRule, anchor: Option<u8>) -> Option<(int, int, int)> {
    match rule.frequency {
        Frequency::Daily => civil_date_after_days(scheduled_at.date@, rule.interval as int),
        Frequency::Weekly => civil_date_after_days(scheduled_at.date@, rule.interval * 7),
        Frequency::Monthly => month_step(scheduled_at.date, rule.interval as int, anchor),
        Frequency::Yearly => if rule.interval * 12 > u32::MAX {
            None
        } else {
            month_step(scheduled_at.date, rule.interval * 12, anchor)
        },
    }
}

/// The instant of the next instance of a rule, at the same time of day.
pub fn advance_scheduled_at(scheduled_at: UtcDateTime, rule: &RecurrenceRule, monthly_anchor_day: Option<u8>) -> (r:
    Result<UtcDateTime, AppError>)
    requires
        scheduled_at.wf(),
    ensures
        match r {
            Ok(t) => next_scheduled_date(scheduled_at, *rule, monthly_anchor_day) == Some(t.date@)
                && t.wf() && t.second_of_day == scheduled_at.second_of_day && t.nanosecond
                == scheduled_at.nanosecond && (rule.wf() ==> scheduled_at.date.is_before(t.date)),
            Err(e) => next_scheduled_date(scheduled_at, *rule, monthly_anchor_day) is None
                && is_schedule_overflow(e),
        },
{
    match rule.frequency {
        Frequency::Daily => add_days(scheduled_at, rule.interval as u64),
        Frequency::Weekly => add_days(scheduled_at, rule.interval as u64 * 7),
        Frequency::Monthly => advance_months(scheduled_at, rule.interval, monthly_anchor_day),
        Frequency::Yearly => match rule.interval.checked_mul(12) {
            Some(months) => advance_months(scheduled_at, months, monthly_anchor_day),
            None => Err(schedule_overflow()),
        },
    }
}

} // verus!

verus! {

/// A completed task together with the next instance of its rule, if any.
#[derive(Debug)]
pub struct TaskCompletion {
    pub completed_task: Task,
    pub next_task: Option<Task>,
}

/// The day `d` lies strictly after the calendar day `until`.
pub open spec fn date_is_after(d: (int, int, int), until: CivilDate) -> bool {
    ||| d.0 > until.year
    ||| d.0 == until.year && d.1 > until.month
    ||| d.0 == until.year && d.1 == until.month && d.2 > until.day
}

/// The anchor day that the next instance carries.
pub open spec fn next_anchor_day(task: Task, rule: RecurrenceRule, scheduled_at: UtcDateTime) -> Option<u8> {
    if rule.spec_uses_date_anchor() && task.monthly_anchor_day is None {
        Some(scheduled_at.date.day as u8)
    } else {
        task.monthly_anchor_day
    }
}

/// `next` is the instance after `task`, scheduled on day `date`, created when
/// `task` was completed at `completed_at`, with identifier `id`.
pub open spec fn is_next_instance(
    next: Task,
    task: Task,
    rule: RecurrenceRule,
    completed_at: UtcDateTime,
    id: u128,
    date: (int, int, int),
) -> bool {
    let scheduled_at = task.scheduled_at->Some_0;
    &&& next.id == id
    &&& next.title == task.title
    &&& next.note == task.note
    &&& next.project_id == task.project_id
    &&& next.parent_id == task.parent_id
    &&& next.priority == task.priority
    &&& next.scheduled_at matches Some(s) && s.date@ == date && s.second_of_day
        == scheduled_at.second_of_day && s.nanosecond == scheduled_at.nanosecond && s.wf()
    &&& next.due_at == task.due_at
    &&& next.completed_at is None
    &&& next.reminder_sent_at is None
    &&& next.recurrence == task.recurrence
    &&& next.instance_number == task.instance_number + 1
    &&& next.monthly_anchor_day == next_anchor_day(task, rule, scheduled_at)
    &&& next.created_at == completed_at
    &&& next.updated_at == completed_at
    &&& next.revision == 1
}

/// What completing an instance gives as its successor.
pub open spec fn next_instance_ensures(
    r: Result<Option<Task>, AppError>,
    task: Task,
    rule: RecurrenceRule,
    completed_at: UtcDateTime,
    id: u128,
) -> bool {
    let scheduled_at = task.scheduled_at->Some_0;
    let date = next_scheduled_date(scheduled_at, rule, task.monthly_anchor_day);
    let exhausted = rule.count matches Some(c) && task.instance_number >= c;
    &&& task.scheduled_at is None ==> fails_with(
        r,
        "recurrence.scheduled_at.required",
        "errors.recurrence.scheduled_at.required",
        AppErrorKind::Validation,
    )
    &&& task.scheduled_at is Some && task.parent_id is Some ==> fails_with(
        r,
        "recurrence.child.unsupported",
        "errors.recurrence.child.unsupported",
        AppErrorKind::Validation,
    )
    &&& task.scheduled_at is Some && task.parent_id is None && exhausted ==> r == Ok::<
        Option<Task>,
        AppError,
    >(None)
    &&& task.scheduled_at is Some && task.parent_id is None && !exhausted && date is None ==> (
    r matches Err(e) && is_schedule_overflow(e))
    &&& task.scheduled_at is Some && task.parent_id is None && !exhausted && date is Some && (
    rule.until matches Some(u) && date_is_after(date->Some_0, u)) ==> r == Ok::<
        Option<Task>,
        AppError,
    >(None)
    &&& task.scheduled_at is Some && task.parent_id is None && !exhausted && date is Some && !(
    rule.until matches Some(u) && date_is_after(date->Some_0, u)) && task.instance_number
        == u32::MAX ==> fails_with(
        r,
        "recurrence.instance.overflow",
        "errors.recurrence.instance.overflow",
        AppErrorKind::Validation,
    )
    &&& task.scheduled_at is Some && task.parent_id is None && !exhausted && date is Some && !(
    rule.until matches Some(u) && date_is_after(date->Some_0, u)) && task.instance_number
        < u32::MAX ==> (r matches Ok(Some(next)) && is_next_instance(
        next,
        task,
        rule,
        completed_at,
        id,
        date->Some_0,
    ))
}

/// The next instance of a recurring task, or `None` once its count or its
/// last day is reached.
pub fn next_instance(task: &Task, rule: &RecurrenceRule, completed_at: UtcDateTime, id: u128) -> (r:
    Result<Option<Task>, AppError>)
    requires
        task.wf(),
    ensures
        next_instance_ensures(r, *task, *rule, completed_at, id),
        rule.wf() ==> (r matches Ok(Some(next)) ==> task.scheduled_at->Some_0.date.is_before(
            next.scheduled_at->Some_0.date)),
{
    let scheduled_at = match task.scheduled_at {
        Some(s) => s,
        None => {
            return Err(
                validation_error(
                    "recurrence.scheduled_at.required",
                    "errors.recurrence.scheduled_at.required",
                ),
            );
        },
    };
    if task.parent_id.is_some() {
        return Err(
            validation_error("recurrence.child.unsupported", "errors.recurrence.child.unsupported"),
        );
    }
    if let Some(count) = rule.count {
        if task.instance_number >= count {
            return Ok(None);
        }
    }
    let next_scheduled_at = advance_scheduled_at(scheduled_at, rule, task.monthly_anchor_day)?;
    if let Some(until) = rule.until {
        if next_scheduled_at.date.is_after(&until) {
            return Ok(None);
        }
    }
    if task.instance_number == u32::MAX {
        return Err(
            validation_error("recurrence.instance.overflow", "errors.recurrence.instance.overflow"),
        );
    }
    let monthly_anchor_day = if rule.uses_date_anchor() && task.monthly_anchor_day.is_none() {
        Some(scheduled_at.date.day as u8)
    } else {
        task.monthly_anchor_day
    };
    Ok(
        Some(
            Task {
                id,
                title: task.title.clone(),
                note: task.note.clone(),
                project_id: task.project_id,
                parent_id: task.parent_id,
                priority: task.priority,
                scheduled_at: Some(next_scheduled_at),
                due_at: task.due_at,
                completed_at: None,
                reminder_sent_at: None,
                recurrence: task.recurrence,
                instance_number: task.instance_number + 1,
                monthly_anchor_day,
                created_at: completed_at,
                updated_at: completed_at,
                revision: 1,
            },
        ),
    )
}

/// `done` is `task` marked completed at `completed_at`.
pub open spec fn is_completed_copy(done: Task, task: Task, completed_at: UtcDateTime) -> bool {
    done == (Task {
        completed_at: Some(completed_at),
        updated_at: completed_at,
        revision: (task.revision + 1) as i64,
        ..task
    })
}

/// What completing a task gives, with `id` for a next instance.
pub open spec fn completion_ensures(
    r: Result<TaskCompletion, AppError>,
    task: Task,
    completed_at: UtcDateTime,
    id: u128,
) -> bool {
    &&& task.revision == i64::MAX ==> fails_with(
        r,
        "task.revision.overflow",
        "errors.task.revision.overflow",
        AppErrorKind::Conflict,
    )
    &&& task.revision < i64::MAX && task.recurrence is None ==> (r matches Ok(c)
        && is_completed_copy(c.completed_task, task, completed_at) && c.next_task is None)
    &&& task.revision < i64::MAX && task.recurrence is Some ==> {
        let rule = task.recurrence->Some_0;
        match r {
            Ok(c) => is_completed_copy(c.completed_task, task, completed_at)
                && next_instance_ensures(Ok(c.next_task), task, rule, completed_at, id),
            Err(e) => next_instance_ensures(Err(e), task, rule, completed_at, id),
        }
    }
}

/// Marks a task completed at `completed_at`; a recurring task also gives its
/// next instance, which takes `next_id` as identifier.
pub fn complete_task_with_next_id(task: &Task, completed_at: UtcDateTime, next_id: u128) -> (r:
    Result<TaskCompletion, AppError>)
    requires
        task.wf(),
    ensures
        completion_ensures(r, *task, completed_at, next_id),
{
    if task.revision == i64::MAX {
        return Err(crate::task::revision_overflow_error());
    }
    let mut completed_task = task.clone();
    completed_task.completed_at = Some(completed_at);
    completed_task.updated_at = completed_at;
    completed_task.revision = task.revision + 1;
    let next_task = match &task.recurrence {
        Some(rule) => next_instance(task, rule, completed_at, next_id)?,
        None => None,
    };
    Ok(TaskCompletion { completed_task, next_task })
}

/// Marks a task completed at `completed_at`; a recurring task also gives its
/// next instance, with a fresh identifier.
pub fn complete_task(task: &Task, completed_at: UtcDateTime) -> (r: Result<TaskCompletion, AppError>)
    requires
        task.wf(),
    ensures
        exists|id: u128| completion_ensures(r, *task, completed_at, id),
{
    let next_id = new_id();
    complete_task_with_next_id(task, completed_at, next_id)
}

} // verus!
