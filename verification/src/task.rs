//! Tasks, the drafts they are created from and the patches that change them.
use vstd::prelude::*;

use crate::calendar::{utc_now, UtcDateTime};
use crate::error::{fails_with, AppError, AppErrorKind};
use crate::ids::new_id;
use crate::recurrence::{validation_error, Frequency, RecurrenceRule};
use crate::text::{char_count, trim_text, trimmed};

verus! {

/// Longest title a task may have, in Unicode scalar values.
pub const MAX_TITLE_LENGTH: usize = 500;

#[derive(Clone, Copy, Debug, PartialEq, Eq, Structural, Default)]
pub enum Priority {
    Low,
    #[default]
    Normal,
    High,
}

/// How a stored update treats a reminder that the scheduler has sent or claimed.
#[derive(Clone, Copy, Debug, PartialEq, Eq, Structural)]
pub enum ReminderClaimStateUpdate {
    /// Keep the stored reminder state.
    Preserve,
    /// Drop the stored reminder state.
    Clear,
    /// Drop the stored reminder state only where the stored schedule differs
    /// from the schedule being written.
    ClearIfStoredScheduleDiffers,
}

#[derive(Debug)]
pub struct Task {
    pub id: u128,
    pub title: String,
    pub note: String,
    pub project_id: Option<u128>,
    pub parent_id: Option<u128>,
    pub priority: Priority,
    pub scheduled_at: Option<UtcDateTime>,
    pub due_at: Option<UtcDateTime>,
    pub completed_at: Option<UtcDateTime>,
    pub reminder_sent_at: Option<UtcDateTime>,
    pub recurrence: Option<RecurrenceRule>,
    pub instance_number: u32,
    pub monthly_anchor_day: Option<u8>,
    pub created_at: UtcDateTime,
    pub updated_at: UtcDateTime,
    pub revision: i64,
}

impl Clone for Task {
    fn clone(&self) -> (r: Self)
        ensures
            r == *self,
    {
        Task {
            id: self.id,
            title: self.title.clone(),
            note: self.note.clone(),
            project_id: self.project_id,
            parent_id: self.parent_id,
            priority: self.priority,
            scheduled_at: self.scheduled_at,
            due_at: self.due_at,
            completed_at: self.completed_at,
            reminder_sent_at: self.reminder_sent_at,
            recurrence: self.recurrence,
            instance_number: self.instance_number,
            monthly_anchor_day: self.monthly_anchor_day,
            created_at: self.created_at,
            updated_at: self.updated_at,
            revision: self.revision,
        }
    }
}

pub open spec fn option_instant_wf(t: Option<UtcDateTime>) -> bool {
    match t {
        Some(t) => t.wf(),
        None => true,
    }
}

impl Task {
    /// All instants of the task are valid instants.
    pub open spec fn wf(self) -> bool {
        &&& option_instant_wf(self.scheduled_at)
        &&& option_instant_wf(self.due_at)
        &&& option_instant_wf(self.completed_at)
        &&& option_instant_wf(self.reminder_sent_at)
        &&& self.created_at.wf()
        &&& self.updated_at.wf()
    }
}

#[derive(Debug)]
pub struct TaskDraft {
    pub title: String,
    pub note: String,
    pub project_id: Option<u128>,
    pub parent_id: Option<u128>,
    pub priority: Priority,
    pub scheduled_at: Option<UtcDateTime>,
    pub due_at: Option<UtcDateTime>,
    pub recurrence: Option<RecurrenceRule>,
}

/// A change to a task: each field that is `Some` replaces the task's value.
#[derive(Debug, Default)]
pub struct TaskPatch {
    pub title: Option<String>,
    pub note: Option<String>,
    pub project_id: Option<Option<u128>>,
    pub parent_id: Option<Option<u128>>,
    pub priority: Option<Priority>,
    pub scheduled_at: Option<Option<UtcDateTime>>,
    pub due_at: Option<Option<UtcDateTime>>,
    pub completed_at: Option<Option<UtcDateTime>>,
    pub recurrence: Option<Option<RecurrenceRule>>,
}

pub open spec fn is_title_blank(title: Seq<char>) -> bool {
    trimmed(title).len() == 0
}

pub open spec fn is_title_too_long(title: Seq<char>) -> bool {
    trimmed(title).len() > MAX_TITLE_LENGTH
}

pub open spec fn is_title_valid(title: Seq<char>) -> bool {
    !is_title_blank(title) && !is_title_too_long(title)
}

/// Trims a title and checks that it is neither blank nor longer than the limit.
pub fn validate_title(title: &str) -> (r: Result<String, AppError>)
    ensures
        is_title_blank(title@) ==> fails_with(
            r,
            "task.title.blank",
            "errors.task.title.blank",
            AppErrorKind::Validation,
        ),
        is_title_too_long(title@) ==> fails_with(
            r,
            "task.title.too_long",
            "errors.task.title.too_long",
            AppErrorKind::Validation,
        ),
        r is Ok <==> is_title_valid(title@),
        r matches Ok(t) ==> t@ == trimmed(title@) && trimmed(t@) == t@,
{
    proof {
        crate::text::lemma_trimmed_idempotent(title@);
    }
    let title = trim_text(title);
    let length = char_count(title.as_str());
    if length == 0 {
        return Err(validation_error("task.title.blank", "errors.task.title.blank"));
    }
    if length > MAX_TITLE_LENGTH {
        return Err(validation_error("task.title.too_long", "errors.task.title.too_long"));
    }
    Ok(title)
}

/// A recurring task needs a schedule and may not be a subtask.
pub open spec fn recurrence_error_free(
    recurrence: Option<RecurrenceRule>,
    scheduled_at: Option<UtcDateTime>,
    parent_id: Option<u128>,
) -> bool {
    recurrence is Some ==> (scheduled_at is Some && parent_id is None)
}

pub fn validate_recurrence(
    recurrence: Option<RecurrenceRule>,
    scheduled_at: Option<UtcDateTime>,
    parent_id: Option<u128>,
) -> (r: Result<(), AppError>)
    ensures
        recurrence is Some && scheduled_at is None ==> fails_with(
            r,
            "recurrence.scheduled_at.required",
            "errors.recurrence.scheduled_at.required",
            AppErrorKind::Validation,
        ),
        recurrence is Some && scheduled_at is Some && parent_id is Some ==> fails_with(
            r,
            "recurrence.child.unsupported",
            "errors.recurrence.child.unsupported",
            AppErrorKind::Validation,
        ),
        r is Ok <==> recurrence_error_free(recurrence, scheduled_at, parent_id),
{
    if recurrence.is_none() {
        return Ok(());
    }
    if scheduled_at.is_none() {
        return Err(
            validation_error(
                "recurrence.scheduled_at.required",
                "errors.recurrence.scheduled_at.required",
            ),
        );
    }
    if parent_id.is_some() {
        return Err(
            validation_error("recurrence.child.unsupported", "errors.recurrence.child.unsupported"),
        );
    }
    Ok(())
}

pub open spec fn is_yearly(rule: Option<RecurrenceRule>) -> bool {
    rule matches Some(r) && r.frequency == Frequency::Yearly
}

/// The day of the month that anchors a new monthly or yearly task.
pub open spec fn draft_anchor_day(recurrence: Option<RecurrenceRule>, scheduled_at: Option<UtcDateTime>) -> Option<u8> {
    match (recurrence, scheduled_at) {
        (Some(rule), Some(s)) => if rule.spec_uses_date_anchor() {
            Some(s.date.day as u8)
        } else {
            None
        },
        _ => None,
    }
}

/// A draft passes every check of task creation.
pub open spec fn draft_is_valid(draft: TaskDraft) -> bool {
    &&& is_title_valid(draft.title@)
    &&& !is_yearly(draft.recurrence)
    &&& recurrence_error_free(draft.recurrence, draft.scheduled_at, draft.parent_id)
}

/// The task that a valid draft becomes, with a given identifier and creation instant.
pub open spec fn built_from_draft(task: Task, draft: TaskDraft, id: u128, now: UtcDateTime) -> bool {
    &&& task.id == id
    &&& task.title@ == trimmed(draft.title@)
    &&& task.note == draft.note
    &&& task.project_id == draft.project_id
    &&& task.parent_id == draft.parent_id
    &&& task.priority == draft.priority
    &&& task.scheduled_at == draft.scheduled_at
    &&& task.due_at == draft.due_at
    &&& task.completed_at is None
    &&& task.reminder_sent_at is None
    &&& task.recurrence == draft.recurrence
    &&& task.instance_number == 1
    &&& task.monthly_anchor_day == draft_anchor_day(draft.recurrence, draft.scheduled_at)
    &&& task.created_at == now
    &&& task.updated_at == now
    &&& task.revision == 1
}

impl TaskDraft {
    /// A draft with a checked title and every other field at its default.
    pub fn new(title: &str) -> (r: Result<Self, AppError>)
        ensures
            is_title_blank(title@) ==> fails_with(
                r,
                "task.title.blank",
                "errors.task.title.blank",
                AppErrorKind::Validation,
            ),
            is_title_too_long(title@) ==> fails_with(
                r,
                "task.title.too_long",
                "errors.task.title.too_long",
                AppErrorKind::Validation,
            ),
            r is Ok <==> is_title_valid(title@),
            r matches Ok(d) ==> d.title@ == trimmed(title@) && trimmed(d.title@) == d.title@ && d.note@ == Seq::<char>::empty()
                && d.project_id is None && d.parent_id is None && d.priority == Priority::Normal
                && d.scheduled_at is None && d.due_at is None && d.recurrence is None,
    {
        let title = validate_title(title)?;
        Ok(
            TaskDraft {
                title,
                note: String::new(),
                project_id: None,
                parent_id: None,
                priority: Priority::Normal,
                scheduled_at: None,
                due_at: None,
                recurrence: None,
            },
        )
    }
}

pub open spec fn draft_error_ensures(r: Result<Task, AppError>, draft: TaskDraft) -> bool {
    &&& is_title_blank(draft.title@) ==> fails_with(
        r,
        "task.title.blank",
        "errors.task.title.blank",
        AppErrorKind::Validation,
    )
    &&& is_title_too_long(draft.title@) ==> fails_with(
        r,
        "task.title.too_long",
        "errors.task.title.too_long",
        AppErrorKind::Validation,
    )
    &&& is_title_valid(draft.title@) && is_yearly(draft.recurrence) ==> fails_with(
        r,
        "recurrence.frequency.unsupported",
        "errors.recurrence.frequency.unsupported",
        AppErrorKind::Validation,
    )
    &&& is_title_valid(draft.title@) && !is_yearly(draft.recurrence) && draft.recurrence is Some
        && draft.scheduled_at is None ==> fails_with(
        r,
        "recurrence.scheduled_at.required",
        "errors.recurrence.scheduled_at.required",
        AppErrorKind::Validation,
    )
    &&& is_title_valid(draft.title@) && !is_yearly(draft.recurrence) && draft.recurrence is Some
        && draft.scheduled_at is Some && draft.parent_id is Some ==> fails_with(
        r,
        "recurrence.child.unsupported",
        "errors.recurrence.child.unsupported",
        AppErrorKind::Validation,
    )
}

/// What a patch leaves of a field.
pub open spec fn patched<T>(change: Option<T>, current: T) -> T {
    match change {
        Some(v) => v,
        None => current,
    }
}

/// The patch brings a new recurrence rule that new tasks may not use.
pub open spec fn patch_brings_yearly(task: Task, patch: TaskPatch) -> bool {
    patch.recurrence matches Some(Some(rule)) && Some(rule) != task.recurrence && rule.frequency
        == Frequency::Yearly
}

/// The patch reopens a completed task.
pub open spec fn patch_restores(task: Task, patch: TaskPatch) -> bool {
    task.completed_at is Some && patch.completed_at == Some(None::<UtcDateTime>)
}

/// The anchor day after a patch.
pub open spec fn patched_anchor_day(task: Task, patch: TaskPatch) -> Option<u8> {
    let recurrence = patched(patch.recurrence, task.recurrence);
    let scheduled_at = patched(patch.scheduled_at, task.scheduled_at);
    match recurrence {
        Some(rule) => if !rule.spec_uses_date_anchor() {
            None
        } else if task.monthly_anchor_day is None {
            match scheduled_at {
                Some(s) => Some(s.date.day as u8),
                None => None,
            }
        } else {
            task.monthly_anchor_day
        },
        None => task.monthly_anchor_day,
    }
}

/// The reminder marker after a patch: kept unless the schedule changes or a
/// completed task is reopened.
pub open spec fn patched_reminder_sent_at(task: Task, patch: TaskPatch) -> Option<UtcDateTime> {
    if patched(patch.scheduled_at, task.scheduled_at) != task.scheduled_at || patch_restores(task, patch) {
        None
    } else {
        task.reminder_sent_at
    }
}

/// A patch passes every check.
pub open spec fn patch_is_valid(task: Task, patch: TaskPatch) -> bool {
    &&& (patch.title matches Some(t) ==> is_title_valid(t@))
    &&& !patch_brings_yearly(task, patch)
    &&& recurrence_error_free(
        patched(patch.recurrence, task.recurrence),
        patched(patch.scheduled_at, task.scheduled_at),
        patched(patch.parent_id, task.parent_id),
    )
    &&& task.revision < i64::MAX
}

/// The task that a valid patch makes of `task` at instant `now`.
pub open spec fn patched_task(new: Task, task: Task, patch: TaskPatch, now: UtcDateTime) -> bool {
    &&& new.id == task.id
    &&& (match patch.title {
        Some(t) => new.title@ == trimmed(t@),
        None => new.title == task.title,
    })
    &&& new.note == patched(patch.note, task.note)
    &&& new.project_id == patched(patch.project_id, task.project_id)
    &&& new.parent_id == patched(patch.parent_id, task.parent_id)
    &&& new.priority == patched(patch.priority, task.priority)
    &&& new.scheduled_at == patched(patch.scheduled_at, task.scheduled_at)
    &&& new.due_at == patched(patch.due_at, task.due_at)
    &&& new.completed_at == patched(patch.completed_at, task.completed_at)
    &&& new.reminder_sent_at == patched_reminder_sent_at(task, patch)
    &&& new.recurrence == patched(patch.recurrence, task.recurrence)
    &&& new.instance_number == task.instance_number
    &&& new.monthly_anchor_day == patched_anchor_day(task, patch)
    &&& new.created_at == task.created_at
    &&& new.updated_at == now
    &&& new.revision == task.revision + 1
}

pub open spec fn patch_error_ensures(r: Result<Task, AppError>, task: Task, patch: TaskPatch) -> bool {
    let title_ok = patch.title matches Some(t) ==> is_title_valid(t@);
    let recurrence = patched(patch.recurrence, task.recurrence);
    let scheduled_at = patched(patch.scheduled_at, task.scheduled_at);
    let parent_id = patched(patch.parent_id, task.parent_id);
    &&& (patch.title matches Some(t) && is_title_blank(t@)) ==> fails_with(
        r,
        "task.title.blank",
        "errors.task.title.blank",
        AppErrorKind::Validation,
    )
    &&& (patch.title matches Some(t) && is_title_too_long(t@)) ==> fails_with(
        r,
        "task.title.too_long",
        "errors.task.title.too_long",
        AppErrorKind::Validation,
    )
    &&& title_ok && patch_brings_yearly(task, patch) ==> fails_with(
        r,
        "recurrence.frequency.unsupported",
        "errors.recurrence.frequency.unsupported",
        AppErrorKind::Validation,
    )
    &&& title_ok && !patch_brings_yearly(task, patch) && recurrence is Some && scheduled_at is None
        ==> fails_with(
        r,
        "recurrence.scheduled_at.required",
        "errors.recurrence.scheduled_at.required",
        AppErrorKind::Validation,
    )
    &&& title_ok && !patch_brings_yearly(task, patch) && recurrence is Some && scheduled_at is Some
        && parent_id is Some ==> fails_with(
        r,
        "recurrence.child.unsupported",
        "errors.recurrence.child.unsupported",
        AppErrorKind::Validation,
    )
    &&& title_ok && !patch_brings_yearly(task, patch) && recurrence_error_free(
        recurrence,
        scheduled_at,
        parent_id,
    ) && task.revision == i64::MAX ==> fails_with(
        r,
        "task.revision.overflow",
        "errors.task.revision.overflow",
        AppErrorKind::Conflict,
    )
}

pub fn revision_overflow_error() -> (e: AppError)
    ensures
        e.has("task.revision.overflow", "errors.task.revision.overflow", AppErrorKind::Conflict),
{
    AppError::new("task.revision.overflow", "errors.task.revision.overflow", AppErrorKind::Conflict)
}

impl Task {
    /// Builds a new task from a draft, with a given identifier and creation instant.
    pub fn from_draft_at(draft: TaskDraft, id: u128, now: UtcDateTime) -> (r: Result<Self, AppError>)
        ensures
            draft_error_ensures(r, draft),
            r is Ok <==> draft_is_valid(draft),
            r matches Ok(task) ==> built_from_draft(task, draft, id, now),
    {
        let title = validate_title(draft.title.as_str())?;
        let recurrence = draft.recurrence;
        if let Some(rule) = recurrence {
            rule.validate_new_task()?;
        }
        validate_recurrence(recurrence, draft.scheduled_at, draft.parent_id)?;
        let monthly_anchor_day = match (recurrence, draft.scheduled_at) {
            (Some(rule), Some(scheduled_at)) => if rule.uses_date_anchor() {
                Some(scheduled_at.date.day as u8)
            } else {
                None
            },
            _ => None,
        };
        Ok(
            Task {
                id,
                title,
                note: draft.note,
                project_id: draft.project_id,
                parent_id: draft.parent_id,
                priority: draft.priority,
                scheduled_at: draft.scheduled_at,
                due_at: draft.due_at,
                completed_at: None,
                reminder_sent_at: None,
                recurrence,
                instance_number: 1,
                monthly_anchor_day,
                created_at: now,
                updated_at: now,
                revision: 1,
            },
        )
    }

    /// Builds a new task from a draft, with a fresh identifier, created now.
    pub fn from_draft(draft: TaskDraft) -> (r: Result<Self, AppError>)
        ensures
            draft_error_ensures(r, draft),
            r is Ok <==> draft_is_valid(draft),
            r matches Ok(task) ==> built_from_draft(task, draft, task.id, task.created_at)
                && task.created_at.wf(),
    {
        let now = utc_now();
        let id = new_id();
        Self::from_draft_at(draft, id, now)
    }

    /// A new task with a valid title and every other field at its default,
    /// as tests build one.
    pub fn for_test(title: String) -> (r: Self)
        requires
            is_title_valid(title@),
        ensures
            r.title@ == trimmed(title@),
            r.note@ == Seq::<char>::empty(),
            r.project_id is None && r.parent_id is None,
            r.priority == Priority::Normal,
            r.scheduled_at is None && r.due_at is None && r.completed_at is None && r.reminder_sent_at is None,
            r.recurrence is None && r.monthly_anchor_day is None,
            r.instance_number == 1 && r.revision == 1,
            r.created_at.wf() && r.updated_at == r.created_at,
    {
        let draft = TaskDraft::new(title.as_str()).unwrap();
        Self::from_draft(draft).unwrap()
    }

    /// Advances the task's revision by one.
    pub fn increment_revision(&mut self) -> (r: Result<(), AppError>)
        ensures
            old(self).revision < i64::MAX ==> r is Ok && *final(self) == (Task {
                revision: (old(self).revision + 1) as i64,
                ..*old(self)
            }),
            old(self).revision == i64::MAX ==> fails_with(
                r,
                "task.revision.overflow",
                "errors.task.revision.overflow",
                AppErrorKind::Conflict,
            ) && *final(self) == *old(self),
    {
        if self.revision == i64::MAX {
            return Err(revision_overflow_error());
        }
        self.revision = self.revision + 1;
        Ok(())
    }

    /// What saving the changed task does to its reminder state: reopening a
    /// completed task clears it, setting the schedule clears it where the
    /// saved schedule differs, and any other change keeps it.
    pub fn reminder_claim_state_update_for_patch(&self, patch: &TaskPatch) -> (r:
        ReminderClaimStateUpdate)
        ensures
            patch_restores(*self, *patch) ==> r == ReminderClaimStateUpdate::Clear,
            !patch_restores(*self, *patch) && patch.scheduled_at is Some ==> r
                == ReminderClaimStateUpdate::ClearIfStoredScheduleDiffers,
            !patch_restores(*self, *patch) && patch.scheduled_at is None ==> r
                == ReminderClaimStateUpdate::Preserve,
    {
        if self.completed_at.is_some() && matches!(patch.completed_at, Some(None)) {
            ReminderClaimStateUpdate::Clear
        } else if patch.scheduled_at.is_some() {
            ReminderClaimStateUpdate::ClearIfStoredScheduleDiffers
        } else {
            ReminderClaimStateUpdate::Preserve
        }
    }

    /// The task as `patch` changes it at instant `now`.
    pub fn apply_patch_at(&self, patch: TaskPatch, now: UtcDateTime) -> (r: Result<Self, AppError>)
        ensures
            patch_error_ensures(r, *self, patch),
            r is Ok <==> patch_is_valid(*self, patch),
            r matches Ok(t) ==> patched_task(t, *self, patch, now),
    {
        let ghost original = patch;
        let TaskPatch {
            title,
            note,
            project_id,
            parent_id,
            priority,
            scheduled_at,
            due_at,
            completed_at,
            recurrence,
        } = patch;
        let title = match title {
            Some(title) => validate_title(title.as_str())?,
            None => self.title.clone(),
        };
        let recurrence = match recurrence {
            Some(recurrence) => {
                if let Some(rule) = recurrence {
                    if recurrence != self.recurrence {
                        rule.validate_new_task()?;
                    }
                }
                recurrence
            },
            None => self.recurrence,
        };
        let scheduled_at = match scheduled_at {
            Some(v) => v,
            None => self.scheduled_at,
        };
        let parent_id = match parent_id {
            Some(v) => v,
            None => self.parent_id,
        };
        validate_recurrence(recurrence, scheduled_at, parent_id)?;
        let completed_at = match completed_at {
            Some(v) => v,
            None => self.completed_at,
        };
        let monthly_anchor_day = match recurrence {
            Some(rule) => if !rule.uses_date_anchor() {
                None
            } else if self.monthly_anchor_day.is_none() {
                match scheduled_at {
                    Some(s) => Some(s.date.day as u8),
                    None => None,
                }
            } else {
                self.monthly_anchor_day
            },
            None => self.monthly_anchor_day,
        };
        let reminder_sent_at = if scheduled_at != self.scheduled_at || (self.completed_at.is_some()
            && completed_at.is_none()) {
            None
        } else {
            self.reminder_sent_at
        };
        if self.revision == i64::MAX {
            return Err(revision_overflow_error());
        }
        Ok(
            Task {
                id: self.id,
                title,
                note: match note {
                    Some(v) => v,
                    None => self.note.clone(),
                },
                project_id: match project_id {
                    Some(v) => v,
                    None => self.project_id,
                },
                parent_id,
                priority: match priority {
                    Some(v) => v,
                    None => self.priority,
                },
                scheduled_at,
                due_at: match due_at {
                    Some(v) => v,
                    None => self.due_at,
                },
                completed_at,
                reminder_sent_at,
                recurrence,
                instance_number: self.instance_number,
                monthly_anchor_day,
                created_at: self.created_at,
                updated_at: now,
                revision: self.revision + 1,
            },
        )
    }

    /// The task as `patch` changes it now.
    pub fn apply_patch(&self, patch: TaskPatch) -> (r: Result<Self, AppError>)
        ensures
            patch_error_ensures(r, *self, patch),
            r is Ok <==> patch_is_valid(*self, patch),
            r matches Ok(t) ==> patched_task(t, *self, patch, t.updated_at) && t.updated_at.wf(),
    {
        let now = utc_now();
        self.apply_patch_at(patch, now)
    }
}

} // verus!
