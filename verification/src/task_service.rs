//! The task service: the checks and steps of creating, changing and
//! completing tasks around a repository.
use vstd::prelude::*;

use crate::calendar::{utc_now, UtcDateTime};
use crate::ids::new_id;
use crate::error::{fails_with, AppError, AppErrorKind};
use crate::ports::{
    reminder_due, SubtaskInsertOutcome, SubtaskRepository, TaskEditor, TaskEditorRepository, TaskRepository,
};
use crate::recurrence::{complete_task_with_next_id, completion_ensures, TaskCompletion};
use crate::task::{
    built_from_draft, draft_error_ensures, draft_is_valid, is_title_blank, is_title_too_long, is_title_valid,
    patch_error_ensures, patch_is_valid, patch_restores, patched_task, Priority, ReminderClaimStateUpdate, Task,
    TaskDraft, TaskPatch,
};
use crate::task_query::{summary_fits_view, TaskSummaryDto, TaskView};

verus! {

pub fn task_not_found() -> (r: AppError)
    ensures
        r.has("task.not_found", "errors.task.not_found", AppErrorKind::NotFound),
{
    AppError::new("task.not_found", "errors.task.not_found", AppErrorKind::NotFound)
}

pub fn parent_not_found() -> (r: AppError)
    ensures
        r.has("task.parent.not_found", "errors.task.parent.not_found", AppErrorKind::NotFound),
{
    AppError::new("task.parent.not_found", "errors.task.parent.not_found", AppErrorKind::NotFound)
}

pub fn nested_subtask_error() -> (r: AppError)
    ensures
        r.has(
            "task.subtask.nesting.unsupported",
            "errors.task.subtask.nesting.unsupported",
            AppErrorKind::Validation,
        ),
{
    AppError::new(
        "task.subtask.nesting.unsupported",
        "errors.task.subtask.nesting.unsupported",
        AppErrorKind::Validation,
    )
}

pub fn parent_write_unsupported_error() -> (r: AppError)
    ensures
        r.has("task.parent.write.unsupported", "errors.task.parent.write.unsupported", AppErrorKind::Validation),
{
    AppError::new("task.parent.write.unsupported", "errors.task.parent.write.unsupported", AppErrorKind::Validation)
}

pub fn concurrent_task_update_error() -> (r: AppError)
    ensures
        r.has("task.concurrent_update", "errors.task.concurrent_update", AppErrorKind::Conflict),
{
    AppError::new("task.concurrent_update", "errors.task.concurrent_update", AppErrorKind::Conflict)
}

pub fn already_completed_error() -> (r: AppError)
    ensures
        r.has("task.already_completed", "errors.task.already_completed", AppErrorKind::Conflict),
{
    AppError::new("task.already_completed", "errors.task.already_completed", AppErrorKind::Conflict)
}

pub fn recurring_restore_error() -> (r: AppError)
    ensures
        r.has(
            "task.recurrence.restore.unsupported",
            "errors.task.recurrence.restore.unsupported",
            AppErrorKind::Conflict,
        ),
{
    AppError::new(
        "task.recurrence.restore.unsupported",
        "errors.task.recurrence.restore.unsupported",
        AppErrorKind::Conflict,
    )
}

pub open spec fn is_parent_write_error<T>(r: Result<T, AppError>) -> bool {
    fails_with(r, "task.parent.write.unsupported", "errors.task.parent.write.unsupported", AppErrorKind::Validation)
}

/// A draft through the service may not name a parent.
pub fn validate_draft_structure(draft: &TaskDraft) -> (r: Result<(), AppError>)
    ensures
        r is Ok <==> draft.parent_id is None,
        draft.parent_id is Some ==> is_parent_write_error(r),
{
    if draft.parent_id.is_some() {
        return Err(parent_write_unsupported_error());
    }
    Ok(())
}

/// A patch through the service may not move a task under a parent.
pub fn validate_patch_structure(patch: &TaskPatch) -> (r: Result<(), AppError>)
    ensures
        r is Ok <==> patch.parent_id is None,
        patch.parent_id is Some ==> is_parent_write_error(r),
{
    if patch.parent_id.is_some() {
        return Err(parent_write_unsupported_error());
    }
    Ok(())
}

pub open spec fn moves_subtask_project(task: Task, patch: TaskPatch) -> bool {
    task.parent_id is Some && patch.project_id is Some
}

/// A subtask keeps its parent's project.
pub fn validate_subtask_project_patch(task: &Task, patch: &TaskPatch) -> (r: Result<(), AppError>)
    ensures
        r is Ok <==> !moves_subtask_project(*task, *patch),
        moves_subtask_project(*task, *patch) ==> fails_with(
            r,
            "task.subtask.project.inherited",
            "errors.task.subtask.project.inherited",
            AppErrorKind::Validation,
        ),
{
    if task.parent_id.is_some() && patch.project_id.is_some() {
        return Err(
            AppError::new(
                "task.subtask.project.inherited",
                "errors.task.subtask.project.inherited",
                AppErrorKind::Validation,
            ),
        );
    }
    Ok(())
}

pub open spec fn patch_completes(patch: TaskPatch) -> bool {
    patch.completed_at matches Some(Some(_))
}

/// A patch may reopen a task but not complete it: completing goes through `complete`.
pub fn validate_patch_completion(patch: &TaskPatch) -> (r: Result<(), AppError>)
    ensures
        r is Ok <==> !patch_completes(*patch),
        patch_completes(*patch) ==> fails_with(
            r,
            "task.completion.use_complete",
            "errors.task.completion.use_complete",
            AppErrorKind::Validation,
        ),
{
    if let Some(Some(_)) = patch.completed_at {
        return Err(
            AppError::new(
                "task.completion.use_complete",
                "errors.task.completion.use_complete",
                AppErrorKind::Validation,
            ),
        );
    }
    Ok(())
}

pub open spec fn restores_recurring(task: Task, patch: TaskPatch) -> bool {
    patch_restores(task, patch) && task.recurrence is Some
}

/// A completed recurring task may not be reopened.
pub fn validate_recurring_restore(task: &Task, patch: &TaskPatch) -> (r: Result<(), AppError>)
    ensures
        r is Ok <==> !restores_recurring(*task, *patch),
        restores_recurring(*task, *patch) ==> fails_with(
            r,
            "task.recurrence.restore.unsupported",
            "errors.task.recurrence.restore.unsupported",
            AppErrorKind::Conflict,
        ),
{
    if task.completed_at.is_some() && task.recurrence.is_some() && matches!(patch.completed_at, Some(None)) {
        return Err(recurring_restore_error());
    }
    Ok(())
}

/// The checks of a patch that the service makes before the task is read.
pub open spec fn patch_passes_service(patch: TaskPatch) -> bool {
    patch.parent_id is None && !patch_completes(patch)
}

/// The checks of a patch that the service makes once the task is read.
pub open spec fn patch_passes_task(task: Task, patch: TaskPatch) -> bool {
    !moves_subtask_project(task, patch) && !restores_recurring(task, patch) && patch_is_valid(task, patch)
}

/// What the outside calls of a change returned, in the order they were
/// made: the read of the stored task (or of its editor), the caller's own
/// check, and the write. A call that was not made is `None`.
pub struct PatchCalls<T> {
    pub read: Option<Result<Option<T>, AppError>>,
    pub checked: Option<Result<(), AppError>>,
    pub written: Option<Result<(), AppError>>,
}

/// `e` is the error that the checks of a patch against the stored task give.
pub open spec fn task_check_fails(task: Task, patch: TaskPatch, e: AppError) -> bool {
    let r = Err::<Task, AppError>(e);
    &&& moves_subtask_project(task, patch) ==> fails_with(
        r,
        "task.subtask.project.inherited",
        "errors.task.subtask.project.inherited",
        AppErrorKind::Validation,
    )
    &&& !moves_subtask_project(task, patch) && restores_recurring(task, patch) ==> fails_with(
        r,
        "task.recurrence.restore.unsupported",
        "errors.task.recurrence.restore.unsupported",
        AppErrorKind::Conflict,
    )
    &&& !moves_subtask_project(task, patch) && !restores_recurring(task, patch) ==> patch_error_ensures(
        r,
        task,
        patch,
    )
}

/// What becomes of a patch of the stored task once it was read and the
/// caller's check returned `checked`: a failed check is the result; else a
/// patch that the task refuses gives the task's error and nothing is
/// written; else the write's failure is the result, and after its success
/// the result is as `done` says.
pub open spec fn after_read<T>(
    task: Task,
    patch: TaskPatch,
    calls: PatchCalls<T>,
    r: Result<Option<T>, AppError>,
    done: spec_fn(Result<Option<T>, AppError>) -> bool,
) -> bool {
    match calls.checked {
        None => false,
        Some(Err(e)) => r == Err::<Option<T>, AppError>(e) && calls.written is None,
        Some(Ok(_)) => if !patch_passes_task(task, patch) {
            calls.written is None && (r matches Err(e) && task_check_fails(task, patch, e))
        } else {
            match calls.written {
                None => false,
                Some(Err(e)) => r == Err::<Option<T>, AppError>(e),
                Some(Ok(_)) => done(r),
            }
        },
    }
}

/// The result of patching the task `id`, given what the outside calls
/// returned: a patch that names a parent, or that completes the task, is
/// refused before the store is read; then the read, the caller's check,
/// the checks against the stored task and the write decide in turn.
pub open spec fn patch_outcome(
    id: u128,
    patch: TaskPatch,
    calls: PatchCalls<Task>,
    r: Result<Option<Task>, AppError>,
) -> bool {
    if !patch_passes_service(patch) {
        &&& calls.read is None
        &&& patch.parent_id is Some ==> is_parent_write_error(r)
        &&& patch.parent_id is None ==> fails_with(
            r,
            "task.completion.use_complete",
            "errors.task.completion.use_complete",
            AppErrorKind::Validation,
        )
    } else {
        match calls.read {
            None => false,
            Some(Err(e)) => r == Err::<Option<Task>, AppError>(e) && calls.checked is None,
            Some(Ok(None)) => r == Ok::<Option<Task>, AppError>(None) && calls.checked is None,
            Some(Ok(Some(task))) => after_read(
                task,
                patch,
                calls,
                r,
                |res: Result<Option<Task>, AppError>|
                    res matches Ok(Some(t)) && patched_task(t, task, patch, t.updated_at),
            ),
        }
    }
}

/// The result of changing the task `id` through its editor, given what the
/// outside calls returned: a patch that completes the task, or names a
/// parent, is refused before the store is read; a stored revision other
/// than the one the caller saw is refused before the caller's check; then
/// the check, the checks against the stored task and the write decide in
/// turn, and the editor is read back.
pub open spec fn editor_update_outcome(
    id: u128,
    expected_revision: i64,
    patch: TaskPatch,
    calls: PatchCalls<TaskEditor>,
    r: Result<Option<TaskEditor>, AppError>,
) -> bool {
    if !patch_passes_service(patch) {
        &&& calls.read is None
        &&& patch_completes(patch) ==> fails_with(
            r,
            "task.completion.use_complete",
            "errors.task.completion.use_complete",
            AppErrorKind::Validation,
        )
        &&& !patch_completes(patch) ==> is_parent_write_error(r)
    } else {
        match calls.read {
            None => false,
            Some(Err(e)) => r == Err::<Option<TaskEditor>, AppError>(e) && calls.checked is None,
            Some(Ok(None)) => r == Ok::<Option<TaskEditor>, AppError>(None) && calls.checked is None,
            Some(Ok(Some(editor))) => if editor.task.revision != expected_revision {
                &&& calls.checked is None
                &&& fails_with(r, "task.concurrent_update", "errors.task.concurrent_update", AppErrorKind::Conflict)
            } else {
                after_read(
                    editor.task,
                    patch,
                    calls,
                    r,
                    |res: Result<Option<TaskEditor>, AppError>| res matches Ok(Some(e)) ==> e.task.id == id,
                )
            },
        }
    }
}

/// A call that the service made on the store for reminders, with the
/// arguments it handed over.
#[derive(Clone, Copy, Debug, PartialEq, Eq, Structural)]
pub enum ReminderStoreCall {
    ListDue { now: UtcDateTime, expired_before: UtcDateTime },
    Claim {
        task_id: u128,
        scheduled_at: UtcDateTime,
        claimed_at: UtcDateTime,
        expired_before: UtcDateTime,
        claim_token: u128,
    },
    MarkDelivered { task_id: u128, scheduled_at: UtcDateTime, delivered_at: UtcDateTime, claim_token: u128 },
    Release { task_id: u128, scheduled_at: UtcDateTime, claim_token: u128 },
}

/// The task service over a store; it keeps a record of the reminder calls it
/// has made on the store.
pub struct TaskService<R> {
    pub repository: R,
    pub reminder_calls: Ghost<Seq<ReminderStoreCall>>,
}

impl<R: TaskRepository> TaskService<R> {
    pub fn new(repository: R) -> (r: Self)
        ensures
            r.repository == repository,
            r.reminder_calls@ == Seq::<ReminderStoreCall>::empty(),
    {
        TaskService { repository, reminder_calls: Ghost(Seq::empty()) }
    }

    /// Creates a task from a draft: a draft that names a parent or fails
    /// the task's checks is refused before the repository is used.
    pub fn create(&self, draft: TaskDraft) -> (r: Result<Task, AppError>)
        ensures
            draft.parent_id is Some ==> is_parent_write_error(r),
            draft.parent_id is None ==> draft_error_ensures(r, draft),
            r matches Ok(t) ==> draft_is_valid(draft) && built_from_draft(t, draft, t.id, t.created_at),
    {
        validate_draft_structure(&draft)?;
        let task = Task::from_draft(draft)?;
        self.repository.insert(&task)?;
        Ok(task)
    }

    /// Changes a stored task by a patch; none where the task does not exist.
    pub fn patch(&self, id: u128, patch: TaskPatch) -> (r: Result<Option<Task>, AppError>)
        ensures
            patch.parent_id is Some ==> is_parent_write_error(r),
            patch.parent_id is None && patch_completes(patch) ==> fails_with(
                r,
                "task.completion.use_complete",
                "errors.task.completion.use_complete",
                AppErrorKind::Validation,
            ),
            r matches Ok(Some(t)) ==> patch_passes_service(patch) && exists|old_task: Task|
                patch_passes_task(old_task, patch) && #[trigger] patched_task(t, old_task, patch, t.updated_at),
            r matches Ok(Some(t)) ==> t.id == id,
    {
        let accept = |task: &Task, change: &TaskPatch| -> (r: Result<(), AppError>)
            ensures
                r is Ok,
            { Ok(()) };
        self.patch_with_pre_update_validation(id, patch, accept).0
    }

    /// Changes a stored task by a patch, after the caller's own check; none
    /// where the task does not exist. With the result comes what each
    /// outside call returned.
    pub fn patch_with_pre_update_validation<F: FnOnce(&Task, &TaskPatch) -> Result<(), AppError>>(
        &self,
        id: u128,
        patch: TaskPatch,
        validate: F,
    ) -> (r: (Result<Option<Task>, AppError>, Ghost<PatchCalls<Task>>))
        requires
            forall|t: &Task, p: &TaskPatch| validate.requires((t, p)),
        ensures
            patch_outcome(id, patch, r.1@, r.0),
            r.1@.read matches Some(Ok(Some(t))) ==> t.id == id && t.wf(),
            patch.parent_id is Some ==> is_parent_write_error(r.0),
            patch.parent_id is None && patch_completes(patch) ==> fails_with(
                r.0,
                "task.completion.use_complete",
                "errors.task.completion.use_complete",
                AppErrorKind::Validation,
            ),
            r.1@.read is None ==> (is_parent_write_error(r.0) ==> patch.parent_id is Some),
            r.1@.read is None <==> !patch_passes_service(patch),
            r.0 matches Ok(Some(t)) ==> patch_passes_service(patch) && exists|old_task: Task|
                patch_passes_task(old_task, patch) && #[trigger] patched_task(t, old_task, patch, t.updated_at),
            r.0 matches Ok(Some(t)) ==> t.id == id,
    {
        let ghost mut calls = PatchCalls::<Task> { read: None, checked: None, written: None };
        if let Err(e) = validate_patch_structure(&patch) {
            return (Err(e), Ghost(calls));
        }
        if let Err(e) = validate_patch_completion(&patch) {
            proof {
                reveal_strlit("task.completion.use_complete");
                reveal_strlit("task.parent.write.unsupported");
                assert(e.code@ != "task.parent.write.unsupported"@) by {
                    assert(e.code@.len() != "task.parent.write.unsupported"@.len());
                }
            }
            return (Err(e), Ghost(calls));
        }
        let read = self.repository.get(id);
        proof {
            calls.read = Some(read);
        }
        let task = match read {
            Err(e) => return (Err(e), Ghost(calls)),
            Ok(None) => return (Ok(None), Ghost(calls)),
            Ok(Some(task)) => task,
        };
        let checked = validate(&task, &patch);
        proof {
            calls.checked = Some(checked);
        }
        if let Err(e) = checked {
            return (Err(e), Ghost(calls));
        }
        let ghost the_patch = patch;
        let write = match patch_write(&task, patch, utc_now()) {
            Ok(write) => write,
            Err(e) => return (Err(e), Ghost(calls)),
        };
        let written = self.repository.update(&write.task, write.expected_revision, write.claim_update);
        proof {
            calls.written = Some(written);
        }
        match written {
            Err(e) => (Err(e), Ghost(calls)),
            Ok(()) => {
                proof {
                    assert(patched_task(write.task, task, the_patch, write.task.updated_at));
                }
                (Ok(Some(write.task)), Ghost(calls))
            },
        }
    }

    /// Completes a stored task; none where it does not exist, an error where
    /// it is already completed.
    pub fn complete(&self, id: u128) -> (r: Result<Option<TaskCompletion>, AppError>)
        ensures
            r matches Ok(Some(c)) ==> exists|task: Task, now: UtcDateTime, next_id: u128|
                task.completed_at is None && #[trigger] completion_ensures(Ok(c), task, now, next_id),
            r matches Ok(Some(c)) ==> c.completed_task.id == id,
    {
        let found = self.repository.get(id)?;
        let now = utc_now();
        let next_id = new_id();
        match completion_outcome(found, now, next_id)? {
            Some((completion, expected_revision)) => {
                self.repository.save_completion(&completion, expected_revision)?;
                Ok(Some(completion))
            },
            None => Ok(None),
        }
    }

    /// The tasks that are not completed.
    pub fn list_inbox(&self) -> (r: Result<Vec<Task>, AppError>)
        ensures
            r matches Ok(tasks) ==> forall|i: int| 0 <= i < tasks@.len() ==> #[trigger] tasks@[i].completed_at is None
                && tasks@[i].wf(),
    {
        self.repository.list_inbox()
    }

    /// The summaries of the tasks that a view holds.
    pub fn list_tasks(&self, view: TaskView) -> (r: Result<Vec<TaskSummaryDto>, AppError>)
        ensures
            r matches Ok(summaries) ==> forall|i: int| 0 <= i < summaries@.len() ==> #[trigger] summary_fits_view(
                view,
                summaries@[i],
            ),
    {
        self.repository.list_tasks(&view)
    }

    /// The tasks whose reminder is due at `now`.
    pub fn list_due_reminder_candidates(&mut self, now: UtcDateTime, expired_before: UtcDateTime) -> (r: Result<
        Vec<Task>,
        AppError,
    >)
        ensures
            r matches Ok(tasks) ==> forall|i: int| 0 <= i < tasks@.len() ==> #[trigger] reminder_due(tasks@[i], now),
            final(self).repository == old(self).repository,
            final(self).reminder_calls@ == old(self).reminder_calls@.push(
                ReminderStoreCall::ListDue { now, expired_before },
            ),
    {
        let r = self.repository.list_due_reminder_candidates(now, expired_before);
        proof {
            self.reminder_calls@ = self.reminder_calls@.push(ReminderStoreCall::ListDue { now, expired_before });
        }
        r
    }

    /// Claims the reminder of a task at its schedule with a token.
    pub fn claim_reminder(
        &mut self,
        task_id: u128,
        scheduled_at: UtcDateTime,
        claimed_at: UtcDateTime,
        expired_before: UtcDateTime,
        claim_token: u128,
    ) -> (r: Result<bool, AppError>)
        ensures
            final(self).repository == old(self).repository,
            final(self).reminder_calls@ == old(self).reminder_calls@.push(
                ReminderStoreCall::Claim { task_id, scheduled_at, claimed_at, expired_before, claim_token },
            ),
    {
        let r = self.repository.claim_reminder(task_id, scheduled_at, claimed_at, expired_before, claim_token);
        proof {
            self.reminder_calls@ = self.reminder_calls@.push(
                ReminderStoreCall::Claim { task_id, scheduled_at, claimed_at, expired_before, claim_token },
            );
        }
        r
    }

    /// Marks the reminder claimed with the token delivered.
    pub fn mark_reminder_delivered(
        &mut self,
        task_id: u128,
        scheduled_at: UtcDateTime,
        delivered_at: UtcDateTime,
        claim_token: u128,
    ) -> (r: Result<bool, AppError>)
        ensures
            final(self).repository == old(self).repository,
            final(self).reminder_calls@ == old(self).reminder_calls@.push(
                ReminderStoreCall::MarkDelivered { task_id, scheduled_at, delivered_at, claim_token },
            ),
    {
        let r = self.repository.mark_reminder_delivered(task_id, scheduled_at, delivered_at, claim_token);
        proof {
            self.reminder_calls@ = self.reminder_calls@.push(
                ReminderStoreCall::MarkDelivered { task_id, scheduled_at, delivered_at, claim_token },
            );
        }
        r
    }

    /// Releases the reminder claimed with the token.
    pub fn release_reminder_claim(&mut self, task_id: u128, scheduled_at: UtcDateTime, claim_token: u128) -> (r:
        Result<bool, AppError>)
        ensures
            final(self).repository == old(self).repository,
            final(self).reminder_calls@ == old(self).reminder_calls@.push(
                ReminderStoreCall::Release { task_id, scheduled_at, claim_token },
            ),
    {
        let r = self.repository.release_reminder_claim(task_id, scheduled_at, claim_token);
        proof {
            self.reminder_calls@ = self.reminder_calls@.push(
                ReminderStoreCall::Release { task_id, scheduled_at, claim_token },
            );
        }
        r
    }
}

impl<R: TaskRepository + TaskEditorRepository> TaskService<R> {
    /// Creates a task with its tags, and reads its editor back.
    pub fn create_editor(&self, draft: TaskDraft, tag_names: Vec<String>) -> (r: Result<TaskEditor, AppError>)
        ensures
            draft.parent_id is Some ==> is_parent_write_error(r),
            draft.parent_id is None && !draft_is_valid(draft) ==> r is Err,
    {
        validate_draft_structure(&draft)?;
        let task = Task::from_draft(draft)?;
        self.repository.create_editor(&task, tag_names.as_slice())?;
        match self.get_editor(task.id)? {
            Some(editor) => Ok(editor),
            None => Err(task_not_found()),
        }
    }

    /// Changes a task through its editor when the caller saw its current
    /// revision; none where the task does not exist.
    pub fn update_editor(
        &self,
        id: u128,
        expected_revision: i64,
        patch: TaskPatch,
        tag_names: Option<Vec<String>>,
    ) -> (r: Result<Option<TaskEditor>, AppError>)
        ensures
            patch_completes(patch) ==> fails_with(
                r,
                "task.completion.use_complete",
                "errors.task.completion.use_complete",
                AppErrorKind::Validation,
            ),
            !patch_completes(patch) && patch.parent_id is Some ==> is_parent_write_error(r),
            r matches Ok(Some(e)) ==> e.task.id == id,
    {
        let accept = |task: &Task, change: &TaskPatch| -> (r: Result<(), AppError>)
            ensures
                r is Ok,
            { Ok(()) };
        self.update_editor_with_pre_update_validation(id, expected_revision, patch, tag_names, accept).0
    }

    /// Changes a task through its editor when the caller saw its current
    /// revision, after the caller's own check; none where the task does not
    /// exist. With the result comes what each outside call returned.
    pub fn update_editor_with_pre_update_validation<F: FnOnce(&Task, &TaskPatch) -> Result<(), AppError>>(
        &self,
        id: u128,
        expected_revision: i64,
        patch: TaskPatch,
        tag_names: Option<Vec<String>>,
        validate: F,
    ) -> (r: (Result<Option<TaskEditor>, AppError>, Ghost<PatchCalls<TaskEditor>>))
        requires
            forall|t: &Task, p: &TaskPatch| validate.requires((t, p)),
        ensures
            editor_update_outcome(id, expected_revision, patch, r.1@, r.0),
            r.1@.read matches Some(Ok(Some(e))) ==> e.task.id == id,
            patch_completes(patch) ==> fails_with(
                r.0,
                "task.completion.use_complete",
                "errors.task.completion.use_complete",
                AppErrorKind::Validation,
            ),
            !patch_completes(patch) && patch.parent_id is Some ==> is_parent_write_error(r.0),
            r.1@.read is None <==> !patch_passes_service(patch),
            r.1@.read is None ==> (is_parent_write_error(r.0) ==> patch.parent_id is Some),
            r.1@.read matches Some(Ok(Some(e))) ==> (r.1@.checked is None <==> e.task.revision != expected_revision),
            r.0 matches Ok(Some(e)) ==> e.task.id == id,
            r.0 matches Ok(Some(e)) ==> exists|stored: Task|
                #![trigger stored.revision]
                stored.id == id && stored.revision == expected_revision && patch_passes_task(stored, patch),
    {
        let ghost mut calls = PatchCalls::<TaskEditor> { read: None, checked: None, written: None };
        if let Err(e) = validate_patch_completion(&patch) {
            proof {
                reveal_strlit("task.completion.use_complete");
                reveal_strlit("task.parent.write.unsupported");
                assert(e.code@ != "task.parent.write.unsupported"@) by {
                    assert(e.code@.len() != "task.parent.write.unsupported"@.len());
                }
            }
            return (Err(e), Ghost(calls));
        }
        if let Err(e) = validate_patch_structure(&patch) {
            return (Err(e), Ghost(calls));
        }
        let read = self.repository.get_editor(id);
        proof {
            calls.read = Some(read);
        }
        let editor = match read {
            Err(e) => return (Err(e), Ghost(calls)),
            Ok(None) => return (Ok(None), Ghost(calls)),
            Ok(Some(editor)) => editor,
        };
        if let Err(e) = check_expected_revision(&editor.task, expected_revision) {
            return (Err(e), Ghost(calls));
        }
        let checked = validate(&editor.task, &patch);
        proof {
            calls.checked = Some(checked);
        }
        if let Err(e) = checked {
            return (Err(e), Ghost(calls));
        }
        let ghost stored = editor.task;
        let write = match patch_write(&editor.task, patch, utc_now()) {
            Ok(write) => write,
            Err(e) => return (Err(e), Ghost(calls)),
        };
        assert(stored.id == id && stored.revision == expected_revision && patch_passes_task(stored, patch));
        let tags = match &tag_names {
            Some(names) => Some(names.as_slice()),
            None => None,
        };
        let written = self.repository.update_editor(&write.task, write.expected_revision, write.claim_update, tags);
        proof {
            calls.written = Some(written);
        }
        if let Err(e) = written {
            return (Err(e), Ghost(calls));
        }
        (self.get_editor(id), Ghost(calls))
    }

    pub fn get_editor(&self, id: u128) -> (r: Result<Option<TaskEditor>, AppError>)
        ensures
            r matches Ok(Some(e)) ==> e.task.id == id,
    {
        self.repository.get_editor(id)
    }
}

/// The parent of a new subtask, as the store found it: a missing parent and
/// a parent that is itself a subtask are refused.
pub fn subtask_parent(found: Option<Task>) -> (r: Result<Task, AppError>)
    ensures
        match found {
            None => fails_with(r, "task.parent.not_found", "errors.task.parent.not_found", AppErrorKind::NotFound),
            Some(p) => if p.parent_id is Some {
                fails_with(
                    r,
                    "task.subtask.nesting.unsupported",
                    "errors.task.subtask.nesting.unsupported",
                    AppErrorKind::Validation,
                )
            } else {
                r == Ok::<Task, AppError>(p)
            },
        },
{
    match found {
        Some(parent) => {
            if parent.parent_id.is_some() {
                Err(nested_subtask_error())
            } else {
                Ok(parent)
            }
        },
        None => Err(parent_not_found()),
    }
}

/// What inserting a subtask gives, by the store's answer: the subtask where
/// it was inserted; otherwise the parent was missing, nested, or changed
/// since it was read.
pub fn subtask_insert_result(outcome: SubtaskInsertOutcome, subtask: Task) -> (r: Result<Task, AppError>)
    ensures
        outcome == SubtaskInsertOutcome::Inserted ==> r == Ok::<Task, AppError>(subtask),
        outcome == SubtaskInsertOutcome::ParentMissing ==> fails_with(
            r,
            "task.parent.not_found",
            "errors.task.parent.not_found",
            AppErrorKind::NotFound,
        ),
        outcome == SubtaskInsertOutcome::ParentNested ==> fails_with(
            r,
            "task.subtask.nesting.unsupported",
            "errors.task.subtask.nesting.unsupported",
            AppErrorKind::Validation,
        ),
        outcome == SubtaskInsertOutcome::ParentChanged ==> fails_with(
            r,
            "task.concurrent_update",
            "errors.task.concurrent_update",
            AppErrorKind::Conflict,
        ),
{
    match outcome {
        SubtaskInsertOutcome::Inserted => Ok(subtask),
        SubtaskInsertOutcome::ParentMissing => Err(parent_not_found()),
        SubtaskInsertOutcome::ParentNested => Err(nested_subtask_error()),
        SubtaskInsertOutcome::ParentChanged => Err(concurrent_task_update_error()),
    }
}

/// What becomes of a reminder claim when a patch is written: a restored task
/// drops its claim, a new schedule drops it where the stored one differs, and
/// otherwise it is kept.
pub open spec fn claim_update_for(task: Task, patch: TaskPatch) -> ReminderClaimStateUpdate {
    if patch_restores(task, patch) {
        ReminderClaimStateUpdate::Clear
    } else if patch.scheduled_at is Some {
        ReminderClaimStateUpdate::ClearIfStoredScheduleDiffers
    } else {
        ReminderClaimStateUpdate::Preserve
    }
}

/// What a patch of a stored task hands to the store: the patched task, the
/// revision that was read, which the store must still hold, and what becomes
/// of a reminder claim.
pub struct PatchWrite {
    pub task: Task,
    pub expected_revision: i64,
    pub claim_update: ReminderClaimStateUpdate,
}

pub open spec fn written_task(r: Result<PatchWrite, AppError>) -> Result<Task, AppError> {
    match r {
        Ok(w) => Ok(w.task),
        Err(e) => Err(e),
    }
}

/// The write that a patch of the stored task makes at `now`, once the
/// caller's own check passed: a subtask may not change project, a completed
/// recurring task may not be reopened, and the patch must be valid for the task.
pub fn patch_write(stored: &Task, patch: TaskPatch, now: UtcDateTime) -> (r: Result<PatchWrite, AppError>)
    ensures
        moves_subtask_project(*stored, patch) ==> fails_with(
            r,
            "task.subtask.project.inherited",
            "errors.task.subtask.project.inherited",
            AppErrorKind::Validation,
        ),
        !moves_subtask_project(*stored, patch) && restores_recurring(*stored, patch) ==> fails_with(
            r,
            "task.recurrence.restore.unsupported",
            "errors.task.recurrence.restore.unsupported",
            AppErrorKind::Conflict,
        ),
        !moves_subtask_project(*stored, patch) && !restores_recurring(*stored, patch) ==> patch_error_ensures(
            written_task(r),
            *stored,
            patch,
        ),
        r is Ok <==> patch_passes_task(*stored, patch),
        r matches Ok(w) ==> patched_task(w.task, *stored, patch, now) && w.expected_revision == stored.revision
            && w.claim_update == claim_update_for(*stored, patch),
{
    validate_subtask_project_patch(stored, &patch)?;
    validate_recurring_restore(stored, &patch)?;
    let claim_update = stored.reminder_claim_state_update_for_patch(&patch);
    let task = stored.apply_patch_at(patch, now)?;
    Ok(PatchWrite { task, expected_revision: stored.revision, claim_update })
}

/// A change made through the editor needs the revision the caller saw to be
/// the stored one.
pub fn check_expected_revision(stored: &Task, expected_revision: i64) -> (r: Result<(), AppError>)
    ensures
        r is Ok <==> stored.revision == expected_revision,
        r is Err ==> fails_with(r, "task.concurrent_update", "errors.task.concurrent_update", AppErrorKind::Conflict),
{
    if stored.revision != expected_revision {
        return Err(concurrent_task_update_error());
    }
    Ok(())
}

/// What completing the stored task gives at `now`, with `next_id` for a next
/// instance: none where no task is stored; an error where it is completed
/// already; else the completion, with the revision that was read, which
/// the store must still hold when the completion is saved.
pub fn completion_outcome(found: Option<Task>, now: UtcDateTime, next_id: u128) -> (r: Result<
    Option<(TaskCompletion, i64)>,
    AppError,
>)
    requires
        found matches Some(t) ==> t.wf(),
    ensures
        match found {
            None => r matches Ok(None),
            Some(t) => if t.completed_at is Some {
                fails_with(r, "task.already_completed", "errors.task.already_completed", AppErrorKind::Conflict)
            } else {
                match r {
                    Ok(Some((c, revision))) => revision == t.revision && completion_ensures(Ok(c), t, now, next_id),
                    Ok(None) => false,
                    Err(e) => completion_ensures(Err(e), t, now, next_id),
                }
            },
        },
{
    let task = match found {
        Some(task) => task,
        None => return Ok(None),
    };
    ensure_open(&task)?;
    let completion = complete_task_with_next_id(&task, now, next_id)?;
    Ok(Some((completion, task.revision)))
}

/// The subtask that a parent gets, with a title, an identifier and a
/// creation instant: a task in the parent's project, under the parent, with
/// every other field at its default.
pub fn subtask_of(parent: &Task, parent_id: u128, title: &str, id: u128, now: UtcDateTime) -> (r: Result<
    Task,
    AppError,
>)
    ensures
        r is Ok <==> is_title_valid(title@),
        is_title_blank(title@) ==> fails_with(r, "task.title.blank", "errors.task.title.blank", AppErrorKind::Validation),
        is_title_too_long(title@) ==> fails_with(
            r,
            "task.title.too_long",
            "errors.task.title.too_long",
            AppErrorKind::Validation,
        ),
        r matches Ok(t) ==> t.id == id && t.title@ == crate::text::trimmed(title@) && t.note@ == Seq::<char>::empty()
            && t.project_id == parent.project_id && t.parent_id == Some(parent_id) && t.priority
            == Priority::Normal && t.scheduled_at is None && t.due_at is None && t.completed_at is None
            && t.reminder_sent_at is None && t.recurrence is None && t.monthly_anchor_day is None
            && t.instance_number == 1 && t.created_at == now && t.updated_at == now && t.revision == 1,
{
    let mut draft = TaskDraft::new(title)?;
    draft.project_id = parent.project_id;
    draft.parent_id = Some(parent_id);
    Task::from_draft_at(draft, id, now)
}

/// What completing a stored task may go on with: a completed task may not be
/// completed again.
pub fn ensure_open(task: &Task) -> (r: Result<(), AppError>)
    ensures
        r is Ok <==> task.completed_at is None,
        task.completed_at is Some ==> fails_with(
            r,
            "task.already_completed",
            "errors.task.already_completed",
            AppErrorKind::Conflict,
        ),
{
    if task.completed_at.is_some() {
        return Err(already_completed_error());
    }
    Ok(())
}

impl<R: TaskRepository + SubtaskRepository> TaskService<R> {
    /// Creates a subtask under a top-level parent, in the parent's project.
    pub fn create_subtask(&self, parent_id: u128, title: &str) -> (r: Result<Task, AppError>)
        ensures
            r matches Ok(t) ==> t.parent_id == Some(parent_id) && t.title@ == crate::text::trimmed(title@),
            r matches Ok(t) ==> is_title_valid(title@) && t.completed_at is None && t.reminder_sent_at is None
                && t.recurrence is None && t.scheduled_at is None && t.due_at is None && t.instance_number == 1
                && t.revision == 1 && t.priority == Priority::Normal,
            r matches Ok(t) ==> exists|p: Task|
                #![trigger p.project_id]
                p.id == parent_id && p.parent_id is None && t.project_id == p.project_id,
    {
        let found = self.repository.get(parent_id)?;
        let parent = subtask_parent(found)?;
        let task = subtask_of(&parent, parent_id, title, new_id(), utc_now())?;
        assert(parent.id == parent_id && parent.parent_id is None && task.project_id == parent.project_id);
        let outcome = self.repository.insert_subtask(&parent, &task)?;
        subtask_insert_result(outcome, task)
    }
}

} // verus!
