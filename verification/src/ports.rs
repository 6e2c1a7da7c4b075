//! The ports through which the domain reaches storage and other services;
//! the application implements them.
use vstd::prelude::*;

use crate::calendar::UtcDateTime;
use crate::error::AppError;
use crate::project::Project;
use crate::recurrence::TaskCompletion;
use crate::sync_merge::SyncFieldConflict;
use crate::sync::SyncEntityKind;
use crate::sync_service::{SyncConfig, SyncSnapshot, SyncState};
use crate::task::{ReminderClaimStateUpdate, Task};
use crate::task_query::{summary_fits_view, TaskSummaryDto, TaskView};

verus! {

/// A task with its tag names and subtasks, as the editor shows it.
#[derive(Clone, Debug)]
pub struct TaskEditor {
    pub task: Task,
    pub tag_names: Vec<String>,
    pub subtasks: Vec<Task>,
}

/// How inserting a subtask under a parent snapshot went.
#[derive(Clone, Copy, Debug, PartialEq, Eq, Structural)]
pub enum SubtaskInsertOutcome {
    Inserted,
    ParentMissing,
    ParentNested,
    ParentChanged,
}

pub trait ProjectRepository {
    fn insert_project(&self, project: &Project) -> Result<(), AppError>;

    /// The stored project with this id.
    fn get_project(&self, id: u128) -> (r: Result<Option<Project>, AppError>)
        ensures
            r matches Ok(Some(p)) ==> p.id == id,
    ;

    fn update_project(&self, project: &Project) -> Result<(), AppError>;

    /// The projects that are not archived.
    fn list_active_projects(&self) -> (r: Result<Vec<Project>, AppError>)
        ensures
            r matches Ok(projects) ==> forall|i: int| 0 <= i < projects@.len() ==> #[trigger] projects@[i].archived_at is None,
    ;
}

/// A task's reminder is due at `now`: the task is open, its reminder has not
/// been delivered, and it is scheduled at or before `now`.
pub open spec fn reminder_due(task: Task, now: UtcDateTime) -> bool {
    &&& task.completed_at is None
    &&& task.reminder_sent_at is None
    &&& task.scheduled_at matches Some(s) && !now.is_before(s)
    &&& task.wf()
}

pub trait TaskRepository {
    fn insert(&self, task: &Task) -> Result<(), AppError>;

    fn update(
        &self,
        task: &Task,
        expected_revision: i64,
        reminder_claim_state_update: ReminderClaimStateUpdate,
    ) -> Result<(), AppError>;

    fn save_completion(&self, completion: &TaskCompletion, expected_revision: i64) -> Result<(), AppError>;

    /// The stored task with this id; its instants are valid, as stored
    /// instants are.
    fn get(&self, id: u128) -> (r: Result<Option<Task>, AppError>)
        ensures
            r matches Ok(Some(t)) ==> t.wf() && t.id == id,
    ;

    /// The stored tasks that are not completed.
    fn list_inbox(&self) -> (r: Result<Vec<Task>, AppError>)
        ensures
            r matches Ok(tasks) ==> forall|i: int| 0 <= i < tasks@.len() ==> #[trigger] tasks@[i].completed_at is None
                && tasks@[i].wf(),
    ;

    /// The summaries of the tasks that a view holds.
    fn list_tasks(&self, view: &TaskView) -> (r: Result<Vec<TaskSummaryDto>, AppError>)
        ensures
            r matches Ok(summaries) ==> forall|i: int| 0 <= i < summaries@.len() ==> #[trigger] summary_fits_view(
                *view,
                summaries@[i],
            ),
    ;

    /// The open tasks whose reminder is due at `now` and not yet delivered,
    /// and whose claim, if any, was taken before `expired_before`.
    fn list_due_reminder_candidates(&self, now: UtcDateTime, expired_before: UtcDateTime) -> (r: Result<
        Vec<Task>,
        AppError,
    >)
        ensures
            r matches Ok(tasks) ==> forall|i: int| 0 <= i < tasks@.len() ==> #[trigger] reminder_due(tasks@[i], now),
    ;

    fn claim_reminder(
        &self,
        task_id: u128,
        scheduled_at: UtcDateTime,
        claimed_at: UtcDateTime,
        expired_before: UtcDateTime,
        claim_token: u128,
    ) -> Result<bool, AppError>;

    fn mark_reminder_delivered(
        &self,
        task_id: u128,
        scheduled_at: UtcDateTime,
        delivered_at: UtcDateTime,
        claim_token: u128,
    ) -> Result<bool, AppError>;

    fn release_reminder_claim(&self, task_id: u128, scheduled_at: UtcDateTime, claim_token: u128) -> Result<
        bool,
        AppError,
    >;
}

pub trait TaskEditorRepository {
    fn create_editor(&self, task: &Task, tag_names: &[String]) -> Result<(), AppError>;

    fn update_editor(
        &self,
        task: &Task,
        expected_revision: i64,
        reminder_claim_state_update: ReminderClaimStateUpdate,
        tag_names: Option<&[String]>,
    ) -> Result<(), AppError>;

    /// The editor of the stored task with this id.
    fn get_editor(&self, id: u128) -> (r: Result<Option<TaskEditor>, AppError>)
        ensures
            r matches Ok(Some(e)) ==> e.task.id == id,
    ;
}

pub trait SubtaskRepository {
    fn insert_subtask(&self, parent_snapshot: &Task, subtask: &Task) -> Result<SubtaskInsertOutcome, AppError>;
}

/// A provider of AI suggestions, reserved for a later milestone.
pub trait AiProvider {
    fn provider_id(&self) -> &str;

    fn validate_configuration(&self, base_url: &str) -> Result<(), AppError>;
}

/// A backend of synchronisation, reserved for a later milestone.
pub trait SyncBackend {
    fn backend_kind(&self) -> SyncBackendKind;
}

#[derive(Clone, Copy, Debug, PartialEq, Eq, Structural)]
pub enum SyncBackendKind {
    WebDav,
}

pub trait SyncRepository {
    fn get_local_sync_snapshot(&self) -> Result<SyncSnapshot, AppError>;

    fn apply_sync_snapshot(&self, snapshot: &SyncSnapshot) -> Result<(), AppError>;

    fn replace_sync_snapshot(&self, snapshot: &SyncSnapshot) -> Result<(), AppError>;

    fn get_sync_config(&self) -> Result<Option<SyncConfig>, AppError>;

    fn save_sync_config(&self, config: &SyncConfig) -> Result<(), AppError>;

    fn get_sync_state(&self) -> Result<SyncState, AppError>;

    fn save_sync_state(&self, state: &SyncState) -> Result<(), AppError>;

    fn save_sync_baseline(&self, snapshot: &SyncSnapshot) -> Result<(), AppError>;

    fn get_sync_baseline(&self) -> Result<Option<SyncSnapshot>, AppError>;

    fn save_sync_conflict(&self, conflict: &SyncFieldConflict) -> Result<(), AppError>;

    fn list_sync_conflicts(&self) -> Result<Vec<SyncFieldConflict>, AppError>;

    fn resolve_sync_conflict(
        &self,
        entity_id: u128,
        entity_kind: SyncEntityKind,
        field_name: &str,
        decision: &str,
    ) -> Result<(), AppError>;
}

/// An attachment about to be added to a task, reserved for a later milestone.
#[derive(Clone, Debug)]
pub struct AttachmentDraft {
    pub task_id: u128,
    pub file_name: String,
    pub media_type: String,
}

/// A comment about to be added to a task, reserved for a later milestone.
#[derive(Clone, Debug)]
pub struct CommentDraft {
    pub task_id: u128,
    pub body: String,
}

} // verus!
