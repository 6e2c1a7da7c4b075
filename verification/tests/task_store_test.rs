use std::cell::{Cell, RefCell};
use std::collections::BTreeSet;

use chrono::{Datelike, Local, NaiveDate, NaiveTime, TimeZone, Timelike, Utc};

use todo_app::calendar::{CivilDate, UtcDateTime};
use todo_app::commands::CommandError;
use todo_app::error::{AppError, AppErrorKind};
use todo_app::notification::{
    NativeNotificationPresenter, NotificationMessage, TauriReminderNotifier, TaskMutationEvent, TaskMutationNotifier,
};
use todo_app::ports::{
    ProjectRepository, SubtaskInsertOutcome, SubtaskRepository, TaskEditor, TaskEditorRepository, TaskRepository,
};
use todo_app::project::{Project, ProjectService};
use todo_app::project_commands::{
    archive_project_from_input, create_project_from_input, list_projects_with, rename_project_from_input,
    ArchiveProjectInput, CreateProjectInput, RenameProjectInput,
};
use todo_app::reminders::{ReminderNotifier, ReminderScheduler};
use todo_app::recurrence::{Frequency, RecurrenceRule, TaskCompletion};
use todo_app::storage::{
    completion_conflict_error, project_storage_error, reassigned_subtask, reminder_claim_flags, storage_error,
    subtask_insert_failure,
};
use todo_app::task::{Priority, ReminderClaimStateUpdate, Task, TaskDraft, TaskPatch};
use todo_app::task_commands::{
    complete_task_with_service, complete_task_with_service_and_rescan,
    complete_task_with_service_and_rescan_and_notify, create_subtask_with_service_and_rescan,
    create_subtask_with_service_and_rescan_and_notify, create_task_editor_with_services_and_rescan,
    create_task_editor_with_services_and_rescan_and_notify, create_task_with_services,
    create_task_with_services_and_rescan, create_task_with_services_and_rescan_and_notify,
    get_task_editor_with_service, update_task_editor_with_services_and_rescan,
    update_task_editor_with_services_and_rescan_and_notify, update_task_with_services,
    update_task_with_services_and_rescan, update_task_with_services_and_rescan_and_notify,
    ReminderRescanRequester,
};
use todo_app::task_query::{task_in_view, TaskSummaryDto, TaskView, ViewFacts};
use todo_app::task_service::{concurrent_task_update_error, TaskService};

/// A store that keeps rows in memory and writes them under the same
/// conditions as the database: revisions must match, a completion needs an
/// open task, a subtask needs an unchanged top-level parent, and a reminder
/// claim needs a due, unclaimed (or expired) and unsent reminder. A write
/// that fails changes nothing.
#[derive(Default)]
struct MemoryStore {
    tasks: RefCell<Vec<Task>>,
    claims: RefCell<Vec<Claim>>,
    claim_log: RefCell<Vec<u128>>,
    tags: RefCell<Vec<(u128, String)>>,
    projects: RefCell<Vec<Project>>,
    fail_tag_writes: Cell<bool>,
    fail_subtask_update_for: Cell<Option<u128>>,
    delivery_failures: Cell<usize>,
    release_attempts: Cell<usize>,
    after_first_read: RefCell<Option<(u128, Hook)>>,
    before_first_update: RefCell<Option<Hook>>,
}

type Hook = Box<dyn FnOnce(&MemoryStore)>;

#[derive(Clone, Copy)]
struct Claim {
    task_id: u128,
    claimed_at: UtcDateTime,
    token: u128,
}

impl MemoryStore {
    fn after_first_read_of(&self, task_id: u128, hook: impl FnOnce(&MemoryStore) + 'static) {
        *self.after_first_read.borrow_mut() = Some((task_id, Box::new(hook)));
    }

    fn before_first_update(&self, hook: impl FnOnce(&MemoryStore) + 'static) {
        *self.before_first_update.borrow_mut() = Some(Box::new(hook));
    }

    fn claim_of(&self, task_id: u128) -> Option<Claim> {
        self.claims.borrow().iter().copied().find(|claim| claim.task_id == task_id)
    }

    fn clear_claim(&self, task_id: u128) {
        self.claims.borrow_mut().retain(|claim| claim.task_id != task_id);
    }

    fn write_task(&self, task: &Task, expected_revision: i64, update: ReminderClaimStateUpdate) -> Result<(), AppError> {
        let mut tasks = self.tasks.borrow().clone();
        let Some(position) = tasks.iter().position(|t| t.id == task.id && t.revision == expected_revision) else {
            return Err(concurrent_task_update_error());
        };
        let (clear, clear_if_schedule_differs) = reminder_claim_flags(update);
        let clears = clear || (clear_if_schedule_differs && tasks[position].scheduled_at != task.scheduled_at);
        let mut written = task.clone();
        written.reminder_sent_at = if clears { None } else { tasks[position].reminder_sent_at };
        tasks[position] = written;
        for index in 0..tasks.len() {
            if tasks[index].parent_id == Some(task.id) {
                if let Some(moved) = reassigned_subtask(&tasks[index], task)? {
                    if self.fail_subtask_update_for.get() == Some(moved.id) {
                        return Err(storage_error());
                    }
                    tasks[index] = moved;
                }
            }
        }
        *self.tasks.borrow_mut() = tasks;
        if clears {
            self.clear_claim(task.id);
        }
        Ok(())
    }

    fn replace_tags(&self, task_id: u128, tag_names: &[String]) {
        let mut tags = self.tags.borrow_mut();
        tags.retain(|(id, _)| *id != task_id);
        for name in tag_names {
            tags.push((task_id, name.clone()));
        }
    }

    fn tag_names(&self, task_id: u128) -> Vec<String> {
        let mut names: Vec<String> =
            self.tags.borrow().iter().filter(|(id, _)| *id == task_id).map(|(_, name)| name.clone()).collect();
        names.sort();
        names
    }

    fn stored(&self, id: u128) -> Option<Task> {
        self.tasks.borrow().iter().find(|t| t.id == id).cloned()
    }
}

impl TaskRepository for &MemoryStore {
    fn insert(&self, task: &Task) -> Result<(), AppError> {
        self.tasks.borrow_mut().push(task.clone());
        Ok(())
    }

    fn update(&self, task: &Task, expected_revision: i64, update: ReminderClaimStateUpdate) -> Result<(), AppError> {
        let hook = self.before_first_update.borrow_mut().take();
        if let Some(hook) = hook {
            hook(*self);
        }
        self.write_task(task, expected_revision, update)
    }

    fn save_completion(&self, completion: &TaskCompletion, expected_revision: i64) -> Result<(), AppError> {
        let mut tasks = self.tasks.borrow_mut();
        let completed = &completion.completed_task;
        match tasks
            .iter()
            .position(|t| t.id == completed.id && t.completed_at.is_none() && t.revision == expected_revision)
        {
            Some(index) => {
                tasks[index].completed_at = completed.completed_at;
                tasks[index].updated_at = completed.updated_at;
                tasks[index].revision = completed.revision;
            }
            None => {
                let stored = tasks.iter().find(|t| t.id == completed.id).map(|t| t.completed_at.is_some());
                return Err(completion_conflict_error(stored));
            }
        }
        if let Some(next) = &completion.next_task {
            tasks.push(next.clone());
        }
        Ok(())
    }

    fn get(&self, id: u128) -> Result<Option<Task>, AppError> {
        let task = self.stored(id);
        let pending = self.after_first_read.borrow_mut().take();
        let hook = match pending {
            Some((task_id, hook)) if task_id == id => Some(hook),
            other => {
                *self.after_first_read.borrow_mut() = other;
                None
            }
        };
        if let Some(hook) = hook {
            hook(*self);
        }
        Ok(task)
    }

    fn list_inbox(&self) -> Result<Vec<Task>, AppError> {
        let mut open: Vec<Task> = self.tasks.borrow().iter().filter(|t| t.completed_at.is_none()).cloned().collect();
        open.sort_by_key(|t| (t.scheduled_at, t.created_at));
        Ok(open)
    }

    fn list_tasks(&self, view: &TaskView) -> Result<Vec<TaskSummaryDto>, AppError> {
        let tasks = self.tasks.borrow().clone();
        let mut listed: Vec<&Task> = tasks
            .iter()
            .filter(|t| {
                let facts = ViewFacts {
                    is_top_level: t.parent_id.is_none(),
                    is_completed: t.completed_at.is_some(),
                    project_id: t.project_id,
                    scheduled_day: t.scheduled_at.map(local_day),
                    completed_day: t.completed_at.map(local_day),
                };
                task_in_view(view, &facts)
            })
            .collect();
        match view {
            TaskView::Completed => listed.sort_by(|a, b| b.completed_at.cmp(&a.completed_at).then(a.created_at.cmp(&b.created_at))),
            TaskView::QuickPanelToday { .. } => {
                listed.sort_by_key(|t| (t.completed_at.is_some(), t.scheduled_at, t.created_at))
            }
            _ => listed.sort_by_key(|t| (t.scheduled_at, t.created_at)),
        }
        Ok(listed
            .into_iter()
            .map(|t| TaskSummaryDto {
                id: uuid::Uuid::from_u128(t.id).to_string(),
                title: t.title.clone(),
                project_name: None,
                tags: self.tag_names(t.id),
                priority: t.priority,
                scheduled_at: t.scheduled_at,
                due_at: t.due_at,
                completed: t.completed_at.is_some(),
                child_total: tasks.iter().filter(|c| c.parent_id == Some(t.id)).count() as u32,
                child_completed: tasks
                    .iter()
                    .filter(|c| c.parent_id == Some(t.id) && c.completed_at.is_some())
                    .count() as u32,
            })
            .collect())
    }

    fn list_due_reminder_candidates(&self, now: UtcDateTime, expired_before: UtcDateTime) -> Result<Vec<Task>, AppError> {
        let mut due: Vec<Task> = self
            .tasks
            .borrow()
            .iter()
            .filter(|t| {
                t.scheduled_at.is_some_and(|scheduled| scheduled <= now)
                    && t.completed_at.is_none()
                    && t.reminder_sent_at.is_none()
                    && self.claim_of(t.id).map_or(true, |claim| claim.claimed_at <= expired_before)
            })
            .cloned()
            .collect();
        due.sort_by_key(|t| (t.scheduled_at, t.created_at));
        Ok(due)
    }

    fn claim_reminder(
        &self,
        task_id: u128,
        scheduled_at: UtcDateTime,
        claimed_at: UtcDateTime,
        expired_before: UtcDateTime,
        claim_token: u128,
    ) -> Result<bool, AppError> {
        let claimable = self.stored(task_id).is_some_and(|t| {
            t.scheduled_at == Some(scheduled_at) && t.completed_at.is_none() && t.reminder_sent_at.is_none()
        }) && self.claim_of(task_id).map_or(true, |claim| claim.claimed_at <= expired_before);
        if claimable {
            self.clear_claim(task_id);
            self.claims.borrow_mut().push(Claim { task_id, claimed_at, token: claim_token });
            self.claim_log.borrow_mut().push(claim_token);
        }
        Ok(claimable)
    }

    fn mark_reminder_delivered(
        &self,
        task_id: u128,
        scheduled_at: UtcDateTime,
        delivered_at: UtcDateTime,
        claim_token: u128,
    ) -> Result<bool, AppError> {
        if self.delivery_failures.get() > 0 {
            self.delivery_failures.set(self.delivery_failures.get() - 1);
            return Err(storage_error());
        }
        let deliverable = self.stored(task_id).is_some_and(|t| {
            t.scheduled_at == Some(scheduled_at) && t.completed_at.is_none() && t.reminder_sent_at.is_none()
        }) && self.claim_of(task_id).is_some_and(|claim| claim.token == claim_token);
        if deliverable {
            if let Some(task) = self.tasks.borrow_mut().iter_mut().find(|t| t.id == task_id) {
                task.reminder_sent_at = Some(delivered_at);
            }
            self.clear_claim(task_id);
        }
        Ok(deliverable)
    }

    fn release_reminder_claim(&self, task_id: u128, scheduled_at: UtcDateTime, claim_token: u128) -> Result<bool, AppError> {
        self.release_attempts.set(self.release_attempts.get() + 1);
        let releasable = self
            .stored(task_id)
            .is_some_and(|t| t.scheduled_at == Some(scheduled_at) && t.reminder_sent_at.is_none())
            && self.claim_of(task_id).is_some_and(|claim| claim.token == claim_token);
        if releasable {
            self.clear_claim(task_id);
        }
        Ok(releasable)
    }
}

impl TaskEditorRepository for &MemoryStore {
    fn create_editor(&self, task: &Task, tag_names: &[String]) -> Result<(), AppError> {
        if self.fail_tag_writes.get() && !tag_names.is_empty() {
            return Err(storage_error());
        }
        self.tasks.borrow_mut().push(task.clone());
        self.replace_tags(task.id, tag_names);
        Ok(())
    }

    fn update_editor(
        &self,
        task: &Task,
        expected_revision: i64,
        update: ReminderClaimStateUpdate,
        tag_names: Option<&[String]>,
    ) -> Result<(), AppError> {
        if self.fail_tag_writes.get() && tag_names.is_some_and(|names| !names.is_empty()) {
            return Err(storage_error());
        }
        self.write_task(task, expected_revision, update)?;
        if let Some(names) = tag_names {
            self.replace_tags(task.id, names);
        }
        Ok(())
    }

    fn get_editor(&self, id: u128) -> Result<Option<TaskEditor>, AppError> {
        let Some(task) = self.tasks.borrow().iter().find(|t| t.id == id).cloned() else {
            return Ok(None);
        };
        let mut subtasks: Vec<Task> =
            self.tasks.borrow().iter().filter(|t| t.parent_id == Some(id)).cloned().collect();
        subtasks.sort_by_key(|t| (t.created_at, t.id));
        Ok(Some(TaskEditor { task, tag_names: self.tag_names(id), subtasks }))
    }
}

impl SubtaskRepository for &MemoryStore {
    fn insert_subtask(&self, parent_snapshot: &Task, subtask: &Task) -> Result<SubtaskInsertOutcome, AppError> {
        let stored = self.tasks.borrow().iter().find(|t| t.id == parent_snapshot.id).cloned();
        if let Some(parent) = &stored {
            if parent.parent_id.is_none()
                && parent.revision == parent_snapshot.revision
                && parent.project_id == parent_snapshot.project_id
            {
                self.tasks.borrow_mut().push(subtask.clone());
                return Ok(SubtaskInsertOutcome::Inserted);
            }
        }
        subtask_insert_failure(stored.as_ref(), parent_snapshot)
    }
}

impl ProjectRepository for &MemoryStore {
    fn insert_project(&self, project: &Project) -> Result<(), AppError> {
        let mut projects = self.projects.borrow_mut();
        if projects.iter().any(|p| p.name.to_lowercase() == project.name.to_lowercase()) {
            return Err(project_storage_error(true));
        }
        projects.push(project.clone());
        Ok(())
    }

    fn get_project(&self, id: u128) -> Result<Option<Project>, AppError> {
        Ok(self.projects.borrow().iter().find(|p| p.id == id).cloned())
    }

    fn update_project(&self, project: &Project) -> Result<(), AppError> {
        let mut projects = self.projects.borrow_mut();
        if let Some(stored) = projects.iter_mut().find(|p| p.id == project.id) {
            *stored = project.clone();
        }
        Ok(())
    }

    fn list_active_projects(&self) -> Result<Vec<Project>, AppError> {
        Ok(self.projects.borrow().iter().filter(|p| p.archived_at.is_none()).cloned().collect())
    }
}

#[derive(Default)]
struct RecordingTaskMutationNotifier {
    events: RefCell<Vec<TaskMutationEvent>>,
    fails: bool,
}

impl RecordingTaskMutationNotifier {
    fn failing() -> Self {
        Self { events: RefCell::new(Vec::new()), fails: true }
    }

    fn events(&self) -> Vec<TaskMutationEvent> {
        self.events.borrow().clone()
    }
}

impl TaskMutationNotifier for RecordingTaskMutationNotifier {
    fn notify(&self, event: TaskMutationEvent) -> Result<(), AppError> {
        self.events.borrow_mut().push(event);
        if self.fails {
            return Err(AppError::new(
                "task.mutation_notification.failed",
                "errors.task.mutation_notification.failed",
                AppErrorKind::Internal,
            ));
        }
        Ok(())
    }
}

#[derive(Default)]
struct FailingRescanRequester {
    request_count: Cell<usize>,
}

impl FailingRescanRequester {
    fn request_count(&self) -> usize {
        self.request_count.get()
    }
}

impl ReminderRescanRequester for FailingRescanRequester {
    fn request_rescan(&self) -> Result<(), AppError> {
        self.request_count.set(self.request_count.get() + 1);
        Err(AppError::new("reminder.worker.unavailable", "errors.reminder.worker.unavailable", AppErrorKind::Internal))
    }
}

fn command_error(code: &str) -> CommandError {
    CommandError { code: code.into(), message_key: format!("errors.{code}") }
}

fn draft(title: &str) -> TaskDraft {
    TaskDraft::new(title).unwrap()
}

fn draft_in(title: &str, project_id: Option<u128>) -> TaskDraft {
    let mut draft = draft(title);
    draft.project_id = project_id;
    draft
}

fn for_test(title: &str) -> Task {
    Task::from_draft(draft(title)).unwrap()
}

fn note(text: &str) -> TaskPatch {
    TaskPatch { note: Some(text.into()), ..Default::default() }
}

fn fixed_utc(year: i32, month: u32, day: u32, hour: u32, minute: u32, second: u32) -> UtcDateTime {
    UtcDateTime::from_ymd_hms(year, month, day, hour, minute, second).unwrap()
}

fn random_id() -> u128 {
    uuid::Uuid::new_v4().as_u128()
}

fn same_task(left: &Task, right: &Task) -> bool {
    format!("{left:?}") == format!("{right:?}")
}

fn tags(names: &[&str]) -> Option<Vec<String>> {
    Some(names.iter().map(|name| name.to_string()).collect())
}

#[test]
fn successful_task_mutations_request_rescan_without_propagating_request_errors() {
    let store = MemoryStore::default();
    let task_service = TaskService::new(&store);
    let project_service = ProjectService::new(&store);
    let rescan_requester = FailingRescanRequester::default();

    let created =
        create_task_with_services_and_rescan(&task_service, &project_service, &rescan_requester, draft("Publish release"))
            .unwrap();
    update_task_with_services_and_rescan(&task_service, &project_service, &rescan_requester, created.id, note("Ready"))
        .unwrap();
    complete_task_with_service_and_rescan(&task_service, &rescan_requester, created.id).unwrap();

    assert_eq!(rescan_requester.request_count(), 3);
}

#[test]
fn successful_task_mutations_broadcast_current_task_id_and_revision_once() {
    let store = MemoryStore::default();
    let task_service = TaskService::new(&store);
    let project_service = ProjectService::new(&store);
    let rescan_requester = FailingRescanRequester::default();
    let notifier = RecordingTaskMutationNotifier::default();

    let created = create_task_with_services_and_rescan_and_notify(
        &task_service,
        &project_service,
        &rescan_requester,
        &notifier,
        draft("Publish release"),
    )
    .unwrap();
    let updated = update_task_with_services_and_rescan_and_notify(
        &task_service,
        &project_service,
        &rescan_requester,
        &notifier,
        created.id,
        note("Ready"),
    )
    .unwrap();
    let completed =
        complete_task_with_service_and_rescan_and_notify(&task_service, &rescan_requester, &notifier, updated.id)
            .unwrap();
    let editor_created = create_task_editor_with_services_and_rescan_and_notify(
        &task_service,
        &project_service,
        &rescan_requester,
        &notifier,
        draft("Plan M2"),
        tags(&["m2"]),
    )
    .unwrap();
    let editor_updated = update_task_editor_with_services_and_rescan_and_notify(
        &task_service,
        &project_service,
        &rescan_requester,
        &notifier,
        editor_created.task.id,
        editor_created.task.revision,
        note("Broadcast changes"),
        None,
    )
    .unwrap();
    let subtask = create_subtask_with_service_and_rescan_and_notify(
        &task_service,
        &rescan_requester,
        &notifier,
        editor_updated.task.id,
        "Verify broadcasts",
    )
    .unwrap();

    assert_eq!(
        notifier.events(),
        vec![
            TaskMutationEvent::new(created.id, created.revision),
            TaskMutationEvent::new(updated.id, updated.revision),
            TaskMutationEvent::new(completed.id, completed.revision),
            TaskMutationEvent::new(editor_created.task.id, editor_created.task.revision),
            TaskMutationEvent::new(editor_updated.task.id, editor_updated.task.revision),
            TaskMutationEvent::new(subtask.id, subtask.revision),
        ]
    );
}

#[test]
fn failed_task_mutations_do_not_broadcast() {
    let store = MemoryStore::default();
    let task_service = TaskService::new(&store);
    let project_service = ProjectService::new(&store);
    let rescan_requester = FailingRescanRequester::default();
    let notifier = RecordingTaskMutationNotifier::default();

    assert_eq!(
        update_task_with_services_and_rescan_and_notify(
            &task_service,
            &project_service,
            &rescan_requester,
            &notifier,
            random_id(),
            note("Missing"),
        )
        .unwrap_err()
        .code,
        "task.not_found"
    );

    let editor = task_service
        .create_editor(
            TaskDraft {
                due_at: None,
                note: String::new(),
                parent_id: None,
                priority: Priority::Normal,
                project_id: None,
                recurrence: None,
                scheduled_at: None,
                title: "Existing editor task".into(),
            },
            Vec::new(),
        )
        .unwrap();
    assert_eq!(
        update_task_editor_with_services_and_rescan_and_notify(
            &task_service,
            &project_service,
            &rescan_requester,
            &notifier,
            editor.task.id,
            0,
            note("Stale"),
            None,
        )
        .unwrap_err()
        .code,
        "task.concurrent_update"
    );

    assert!(notifier.events().is_empty());
}

#[test]
fn task_mutation_notification_failures_do_not_change_successful_results() {
    let store = MemoryStore::default();
    let task_service = TaskService::new(&store);
    let project_service = ProjectService::new(&store);
    let rescan_requester = FailingRescanRequester::default();
    let notifier = RecordingTaskMutationNotifier::failing();

    let created = create_task_with_services_and_rescan_and_notify(
        &task_service,
        &project_service,
        &rescan_requester,
        &notifier,
        draft("Persist despite notification failure"),
    )
    .unwrap();

    assert_eq!(notifier.events(), vec![TaskMutationEvent::new(created.id, created.revision)]);
    assert_eq!((&store).get(created.id).unwrap().unwrap().revision, created.revision);
}

#[test]
fn task_mutation_responses_include_the_current_revision() {
    let store = MemoryStore::default();
    let service = TaskService::new(&store);
    let projects = ProjectService::new(&store);

    let created = create_task_with_services(&service, &projects, draft("Publish release")).unwrap();
    assert_eq!(created.revision, 1);

    let updated = update_task_with_services(&service, &projects, created.id, note("Ready")).unwrap();
    assert_eq!(updated.revision, 2);

    let completed = complete_task_with_service(&service, updated.id).unwrap();
    assert_eq!(completed.revision, 3);
}

#[test]
fn create_task_rejects_unknown_and_archived_project_ids_through_the_command_path() {
    let store = MemoryStore::default();
    let task_service = TaskService::new(&store);
    let project_service = ProjectService::new(&store);
    let active_project = project_service.create("Release").unwrap();
    let archived_project = project_service.create("Archive").unwrap();
    project_service.archive(archived_project.id).unwrap();

    assert!(create_task_with_services(&task_service, &project_service, draft_in("Publish", Some(active_project.id)))
        .is_ok());
    assert_eq!(
        create_task_with_services(&task_service, &project_service, draft_in("Blocked", Some(archived_project.id)))
            .unwrap_err(),
        CommandError { code: "project.not_found".into(), message_key: "errors.project.not_found".into() }
    );
}

#[test]
fn update_task_validates_project_changes_and_preserves_unchanged_archived_associations() {
    let store = MemoryStore::default();
    let task_service = TaskService::new(&store);
    let project_service = ProjectService::new(&store);
    let active_project = project_service.create("Release").unwrap();
    let archived_project = project_service.create("Archive").unwrap();
    let task = task_service
        .create(TaskDraft {
            due_at: None,
            note: "Original note".into(),
            parent_id: None,
            priority: Priority::Normal,
            project_id: Some(archived_project.id),
            recurrence: None,
            scheduled_at: None,
            title: "Publish notes".into(),
        })
        .unwrap();
    project_service.archive(archived_project.id).unwrap();

    let to_project = |project_id: Option<u128>| TaskPatch { project_id: Some(project_id), ..Default::default() };
    assert!(update_task_with_services(&task_service, &project_service, task.id, to_project(Some(active_project.id)))
        .is_ok());
    assert_eq!(
        update_task_with_services(&task_service, &project_service, task.id, to_project(Some(random_id())))
            .unwrap_err(),
        CommandError { code: "project.not_found".into(), message_key: "errors.project.not_found".into() }
    );
    assert_eq!(
        update_task_with_services(&task_service, &project_service, task.id, to_project(Some(archived_project.id)))
            .unwrap_err(),
        CommandError { code: "project.not_found".into(), message_key: "errors.project.not_found".into() }
    );

    update_task_with_services(&task_service, &project_service, task.id, to_project(None)).unwrap();
    assert_eq!((&store).get(task.id).unwrap().unwrap().project_id, None);

    let mut archived_task = (&store).get(task.id).unwrap().unwrap();
    let expected_revision = archived_task.revision;
    archived_task.project_id = Some(archived_project.id);
    archived_task.increment_revision().unwrap();
    (&store).update(&archived_task, expected_revision, ReminderClaimStateUpdate::Preserve).unwrap();

    update_task_with_services(
        &task_service,
        &project_service,
        task.id,
        TaskPatch { title: Some("Publish final notes".into()), ..Default::default() },
    )
    .unwrap();
    let persisted = (&store).get(task.id).unwrap().unwrap();
    assert_eq!(persisted.project_id, Some(archived_project.id));
    assert_eq!(persisted.title, "Publish final notes");
}

#[test]
fn editor_update_preserves_an_unchanged_archived_project_association() {
    let store = MemoryStore::default();
    let task_service = TaskService::new(&store);
    let project_service = ProjectService::new(&store);
    let rescan_requester = FailingRescanRequester::default();
    let project = project_service.create("Release").unwrap();
    let created = create_task_editor_with_services_and_rescan(
        &task_service,
        &project_service,
        &rescan_requester,
        draft_in("Publish notes", Some(project.id)),
        tags(&[]),
    )
    .unwrap();

    project_service.archive(project.id).unwrap();

    let updated = update_task_editor_with_services_and_rescan(
        &task_service,
        &project_service,
        &rescan_requester,
        created.task.id,
        created.task.revision,
        TaskPatch {
            due_at: Some(None),
            note: Some("Ready for review".into()),
            priority: Some(Priority::Normal),
            project_id: Some(Some(project.id)),
            recurrence: Some(None),
            scheduled_at: Some(None),
            title: Some("Publish final notes".into()),
            ..Default::default()
        },
        tags(&[]),
    )
    .unwrap();

    assert_eq!(updated.task.project_id, Some(project.id));
    assert_eq!(updated.task.title, "Publish final notes");
}

#[test]
fn create_task_returns_serializable_validation_error() {
    let store = MemoryStore::default();
    let service = TaskService::new(&store);
    let projects = ProjectService::new(&store);
    let blank = TaskDraft {
        title: String::new(),
        note: String::new(),
        project_id: None,
        parent_id: None,
        priority: Priority::Normal,
        scheduled_at: None,
        due_at: None,
        recurrence: None,
    };

    let result = create_task_with_services(&service, &projects, blank);

    assert_eq!(
        result.unwrap_err(),
        CommandError { code: "task.title.blank".into(), message_key: "errors.task.title.blank".into() }
    );
}

#[test]
fn update_task_rejects_a_completed_at_value_with_a_stable_command_error() {
    let store = MemoryStore::default();
    let task = for_test("Publish release");
    (&store).insert(&task).unwrap();
    let service = TaskService::new(&store);
    let projects = ProjectService::new(&store);

    assert_eq!(
        update_task_with_services(
            &service,
            &projects,
            task.id,
            TaskPatch { completed_at: Some(Some(fixed_utc(2026, 8, 26, 10, 0, 0))), ..Default::default() },
        )
        .unwrap_err(),
        CommandError {
            code: "task.completion.use_complete".into(),
            message_key: "errors.task.completion.use_complete".into(),
        }
    );
    assert!(same_task(&(&store).get(task.id).unwrap().unwrap(), &task));
}

#[test]
fn update_task_rejects_restoring_a_completed_recurring_instance_and_preserves_the_next_instance() {
    let store = MemoryStore::default();
    let mut task = for_test("Publish weekly release");
    task.scheduled_at = Some(fixed_utc(2026, 8, 26, 9, 0, 0));
    task.recurrence = Some(RecurrenceRule::new(Frequency::Weekly, 1, None, None).unwrap());
    (&store).insert(&task).unwrap();
    let service = TaskService::new(&store);
    let projects = ProjectService::new(&store);
    let completion = service.complete(task.id).unwrap().unwrap();
    let completed_task = completion.completed_task;
    let next_task = completion.next_task.unwrap();

    assert_eq!(
        update_task_with_services(
            &service,
            &projects,
            task.id,
            TaskPatch { completed_at: Some(None), ..Default::default() },
        )
        .unwrap_err(),
        CommandError {
            code: "task.recurrence.restore.unsupported".into(),
            message_key: "errors.task.recurrence.restore.unsupported".into(),
        }
    );
    assert!(same_task(&(&store).get(task.id).unwrap().unwrap(), &completed_task));
    assert!(same_task(&(&store).get(next_task.id).unwrap().unwrap(), &next_task));
    let inbox = (&store).list_inbox().unwrap();
    assert_eq!(inbox.len(), 1);
    assert!(same_task(&inbox[0], &next_task));
}

#[test]
fn complete_task_maps_not_found_and_conflict_to_stable_command_errors() {
    let store = MemoryStore::default();
    let task = for_test("Publish release");
    (&store).insert(&task).unwrap();
    let service = TaskService::new(&store);

    assert_eq!(
        complete_task_with_service(&service, random_id()).unwrap_err(),
        CommandError { code: "task.not_found".into(), message_key: "errors.task.not_found".into() }
    );

    complete_task_with_service(&service, task.id).unwrap();

    assert_eq!(
        complete_task_with_service(&service, task.id).unwrap_err(),
        CommandError { code: "task.already_completed".into(), message_key: "errors.task.already_completed".into() }
    );
}

#[test]
fn editor_update_with_a_stale_revision_preserves_task_and_tag_associations() {
    let store = MemoryStore::default();
    let task_service = TaskService::new(&store);
    let project_service = ProjectService::new(&store);
    let rescan_requester = FailingRescanRequester::default();
    let created = create_task_editor_with_services_and_rescan(
        &task_service,
        &project_service,
        &rescan_requester,
        draft("Publish release"),
        tags(&["release"]),
    )
    .unwrap();
    let task_id = created.task.id;

    update_task_editor_with_services_and_rescan(
        &task_service,
        &project_service,
        &rescan_requester,
        task_id,
        1,
        note("Ready"),
        None,
    )
    .unwrap();

    assert_eq!(
        update_task_editor_with_services_and_rescan(
            &task_service,
            &project_service,
            &rescan_requester,
            task_id,
            1,
            TaskPatch { title: Some("Stale title".into()), ..Default::default() },
            tags(&["stale"]),
        )
        .unwrap_err(),
        CommandError { code: "task.concurrent_update".into(), message_key: "errors.task.concurrent_update".into() }
    );

    let editor = get_task_editor_with_service(&task_service, task_id).unwrap();
    assert_eq!(editor.task.title, "Publish release");
    assert_eq!(editor.task.note, "Ready");
    assert_eq!(editor.task.revision, 2);
    assert_eq!(editor.tag_names, vec!["release".to_owned()]);
}

#[test]
fn editor_update_with_an_empty_tag_list_clears_existing_tags() {
    let store = MemoryStore::default();
    let task_service = TaskService::new(&store);
    let project_service = ProjectService::new(&store);
    let rescan_requester = FailingRescanRequester::default();
    let created = create_task_editor_with_services_and_rescan(
        &task_service,
        &project_service,
        &rescan_requester,
        draft("Publish release"),
        tags(&["release", "m2"]),
    )
    .unwrap();

    let updated = update_task_editor_with_services_and_rescan(
        &task_service,
        &project_service,
        &rescan_requester,
        created.task.id,
        created.task.revision,
        TaskPatch::default(),
        tags(&[]),
    )
    .unwrap();

    assert!(updated.tag_names.is_empty());
}

#[test]
fn editor_tag_names_are_trimmed_deduplicated_and_reject_invalid_values() {
    let store = MemoryStore::default();
    let task_service = TaskService::new(&store);
    let project_service = ProjectService::new(&store);
    let rescan_requester = FailingRescanRequester::default();

    let created = create_task_editor_with_services_and_rescan(
        &task_service,
        &project_service,
        &rescan_requester,
        draft("Publish release"),
        tags(&[" release ", "release", "M2"]),
    )
    .unwrap();
    assert_eq!(created.tag_names, vec!["M2".to_owned(), "release".to_owned()]);

    let too_long = "x".repeat(81);
    for tag_names in [tags(&[""]), tags(&["   "]), tags(&[too_long.as_str()])] {
        assert_eq!(
            create_task_editor_with_services_and_rescan(
                &task_service,
                &project_service,
                &rescan_requester,
                draft("Invalid tags"),
                tag_names,
            )
            .unwrap_err(),
            CommandError { code: "task.tag.invalid".into(), message_key: "errors.task.tag.invalid".into() }
        );
    }
}

#[test]
fn editor_update_rolls_back_tag_replacement_when_the_task_write_fails() {
    let store = MemoryStore::default();
    let task_service = TaskService::new(&store);
    let project_service = ProjectService::new(&store);
    let rescan_requester = FailingRescanRequester::default();
    let created = create_task_editor_with_services_and_rescan(
        &task_service,
        &project_service,
        &rescan_requester,
        draft("Publish release"),
        tags(&["release"]),
    )
    .unwrap();
    store.fail_tag_writes.set(true);

    assert_eq!(
        update_task_editor_with_services_and_rescan(
            &task_service,
            &project_service,
            &rescan_requester,
            created.task.id,
            created.task.revision,
            note("Replacement attempt"),
            tags(&["replacement"]),
        )
        .unwrap_err()
        .code,
        "storage.unavailable"
    );

    let editor = get_task_editor_with_service(&task_service, created.task.id).unwrap();
    assert_eq!(editor.task.parent_id, None);
    assert_eq!(editor.tag_names, vec!["release".to_owned()]);
}

#[test]
fn editor_returns_direct_subtasks_and_rejects_missing_or_nested_parents() {
    let store = MemoryStore::default();
    let task_service = TaskService::new(&store);
    let project_service = ProjectService::new(&store);
    let rescan_requester = FailingRescanRequester::default();
    let parent = create_task_editor_with_services_and_rescan(
        &task_service,
        &project_service,
        &rescan_requester,
        draft("Parent"),
        None,
    )
    .unwrap();
    let parent_id = parent.task.id;

    let subtask = create_subtask_with_service_and_rescan(&task_service, &rescan_requester, parent_id, "Child").unwrap();
    assert_eq!(subtask.parent_id, Some(parent_id));
    assert_eq!(subtask.priority, Priority::Normal);
    assert!(subtask.recurrence.is_none());

    let editor = get_task_editor_with_service(&task_service, parent_id).unwrap();
    assert_eq!(editor.subtasks[0].id, subtask.id);

    assert_eq!(
        create_subtask_with_service_and_rescan(&task_service, &rescan_requester, random_id(), "Missing")
            .unwrap_err()
            .code,
        "task.parent.not_found"
    );
    assert_eq!(
        create_subtask_with_service_and_rescan(&task_service, &rescan_requester, subtask.id, "Nested")
            .unwrap_err()
            .code,
        "task.subtask.nesting.unsupported"
    );
}

#[test]
fn editor_create_uses_existing_recurrence_validation() {
    let store = MemoryStore::default();
    let task_service = TaskService::new(&store);
    let project_service = ProjectService::new(&store);
    let rescan_requester = FailingRescanRequester::default();
    let mut recurring = draft("Recurring without a date");
    recurring.recurrence = Some(RecurrenceRule::new(Frequency::Daily, 1, None, None).unwrap());

    assert_eq!(
        create_task_editor_with_services_and_rescan(&task_service, &project_service, &rescan_requester, recurring, None)
            .unwrap_err(),
        CommandError {
            code: "recurrence.scheduled_at.required".into(),
            message_key: "errors.recurrence.scheduled_at.required".into(),
        }
    );
}

#[test]
fn editor_update_accepts_an_explicitly_unchanged_legacy_yearly_rule() {
    let store = MemoryStore::default();
    let task_service = TaskService::new(&store);
    let project_service = ProjectService::new(&store);
    let rescan_requester = FailingRescanRequester::default();
    let yearly = RecurrenceRule::from_persisted(Frequency::Yearly, 1, None, None).unwrap();
    let mut task = for_test("Renew certificate");
    task.scheduled_at = Some(fixed_utc(2026, 2, 28, 9, 0, 0));
    task.recurrence = Some(yearly);
    (&store).insert(&task).unwrap();

    let updated = update_task_editor_with_services_and_rescan(
        &task_service,
        &project_service,
        &rescan_requester,
        task.id,
        task.revision,
        TaskPatch {
            note: Some("Keep legacy schedule".into()),
            recurrence: Some(Some(yearly)),
            ..Default::default()
        },
        tags(&["renewal"]),
    )
    .unwrap();

    assert_eq!(updated.task.note, "Keep legacy schedule");
    assert_eq!(updated.task.recurrence, Some(yearly));
    assert_eq!(updated.tag_names, vec!["renewal".to_owned()]);

    let reloaded = get_task_editor_with_service(&task_service, task.id).unwrap();
    assert_eq!(reloaded.task.recurrence, updated.task.recurrence);
}

#[test]
fn task_commands_reject_parent_and_subtask_project_bypasses() {
    let store = MemoryStore::default();
    let task_service = TaskService::new(&store);
    let project_service = ProjectService::new(&store);
    let rescan_requester = FailingRescanRequester::default();
    let inherited_project = project_service.create("Parent project").unwrap();
    let parent_write_error = command_error("task.parent.write.unsupported");

    let mut with_parent = draft("Bypass");
    with_parent.parent_id = Some(random_id());
    assert_eq!(create_task_with_services(&task_service, &project_service, with_parent).unwrap_err(), parent_write_error);
    let mut with_parent = draft("Bypass");
    with_parent.parent_id = Some(random_id());
    assert_eq!(
        create_task_editor_with_services_and_rescan(
            &task_service,
            &project_service,
            &rescan_requester,
            with_parent,
            None,
        )
        .unwrap_err(),
        parent_write_error
    );

    let parent = create_task_editor_with_services_and_rescan(
        &task_service,
        &project_service,
        &rescan_requester,
        draft_in("Parent", Some(inherited_project.id)),
        None,
    )
    .unwrap();
    let child =
        create_subtask_with_service_and_rescan(&task_service, &rescan_requester, parent.task.id, "Child").unwrap();
    assert_eq!(child.project_id, Some(inherited_project.id));
    let updated_child = update_task_editor_with_services_and_rescan(
        &task_service,
        &project_service,
        &rescan_requester,
        child.id,
        child.revision,
        TaskPatch {
            note: Some("Child details".into()),
            priority: Some(Priority::Low),
            title: Some("Edited child".into()),
            ..Default::default()
        },
        tags(&["inbox"]),
    )
    .unwrap();
    assert_eq!(updated_child.task.parent_id, Some(parent.task.id));
    assert_eq!(updated_child.task.project_id, Some(inherited_project.id));
    assert_eq!(updated_child.task.title, "Edited child");
    assert_eq!(updated_child.task.note, "Child details");
    assert_eq!(updated_child.task.priority, Priority::Low);
    assert_eq!(updated_child.tag_names, vec!["inbox".to_owned()]);

    let detach = || TaskPatch { parent_id: Some(None), ..Default::default() };
    assert_eq!(
        update_task_with_services(&task_service, &project_service, parent.task.id, detach()).unwrap_err(),
        parent_write_error
    );
    assert_eq!(
        update_task_editor_with_services_and_rescan(
            &task_service,
            &project_service,
            &rescan_requester,
            parent.task.id,
            parent.task.revision,
            detach(),
            None,
        )
        .unwrap_err(),
        parent_write_error
    );

    let project = project_service.create("Inherited").unwrap();
    let inherited_project_error = command_error("task.subtask.project.inherited");
    let move_to = || TaskPatch { project_id: Some(Some(project.id)), ..Default::default() };
    assert_eq!(
        update_task_with_services(&task_service, &project_service, child.id, move_to()).unwrap_err(),
        inherited_project_error
    );
    assert_eq!(
        update_task_editor_with_services_and_rescan(
            &task_service,
            &project_service,
            &rescan_requester,
            updated_child.task.id,
            updated_child.task.revision,
            move_to(),
            None,
        )
        .unwrap_err(),
        inherited_project_error
    );
}

#[test]
fn editor_mutations_request_rescan_only_after_success() {
    let store = MemoryStore::default();
    let task_service = TaskService::new(&store);
    let project_service = ProjectService::new(&store);
    let rescan_requester = FailingRescanRequester::default();

    let created = create_task_editor_with_services_and_rescan(
        &task_service,
        &project_service,
        &rescan_requester,
        draft("Parent"),
        None,
    )
    .unwrap();
    assert_eq!(rescan_requester.request_count(), 1);

    get_task_editor_with_service(&task_service, created.task.id).unwrap();
    assert_eq!(rescan_requester.request_count(), 1);

    let updated = update_task_editor_with_services_and_rescan(
        &task_service,
        &project_service,
        &rescan_requester,
        created.task.id,
        created.task.revision,
        note("Ready"),
        None,
    )
    .unwrap();
    assert_eq!(rescan_requester.request_count(), 2);

    assert!(update_task_editor_with_services_and_rescan(
        &task_service,
        &project_service,
        &rescan_requester,
        updated.task.id,
        updated.task.revision,
        TaskPatch { parent_id: Some(None), ..Default::default() },
        None,
    )
    .is_err());
    assert_eq!(rescan_requester.request_count(), 2);

    create_subtask_with_service_and_rescan(&task_service, &rescan_requester, updated.task.id, "Child").unwrap();
    assert_eq!(rescan_requester.request_count(), 3);

    assert!(create_subtask_with_service_and_rescan(&task_service, &rescan_requester, random_id(), "Missing").is_err());
    assert_eq!(rescan_requester.request_count(), 3);
}

fn weekly_task(title: &str) -> Task {
    let mut task = for_test(title);
    task.scheduled_at = Some(fixed_utc(2026, 8, 26, 9, 0, 0));
    task.recurrence = Some(RecurrenceRule::new(Frequency::Weekly, 1, None, None).unwrap());
    task
}

fn two_projects(store: &MemoryStore) -> (Project, Project) {
    let project_a = Project::new("Project A").unwrap();
    let project_b = Project::new("Project B").unwrap();
    store.insert_project(&project_a).unwrap();
    store.insert_project(&project_b).unwrap();
    (project_a, project_b)
}

fn move_to(project_id: u128) -> TaskPatch {
    TaskPatch { project_id: Some(Some(project_id)), ..Default::default() }
}

struct SuccessfulNotifier;

impl ReminderNotifier for SuccessfulNotifier {
    fn notify(&self, _task: &Task) -> Result<(), AppError> {
        Ok(())
    }
}

#[test]
fn task_service_parent_project_patch_updates_direct_subtask_project_and_revision() {
    let store = MemoryStore::default();
    let (project_a, project_b) = two_projects(&store);
    let mut parent = for_test("Parent");
    parent.project_id = Some(project_a.id);
    (&store).insert(&parent).unwrap();
    let service = TaskService::new(&store);
    let child = service.create_subtask(parent.id, "Child").unwrap();

    let updated_parent = service.patch(parent.id, move_to(project_b.id)).unwrap().unwrap();
    let persisted_parent = store.stored(parent.id).unwrap();
    let persisted_child = store.stored(child.id).unwrap();

    assert_eq!(updated_parent.project_id, Some(project_b.id));
    assert_eq!(persisted_parent.project_id, Some(project_b.id));
    assert_eq!(persisted_child.project_id, Some(project_b.id));
    assert_eq!(persisted_child.revision, child.revision + 1);
}

#[test]
fn task_service_editor_parent_project_patch_updates_direct_subtasks_and_tags() {
    let store = MemoryStore::default();
    let (project_a, project_b) = two_projects(&store);
    let service = TaskService::new(&store);
    let parent = service.create_editor(draft_in("Parent", Some(project_a.id)), vec!["initial".into()]).unwrap().task;
    let child = service.create_subtask(parent.id, "Child").unwrap();

    let updated_editor =
        service.update_editor(parent.id, parent.revision, move_to(project_b.id), tags(&["release"])).unwrap().unwrap();
    let persisted_parent = store.stored(parent.id).unwrap();
    let persisted_child = store.stored(child.id).unwrap();

    assert_eq!(persisted_parent.project_id, Some(project_b.id));
    assert_eq!(persisted_child.project_id, Some(project_b.id));
    assert_eq!(persisted_child.revision, child.revision + 1);
    assert_eq!(updated_editor.tag_names, vec!["release".to_owned()]);
    assert_eq!(updated_editor.subtasks.len(), 1);
    assert!(same_task(&updated_editor.subtasks[0], &persisted_child));
}

#[test]
fn task_service_same_parent_project_patch_leaves_direct_subtasks_unchanged() {
    let store = MemoryStore::default();
    let project = Project::new("Project").unwrap();
    (&store).insert_project(&project).unwrap();
    let mut parent = for_test("Parent");
    parent.project_id = Some(project.id);
    (&store).insert(&parent).unwrap();
    let service = TaskService::new(&store);
    let child = service.create_subtask(parent.id, "Child").unwrap();

    service.patch(parent.id, move_to(project.id)).unwrap().unwrap();
    let persisted_child = store.stored(child.id).unwrap();

    assert_eq!(persisted_child.revision, child.revision);
    assert_eq!(persisted_child.updated_at, child.updated_at);
}

#[test]
fn task_service_parent_project_patch_rolls_back_when_subtask_sync_fails() {
    let store = MemoryStore::default();
    let (project_a, project_b) = two_projects(&store);
    let mut parent = for_test("Parent");
    parent.project_id = Some(project_a.id);
    (&store).insert(&parent).unwrap();
    let service = TaskService::new(&store);
    let first_child = service.create_subtask(parent.id, "First child").unwrap();
    let second_child = service.create_subtask(parent.id, "Second child").unwrap();
    store.fail_subtask_update_for.set(Some(second_child.id));

    let error = service.patch(parent.id, move_to(project_b.id)).unwrap_err();

    assert_eq!(error.code(), "storage.unavailable");
    assert!(same_task(&store.stored(parent.id).unwrap(), &parent));
    assert!(same_task(&store.stored(first_child.id).unwrap(), &first_child));
    assert!(same_task(&store.stored(second_child.id).unwrap(), &second_child));
}

#[test]
fn task_service_pre_update_validation_rejects_a_patch_after_its_snapshot_becomes_stale() {
    let store = MemoryStore::default();
    let first_project_id = random_id();
    let second_project_id = random_id();
    let mut task = for_test("Publish notes");
    task.project_id = Some(first_project_id);
    (&store).insert(&task).unwrap();
    let task_id = task.id;
    store.after_first_read_of(task_id, move |store| {
        TaskService::new(store).patch(task_id, move_to(second_project_id)).unwrap();
    });

    let error = TaskService::new(&store)
        .patch_with_pre_update_validation(
            task_id,
            TaskPatch {
                project_id: Some(Some(first_project_id)),
                title: Some("Stale edit".into()),
                ..Default::default()
            },
            |_, _| Ok(()),
        )
        .0
        .unwrap_err();

    assert_eq!(error.code(), "task.concurrent_update");
    let persisted = store.stored(task_id).unwrap();
    assert_eq!(persisted.project_id, Some(second_project_id));
    assert_eq!(persisted.title, "Publish notes");
}

#[test]
fn task_service_completes_a_recurring_task_and_persists_its_next_instance() {
    let store = MemoryStore::default();
    let task = weekly_task("Review weekly release");
    (&store).insert(&task).unwrap();
    let service = TaskService::new(&store);

    let completion = service.complete(task.id).unwrap().unwrap();
    let completed_task = completion.completed_task;
    let next_task = completion.next_task.unwrap();

    assert!(completed_task.completed_at.is_some());
    assert_eq!(next_task.scheduled_at, Some(fixed_utc(2026, 9, 2, 9, 0, 0)));
    assert_eq!(next_task.completed_at, None);
    assert_eq!(next_task.instance_number, 2);
    assert!(same_task(&store.stored(task.id).unwrap(), &completed_task));
    assert!(same_task(&store.stored(next_task.id).unwrap(), &next_task));
    let inbox = (&store).list_inbox().unwrap();
    assert_eq!(inbox.len(), 1);
    assert!(same_task(&inbox[0], &next_task));
}

#[test]
fn task_service_rejects_completing_the_same_recurring_instance_twice() {
    let store = MemoryStore::default();
    let task = weekly_task("Review weekly release");
    (&store).insert(&task).unwrap();
    let service = TaskService::new(&store);

    let first_completion = service.complete(task.id).unwrap().unwrap();
    let error = service.complete(task.id).unwrap_err();

    assert_eq!(error.code(), "task.already_completed");
    let inbox = (&store).list_inbox().unwrap();
    assert_eq!(inbox.len(), 1);
    assert!(same_task(&inbox[0], &first_completion.next_task.unwrap()));
}

#[test]
fn task_service_rejects_restoring_a_completed_recurring_instance_and_preserves_its_next_instance() {
    let store = MemoryStore::default();
    let task = weekly_task("Review weekly release");
    (&store).insert(&task).unwrap();
    let service = TaskService::new(&store);

    let completion = service.complete(task.id).unwrap().unwrap();
    let completed_task = completion.completed_task;
    let next_task = completion.next_task.unwrap();

    let error = service.patch(task.id, TaskPatch { completed_at: Some(None), ..Default::default() }).unwrap_err();

    assert_eq!(error.code(), "task.recurrence.restore.unsupported");
    assert!(same_task(&store.stored(task.id).unwrap(), &completed_task));
    assert!(same_task(&store.stored(next_task.id).unwrap(), &next_task));
    let inbox = (&store).list_inbox().unwrap();
    assert_eq!(inbox.len(), 1);
    assert!(same_task(&inbox[0], &next_task));
}

#[test]
fn stale_patch_cannot_reopen_a_recurring_task_completed_after_the_patch_read() {
    let store = MemoryStore::default();
    let task = weekly_task("Review weekly release");
    (&store).insert(&task).unwrap();
    let task_id = task.id;
    store.after_first_read_of(task_id, move |store| {
        TaskService::new(store).complete(task_id).unwrap();
    });

    let error = TaskService::new(&store).patch(task_id, note("Publish the final review")).unwrap_err();

    assert_eq!(error.code(), "task.concurrent_update");
    assert_eq!(error.translation_key(), "errors.task.concurrent_update");
    let completed_task = store.stored(task_id).unwrap();
    assert!(completed_task.completed_at.is_some());
    assert_eq!(completed_task.note, task.note);
    let next_tasks = (&store).list_inbox().unwrap();
    assert_eq!(next_tasks.len(), 1);
    assert_eq!(next_tasks[0].instance_number, 2);
    assert_eq!(next_tasks[0].completed_at, None);
}

#[test]
fn stale_patch_cannot_reopen_a_non_recurring_task_completed_after_the_patch_read() {
    let store = MemoryStore::default();
    let task = for_test("Prepare release");
    (&store).insert(&task).unwrap();
    let task_id = task.id;
    store.after_first_read_of(task_id, move |store| {
        TaskService::new(store).complete(task_id).unwrap();
    });

    let error = TaskService::new(&store).patch(task_id, note("Publish the final review")).unwrap_err();

    assert_eq!(error.code(), "task.concurrent_update");
    let completed_task = store.stored(task_id).unwrap();
    assert!(completed_task.completed_at.is_some());
    assert_eq!(completed_task.note, task.note);
    assert!((&store).list_inbox().unwrap().is_empty());
}

#[test]
fn stale_completion_cannot_finish_an_updated_non_recurring_task_snapshot() {
    let store = MemoryStore::default();
    let task = for_test("Prepare release");
    (&store).insert(&task).unwrap();
    let task_id = task.id;
    store.after_first_read_of(task_id, move |store| {
        TaskService::new(store).patch(task_id, note("Use the updated checklist")).unwrap();
    });

    let error = TaskService::new(&store).complete(task_id).unwrap_err();

    assert_eq!(error.code(), "task.concurrent_update");
    let persisted_task = store.stored(task_id).unwrap();
    assert_eq!(persisted_task.completed_at, None);
    assert_eq!(persisted_task.note, "Use the updated checklist");
}

#[test]
fn stale_restore_cannot_overwrite_an_updated_completed_task_snapshot() {
    let store = MemoryStore::default();
    let mut task = for_test("Prepare release");
    task.completed_at = Some(fixed_utc(2026, 9, 8, 10, 0, 0));
    (&store).insert(&task).unwrap();
    let task_id = task.id;
    store.after_first_read_of(task_id, move |store| {
        TaskService::new(store).patch(task_id, note("Keep this completed-task edit")).unwrap();
    });

    let error = TaskService::new(&store).patch(task_id, TaskPatch { completed_at: Some(None), ..Default::default() })
        .unwrap_err();

    assert_eq!(error.code(), "task.concurrent_update");
    let persisted_task = store.stored(task_id).unwrap();
    assert!(persisted_task.completed_at.is_some());
    assert_eq!(persisted_task.note, "Keep this completed-task edit");
}

#[test]
fn task_service_stale_schedule_patch_conflicts_without_clearing_the_scheduler_claim() {
    let initial_scheduled_at = fixed_utc(2026, 9, 8, 9, 0, 0);
    let rescheduled_at = fixed_utc(2026, 9, 8, 10, 0, 0);
    let claimed_at = fixed_utc(2026, 9, 8, 10, 0, 5);
    let mut task = for_test("Prepare release");
    task.scheduled_at = Some(initial_scheduled_at);
    let store = MemoryStore::default();
    (&store).insert(&task).unwrap();
    let task_id = task.id;
    store.before_first_update(move |store| {
        TaskService::new(store)
            .patch(task_id, TaskPatch { scheduled_at: Some(Some(rescheduled_at)), ..Default::default() })
            .unwrap();
        let mut scheduler = ReminderScheduler::new(TaskService::new(store), SuccessfulNotifier);
        scheduler.run_once(claimed_at).unwrap();
    });
    let service = TaskService::new(&store);

    let error = service
        .patch(task_id, TaskPatch { scheduled_at: Some(Some(rescheduled_at)), ..Default::default() })
        .unwrap_err();

    assert_eq!(error.code(), "task.concurrent_update");
    assert_eq!(store.stored(task_id).unwrap().reminder_sent_at, Some(claimed_at));
    let claim_tokens = store.claim_log.borrow().clone();
    assert_eq!(claim_tokens.len(), 1);
    assert!(!(&store).release_reminder_claim(task_id, rescheduled_at, claim_tokens[0]).unwrap());
}

#[test]
fn task_service_content_patch_preserves_a_reminder_claim_created_after_its_read() {
    let scheduled_at = fixed_utc(2026, 9, 8, 10, 0, 0);
    let claimed_at = fixed_utc(2026, 9, 8, 10, 0, 5);
    let expired_before = fixed_utc(2026, 9, 8, 9, 58, 5);
    let claim_token = random_id();
    let mut task = for_test("Prepare release");
    task.scheduled_at = Some(scheduled_at);
    let store = MemoryStore::default();
    (&store).insert(&task).unwrap();
    let task_id = task.id;
    store.after_first_read_of(task_id, move |store| {
        assert!(store.claim_reminder(task_id, scheduled_at, claimed_at, expired_before, claim_token).unwrap());
    });

    let patched = TaskService::new(&store).patch(task_id, note("Notify the release channel")).unwrap().unwrap();

    assert_eq!(patched.note, "Notify the release channel");
    assert_eq!(store.stored(task_id).unwrap().reminder_sent_at, None);
    assert!((&store).release_reminder_claim(task_id, scheduled_at, claim_token).unwrap());
}

#[test]
fn task_service_schedule_patch_clears_an_existing_reminder_marker_and_token() {
    let initial_scheduled_at = fixed_utc(2026, 9, 8, 9, 0, 0);
    let rescheduled_at = fixed_utc(2026, 9, 8, 10, 0, 0);
    let claimed_at = fixed_utc(2026, 9, 8, 9, 0, 5);
    let expired_before = fixed_utc(2026, 9, 8, 8, 58, 5);
    let claim_token = random_id();
    let mut task = for_test("Prepare release");
    task.scheduled_at = Some(initial_scheduled_at);
    let store = MemoryStore::default();
    (&store).insert(&task).unwrap();
    let mut service = TaskService::new(&store);

    assert!(service.claim_reminder(task.id, initial_scheduled_at, claimed_at, expired_before, claim_token).unwrap());
    service.patch(task.id, TaskPatch { scheduled_at: Some(Some(rescheduled_at)), ..Default::default() }).unwrap();

    assert_eq!(store.stored(task.id).unwrap().reminder_sent_at, None);
    assert!(!(&store).release_reminder_claim(task.id, rescheduled_at, claim_token).unwrap());
}

#[test]
fn task_service_schedule_patch_from_none_to_some_clears_an_existing_reminder_marker() {
    let mut task = for_test("Prepare release");
    task.reminder_sent_at = Some(fixed_utc(2026, 9, 8, 9, 0, 5));
    let store = MemoryStore::default();
    (&store).insert(&task).unwrap();
    let service = TaskService::new(&store);

    service
        .patch(task.id, TaskPatch { scheduled_at: Some(Some(fixed_utc(2026, 9, 8, 10, 0, 0))), ..Default::default() })
        .unwrap();

    assert_eq!(store.stored(task.id).unwrap().reminder_sent_at, None);
}

#[test]
fn task_service_schedule_patch_from_some_to_none_clears_an_existing_reminder_marker() {
    let scheduled_at = fixed_utc(2026, 9, 8, 9, 0, 0);
    let claimed_at = fixed_utc(2026, 9, 8, 9, 0, 5);
    let expired_before = fixed_utc(2026, 9, 8, 8, 58, 5);
    let claim_token = random_id();
    let mut task = for_test("Prepare release");
    task.scheduled_at = Some(scheduled_at);
    let store = MemoryStore::default();
    (&store).insert(&task).unwrap();
    let mut service = TaskService::new(&store);

    assert!(service.claim_reminder(task.id, scheduled_at, claimed_at, expired_before, claim_token).unwrap());
    service.patch(task.id, TaskPatch { scheduled_at: Some(None), ..Default::default() }).unwrap();

    assert_eq!(store.stored(task.id).unwrap().reminder_sent_at, None);
    assert!(!(&store).release_reminder_claim(task.id, scheduled_at, claim_token).unwrap());
}

#[test]
fn task_service_schedule_patch_from_none_to_none_preserves_an_existing_reminder_marker() {
    let reminder_sent_at = fixed_utc(2026, 9, 8, 9, 0, 5);
    let mut task = for_test("Prepare release");
    task.reminder_sent_at = Some(reminder_sent_at);
    let store = MemoryStore::default();
    (&store).insert(&task).unwrap();
    let service = TaskService::new(&store);

    service.patch(task.id, TaskPatch { scheduled_at: Some(None), ..Default::default() }).unwrap();

    assert_eq!(store.stored(task.id).unwrap().reminder_sent_at, Some(reminder_sent_at));
}

fn due_at(title: &str, at: UtcDateTime) -> Task {
    let mut task = for_test(title);
    task.scheduled_at = Some(at);
    task
}

fn reminder_notification_error() -> AppError {
    AppError::new("reminder.notification.failed", "errors.reminder.notification.failed", AppErrorKind::Validation)
}

#[derive(Default)]
struct RecordingNotifier {
    task_ids: RefCell<Vec<u128>>,
}

impl ReminderNotifier for &RecordingNotifier {
    fn notify(&self, task: &Task) -> Result<(), AppError> {
        self.task_ids.borrow_mut().push(task.id);
        Ok(())
    }
}

struct DeliveryStateInspectingNotifier<'a> {
    store: &'a MemoryStore,
    deliveries: RefCell<Vec<Option<UtcDateTime>>>,
}

impl ReminderNotifier for &DeliveryStateInspectingNotifier<'_> {
    fn notify(&self, task: &Task) -> Result<(), AppError> {
        let delivered_at = self.store.get(task.id)?.and_then(|stored| stored.reminder_sent_at);
        self.deliveries.borrow_mut().push(delivered_at);
        Ok(())
    }
}

#[derive(Default)]
struct FailsOnceNotifier {
    attempts: Cell<usize>,
}

impl ReminderNotifier for &FailsOnceNotifier {
    fn notify(&self, _task: &Task) -> Result<(), AppError> {
        let attempt = self.attempts.get();
        self.attempts.set(attempt + 1);
        if attempt == 0 {
            return Err(reminder_notification_error());
        }
        Ok(())
    }
}

struct SelectiveFailingNotifier {
    failing_task_id: u128,
    attempted_task_ids: RefCell<Vec<u128>>,
}

impl ReminderNotifier for &SelectiveFailingNotifier {
    fn notify(&self, task: &Task) -> Result<(), AppError> {
        self.attempted_task_ids.borrow_mut().push(task.id);
        if task.id == self.failing_task_id {
            return Err(reminder_notification_error());
        }
        Ok(())
    }
}

/// A native presenter whose first submission is refused.
#[derive(Default)]
struct ControlledNativePresenter {
    attempts: Cell<usize>,
}

impl NativeNotificationPresenter for &ControlledNativePresenter {
    fn show(&self, _message: &NotificationMessage) -> Result<(), String> {
        let attempt = self.attempts.get();
        self.attempts.set(attempt + 1);
        if attempt == 0 {
            return Err("the notification service refused the submission".to_owned());
        }
        Ok(())
    }
}

#[test]
fn scheduler_retries_native_presenter_failure_before_the_claim_lease_expires() {
    let store = MemoryStore::default();
    let now = fixed_utc(2026, 9, 8, 9, 0, 0);
    let retry_at = fixed_utc(2026, 9, 8, 9, 0, 1);
    let task = due_at("Retry rejected native submission", now);
    (&store).insert(&task).unwrap();
    let presenter = ControlledNativePresenter::default();
    let notifier = TauriReminderNotifier::with_presenter("TaskDock".into(), "com.taskdock.app".into(), &presenter);
    let mut scheduler = ReminderScheduler::new(TaskService::new(&store), notifier);

    let result = scheduler.run_once(now);

    assert_eq!(store.stored(task.id).unwrap().reminder_sent_at, None);
    assert_eq!(result.unwrap_err().code(), "reminder.notification.failed");
    assert_eq!(
        (&store)
            .list_due_reminder_candidates(now, fixed_utc(2026, 9, 8, 8, 58, 0))
            .unwrap()
            .iter()
            .map(|candidate| candidate.id)
            .collect::<Vec<_>>(),
        vec![task.id]
    );

    scheduler.run_once(retry_at).unwrap();

    assert_eq!(presenter.attempts.get(), 2);
    assert_eq!(store.stored(task.id).unwrap().reminder_sent_at, Some(retry_at));
}

#[test]
fn scheduler_notifies_each_due_task_only_once() {
    let store = MemoryStore::default();
    let now = fixed_utc(2026, 9, 8, 9, 0, 0);
    let due_task = due_at("Start deployment", now);
    let future_task = due_at("Review release metrics", fixed_utc(2026, 9, 8, 9, 15, 0));
    let mut completed_task = due_at("Publish release notes", now);
    completed_task.completed_at = Some(now);
    let mut claimed_task = due_at("Notify stakeholders", now);
    claimed_task.reminder_sent_at = Some(fixed_utc(2026, 9, 8, 8, 45, 0));
    for task in [&due_task, &future_task, &completed_task, &claimed_task] {
        (&store).insert(task).unwrap();
    }
    let notifier = RecordingNotifier::default();
    let mut scheduler = ReminderScheduler::new(TaskService::new(&store), &notifier);

    scheduler.run_once(now).unwrap();
    scheduler.run_once(fixed_utc(2026, 9, 8, 9, 1, 0)).unwrap();

    assert_eq!(notifier.task_ids.borrow().clone(), vec![due_task.id]);
    assert_eq!(store.stored(due_task.id).unwrap().reminder_sent_at, Some(now));
}

#[test]
fn scheduler_retries_an_abandoned_claim_after_its_lease_expires() {
    let store = MemoryStore::default();
    let claimed_at = fixed_utc(2026, 9, 8, 9, 0, 0);
    let retry_at = fixed_utc(2026, 9, 8, 9, 3, 0);
    let task = due_at("Resume interrupted reminder", claimed_at);
    (&store).insert(&task).unwrap();

    assert!((&store)
        .claim_reminder(task.id, claimed_at, claimed_at, fixed_utc(2026, 9, 8, 8, 58, 0), random_id())
        .unwrap());

    let notifier = RecordingNotifier::default();
    let mut scheduler = ReminderScheduler::new(TaskService::new(&store), &notifier);

    scheduler.run_once(retry_at).unwrap();

    assert_eq!(notifier.task_ids.borrow().clone(), vec![task.id]);
    assert_eq!(store.stored(task.id).unwrap().reminder_sent_at, Some(retry_at));
}

#[test]
fn scheduler_marks_a_reminder_delivered_only_after_native_notification_succeeds() {
    let store = MemoryStore::default();
    let now = fixed_utc(2026, 9, 8, 9, 0, 0);
    let task = due_at("Confirm native reminder before delivery", now);
    (&store).insert(&task).unwrap();
    let notifier = DeliveryStateInspectingNotifier { store: &store, deliveries: RefCell::new(Vec::new()) };
    let mut scheduler = ReminderScheduler::new(TaskService::new(&store), &notifier);

    scheduler.run_once(now).unwrap();

    assert_eq!(notifier.deliveries.borrow().clone(), vec![None]);
    assert_eq!(store.stored(task.id).unwrap().reminder_sent_at, Some(now));
}

#[test]
fn scheduler_recovers_an_acknowledgement_storage_failure_after_the_lease_expires() {
    let store = MemoryStore::default();
    let now = fixed_utc(2026, 9, 8, 9, 0, 0);
    let task = due_at("Retry delivery acknowledgement after storage failure", now);
    (&store).insert(&task).unwrap();
    store.delivery_failures.set(1);
    let notifier = RecordingNotifier::default();
    let mut scheduler = ReminderScheduler::new(TaskService::new(&store), &notifier);

    let error = scheduler.run_once(now).unwrap_err();

    assert_eq!(error.code(), "storage.unavailable");
    assert_eq!(notifier.task_ids.borrow().clone(), vec![task.id]);
    assert_eq!(store.release_attempts.get(), 0);
    assert_eq!(store.stored(task.id).unwrap().reminder_sent_at, None);

    scheduler.run_once(fixed_utc(2026, 9, 8, 9, 1, 0)).unwrap();

    assert_eq!(notifier.task_ids.borrow().clone(), vec![task.id]);
    assert_eq!(store.release_attempts.get(), 0);

    let mut fresh_scheduler = ReminderScheduler::new(TaskService::new(&store), &notifier);
    let recovered_at = fixed_utc(2026, 9, 8, 9, 3, 0);
    fresh_scheduler.run_once(recovered_at).unwrap();

    assert_eq!(notifier.task_ids.borrow().clone(), vec![task.id, task.id]);
    assert_eq!(store.stored(task.id).unwrap().reminder_sent_at, Some(recovered_at));
}

#[test]
fn scheduler_releases_its_claim_after_a_notification_failure_for_a_later_retry() {
    let store = MemoryStore::default();
    let now = fixed_utc(2026, 9, 8, 9, 0, 0);
    let retry_at = fixed_utc(2026, 9, 8, 9, 1, 0);
    let task = due_at("Start deployment", now);
    (&store).insert(&task).unwrap();
    let notifier = FailsOnceNotifier::default();
    let mut scheduler = ReminderScheduler::new(TaskService::new(&store), &notifier);

    let error = scheduler.run_once(now).unwrap_err();

    assert_eq!(error.code(), "reminder.notification.failed");
    assert_eq!(store.stored(task.id).unwrap().reminder_sent_at, None);

    scheduler.run_once(retry_at).unwrap();

    assert_eq!(notifier.attempts.get(), 2);
    assert_eq!(store.stored(task.id).unwrap().reminder_sent_at, Some(retry_at));
}

#[test]
fn scheduler_continues_after_a_notification_failure_and_returns_the_first_error() {
    let store = MemoryStore::default();
    let now = fixed_utc(2026, 9, 8, 9, 0, 0);
    let failing_task = due_at("Start deployment", fixed_utc(2026, 9, 8, 8, 45, 0));
    let succeeding_task = due_at("Notify stakeholders", fixed_utc(2026, 9, 8, 8, 50, 0));
    (&store).insert(&failing_task).unwrap();
    (&store).insert(&succeeding_task).unwrap();
    let notifier =
        SelectiveFailingNotifier { failing_task_id: failing_task.id, attempted_task_ids: RefCell::new(Vec::new()) };
    let mut scheduler = ReminderScheduler::new(TaskService::new(&store), &notifier);

    let error = scheduler.run_once(now).unwrap_err();

    assert_eq!(error.code(), "reminder.notification.failed");
    assert_eq!(notifier.attempted_task_ids.borrow().clone(), vec![failing_task.id, succeeding_task.id]);
    assert_eq!(store.stored(failing_task.id).unwrap().reminder_sent_at, None);
    assert_eq!(store.stored(succeeding_task.id).unwrap().reminder_sent_at, Some(now));
}

#[test]
fn project_commands_create_and_report_case_insensitive_duplicate_names() {
    let store = MemoryStore::default();
    let service = ProjectService::new(&store);

    let created = create_project_from_input(&service, CreateProjectInput { name: "Release".into() }).unwrap();

    assert_eq!(created.name, "Release");
    assert_eq!(
        create_project_from_input(&service, CreateProjectInput { name: "release".into() }).unwrap_err(),
        CommandError { code: "project.name.duplicate".into(), message_key: "errors.project.name.duplicate".into() }
    );
}

#[test]
fn project_commands_name_projects_by_id_and_report_malformed_ids() {
    let store = MemoryStore::default();
    let service = ProjectService::new(&store);
    let created = create_project_from_input(&service, CreateProjectInput { name: "  Release  ".into() }).unwrap();
    let id = uuid::Uuid::from_u128(created.id).to_string();

    let renamed =
        rename_project_from_input(&service, RenameProjectInput { id: id.clone(), name: "Launch".into() }).unwrap();
    assert_eq!(renamed.name, "Launch");
    assert_eq!(
        rename_project_from_input(&service, RenameProjectInput { id: "bad-id".into(), name: "Inbox".into() })
            .unwrap_err(),
        CommandError::invalid_project_input()
    );
    assert_eq!(
        create_project_from_input(&service, CreateProjectInput { name: "   ".into() }).unwrap_err(),
        CommandError::invalid_project_input()
    );

    assert!(archive_project_from_input(&service, ArchiveProjectInput { id: id.clone() }).unwrap().archived_at.is_some());
    assert!(list_projects_with(&service).unwrap().is_empty());
    assert_eq!(
        archive_project_from_input(&service, ArchiveProjectInput { id: "bad-id".into() }).unwrap_err(),
        CommandError::invalid_project_input()
    );
    assert_eq!(archive_project_from_input(&service, ArchiveProjectInput { id }).unwrap_err().code, "project.not_found");
}

fn chrono_instant(instant: UtcDateTime) -> chrono::DateTime<Utc> {
    let date = NaiveDate::from_ymd_opt(instant.date.year, instant.date.month, instant.date.day).unwrap();
    let time = NaiveTime::from_num_seconds_from_midnight_opt(instant.second_of_day, instant.nanosecond).unwrap();
    Utc.from_utc_datetime(&date.and_time(time))
}

fn library_instant(value: chrono::DateTime<Utc>) -> UtcDateTime {
    UtcDateTime::from_ymd_hms(value.year(), value.month(), value.day(), value.hour(), value.minute(), value.second())
        .unwrap()
}

fn civil(date: NaiveDate) -> CivilDate {
    CivilDate::from_ymd(date.year(), date.month(), date.day()).unwrap()
}

/// The calendar day of an instant in the local time zone.
fn local_day(instant: UtcDateTime) -> CivilDate {
    civil(chrono_instant(instant).with_timezone(&Local).date_naive())
}

fn fixed_local_utc(year: i32, month: u32, day: u32) -> UtcDateTime {
    library_instant(Local.with_ymd_and_hms(year, month, day, 12, 0, 0).single().unwrap().with_timezone(&Utc))
}

fn day_of(year: i32, month: u32, day: u32) -> CivilDate {
    CivilDate::from_ymd(year, month, day).unwrap()
}

fn title_set(summaries: Vec<TaskSummaryDto>) -> BTreeSet<String> {
    summaries.into_iter().map(|summary| summary.title).collect()
}

fn summary_ids(summaries: Vec<TaskSummaryDto>) -> BTreeSet<String> {
    summaries.into_iter().map(|summary| summary.id).collect()
}

fn id_text(id: u128) -> String {
    uuid::Uuid::from_u128(id).to_string()
}

#[test]
fn today_includes_scheduled_and_overdue_top_level_tasks_only() {
    let store = MemoryStore::default();
    let day = day_of(2026, 8, 26);

    let scheduled_today = due_at("Scheduled today", fixed_utc(2026, 8, 26, 9, 0, 0));
    let overdue = due_at("Overdue", fixed_utc(2026, 8, 25, 9, 0, 0));
    let mut completed = due_at("Completed today", fixed_utc(2026, 8, 26, 9, 0, 0));
    completed.completed_at = Some(fixed_utc(2026, 8, 26, 10, 0, 0));
    let mut child = due_at("Child today", fixed_utc(2026, 8, 26, 11, 0, 0));
    child.parent_id = Some(scheduled_today.id);

    for task in [&scheduled_today, &overdue, &completed, &child] {
        (&store).insert(task).unwrap();
    }

    let titles =
        (&store).list_tasks(&TaskView::Today { day }).unwrap().into_iter().map(|summary| summary.title).collect::<Vec<_>>();

    assert_eq!(titles, vec!["Overdue", "Scheduled today"]);
}

#[test]
fn quick_panel_today_includes_open_tasks_and_tasks_completed_on_the_day() {
    let store = MemoryStore::default();
    let day = day_of(2026, 8, 26);

    let open = due_at("Open today", fixed_utc(2026, 8, 26, 9, 0, 0));
    let mut completed_today = for_test("Completed today");
    completed_today.completed_at = Some(fixed_utc(2026, 8, 26, 10, 0, 0));
    let mut completed_yesterday = for_test("Completed yesterday");
    completed_yesterday.completed_at = Some(fixed_utc(2026, 8, 25, 10, 0, 0));

    for task in [&open, &completed_today, &completed_yesterday] {
        (&store).insert(task).unwrap();
    }

    let summaries = (&store).list_tasks(&TaskView::QuickPanelToday { day }).unwrap();

    assert_eq!(
        summaries.into_iter().map(|summary| summary.title).collect::<Vec<_>>(),
        vec!["Open today", "Completed today"]
    );
}

#[test]
fn upcoming_uses_the_system_local_calendar_day_for_utc_timestamps() {
    let store = MemoryStore::default();
    let scheduled_at = fixed_utc(2026, 8, 26, 18, 0, 0);
    let task = due_at("Local-day task", scheduled_at);
    (&store).insert(&task).unwrap();

    let local = chrono_instant(scheduled_at).with_timezone(&Local).date_naive();
    let summaries = (&store)
        .list_tasks(&TaskView::Upcoming { day: civil(local.checked_sub_days(chrono::Days::new(1)).unwrap()) })
        .unwrap();

    assert_eq!(title_set(summaries), BTreeSet::from(["Local-day task".to_owned()]));
}

#[test]
fn calendar_view_includes_scheduled_completed_top_level_tasks_only_within_the_local_month() {
    let store = MemoryStore::default();
    let start = day_of(2026, 8, 1);
    let end = day_of(2026, 9, 1);
    let open = due_at("August open", fixed_local_utc(2026, 8, 12));
    let mut completed = due_at("August completed", fixed_local_utc(2026, 8, 18));
    completed.completed_at = Some(fixed_local_utc(2026, 8, 19));
    let mut child = due_at("August child", fixed_local_utc(2026, 8, 20));
    child.parent_id = Some(open.id);
    let previous_month = due_at("July task", fixed_local_utc(2026, 7, 31));
    let next_month = due_at("September task", fixed_local_utc(2026, 9, 1));
    let unscheduled = for_test("Unscheduled");

    for task in [&open, &completed, &child, &previous_month, &next_month, &unscheduled] {
        (&store).insert(task).unwrap();
    }

    let summaries = (&store).list_tasks(&TaskView::Calendar { start, end }).unwrap();

    assert_eq!(title_set(summaries), BTreeSet::from(["August completed".to_owned(), "August open".to_owned()]));
}

#[test]
fn task_views_filter_top_level_tasks_by_status_date_and_project() {
    let store = MemoryStore::default();
    let day = day_of(2026, 8, 26);
    let project_id = random_id();

    let inbox = for_test("Inbox");
    let upcoming = due_at("Upcoming", fixed_utc(2026, 8, 27, 9, 0, 0));
    let mut completed = for_test("Completed");
    completed.completed_at = Some(fixed_utc(2026, 8, 26, 10, 0, 0));
    let mut project_task = for_test("Project task");
    project_task.project_id = Some(project_id);
    let mut other_project_task = for_test("Other project task");
    other_project_task.project_id = Some(random_id());

    for task in [&inbox, &upcoming, &completed, &project_task, &other_project_task] {
        (&store).insert(task).unwrap();
    }

    assert_eq!(
        title_set((&store).list_tasks(&TaskView::Inbox).unwrap()),
        BTreeSet::from([
            "Inbox".to_owned(),
            "Other project task".to_owned(),
            "Project task".to_owned(),
            "Upcoming".to_owned(),
        ])
    );
    assert_eq!(
        title_set((&store).list_tasks(&TaskView::Upcoming { day }).unwrap()),
        BTreeSet::from(["Upcoming".to_owned()])
    );
    assert_eq!(title_set((&store).list_tasks(&TaskView::Completed).unwrap()), BTreeSet::from(["Completed".to_owned()]));
    assert_eq!(
        title_set((&store).list_tasks(&TaskView::Project(project_id)).unwrap()),
        BTreeSet::from(["Project task".to_owned()])
    );
}

struct SharedViewFixture {
    store: MemoryStore,
    day: CivilDate,
    project_id: u128,
    inbox_ids: BTreeSet<String>,
    upcoming_ids: BTreeSet<String>,
    completed_ids: BTreeSet<String>,
    project_ids: BTreeSet<String>,
}

fn shared_view_fixture() -> SharedViewFixture {
    let store = MemoryStore::default();
    let day = day_of(2026, 8, 26);
    let project_id = random_id();
    let other_project_id = random_id();
    let inbox_open = for_test("Fixture inbox open");
    let mut upcoming_open = due_at("Fixture upcoming open", fixed_utc(2026, 8, 27, 9, 0, 0));
    upcoming_open.project_id = Some(project_id);
    let mut upcoming_completed = due_at("Fixture upcoming completed", fixed_utc(2026, 8, 27, 9, 0, 0));
    upcoming_completed.project_id = Some(project_id);
    upcoming_completed.completed_at = Some(fixed_utc(2026, 8, 26, 10, 0, 0));
    let mut upcoming_child = due_at("Fixture upcoming child", fixed_utc(2026, 8, 27, 9, 0, 0));
    upcoming_child.parent_id = Some(upcoming_open.id);
    let mut completed_open = for_test("Fixture completed open");
    completed_open.completed_at = Some(fixed_utc(2026, 8, 26, 10, 0, 0));
    let mut completed_child = for_test("Fixture completed child");
    completed_child.parent_id = Some(completed_open.id);
    completed_child.completed_at = Some(fixed_utc(2026, 8, 26, 10, 0, 0));
    let mut project_open = for_test("Fixture project open");
    project_open.project_id = Some(project_id);
    let mut project_completed = for_test("Fixture project completed");
    project_completed.project_id = Some(project_id);
    project_completed.completed_at = Some(fixed_utc(2026, 8, 26, 10, 0, 0));
    let mut project_child = for_test("Fixture project child");
    project_child.parent_id = Some(project_open.id);
    project_child.project_id = Some(project_id);
    let mut other_project_open = for_test("Fixture other project open");
    other_project_open.project_id = Some(other_project_id);
    let mut search_open = for_test("Fixture search open");
    search_open.note = "needle".into();
    let mut search_completed = for_test("Fixture search completed");
    search_completed.note = "needle".into();
    search_completed.completed_at = Some(fixed_utc(2026, 8, 26, 10, 0, 0));
    let mut search_child = for_test("Fixture search child");
    search_child.parent_id = Some(search_open.id);
    search_child.note = "needle".into();

    for task in [
        &inbox_open,
        &upcoming_open,
        &upcoming_completed,
        &upcoming_child,
        &completed_open,
        &completed_child,
        &project_open,
        &project_completed,
        &project_child,
        &other_project_open,
        &search_open,
        &search_completed,
        &search_child,
    ] {
        (&store).insert(task).unwrap();
    }

    SharedViewFixture {
        store,
        day,
        project_id,
        inbox_ids: BTreeSet::from([
            id_text(inbox_open.id),
            id_text(upcoming_open.id),
            id_text(project_open.id),
            id_text(other_project_open.id),
            id_text(search_open.id),
        ]),
        upcoming_ids: BTreeSet::from([id_text(upcoming_open.id)]),
        completed_ids: BTreeSet::from([
            id_text(upcoming_completed.id),
            id_text(completed_open.id),
            id_text(project_completed.id),
            id_text(search_completed.id),
        ]),
        project_ids: BTreeSet::from([id_text(upcoming_open.id), id_text(project_open.id)]),
    }
}

#[test]
fn inbox_view_excludes_completed_and_child_tasks_from_the_shared_fixture() {
    let fixture = shared_view_fixture();

    assert_eq!(summary_ids((&fixture.store).list_tasks(&TaskView::Inbox).unwrap()), fixture.inbox_ids);
}

#[test]
fn upcoming_view_excludes_completed_and_child_tasks_from_the_shared_fixture() {
    let fixture = shared_view_fixture();

    assert_eq!(
        summary_ids((&fixture.store).list_tasks(&TaskView::Upcoming { day: fixture.day }).unwrap()),
        fixture.upcoming_ids
    );
}

#[test]
fn completed_view_excludes_child_tasks_from_the_shared_fixture() {
    let fixture = shared_view_fixture();

    assert_eq!(summary_ids((&fixture.store).list_tasks(&TaskView::Completed).unwrap()), fixture.completed_ids);
}

#[test]
fn project_view_excludes_completed_other_project_and_child_tasks_from_the_shared_fixture() {
    let fixture = shared_view_fixture();

    assert_eq!(
        summary_ids((&fixture.store).list_tasks(&TaskView::Project(fixture.project_id)).unwrap()),
        fixture.project_ids
    );
}

#[test]
fn calendar_membership_follows_the_schedule_and_not_completion_or_project() {
    let start = day_of(2026, 8, 1);
    let end = day_of(2026, 9, 1);
    let view = TaskView::Calendar { start, end };
    let open = ViewFacts {
        is_top_level: true,
        is_completed: false,
        project_id: None,
        scheduled_day: Some(day_of(2026, 8, 12)),
        completed_day: None,
    };
    let completed_in_project = ViewFacts {
        is_completed: true,
        project_id: Some(7),
        completed_day: Some(day_of(2026, 8, 13)),
        ..open
    };
    let unscheduled = ViewFacts { scheduled_day: None, ..open };
    let on_the_end = ViewFacts { scheduled_day: Some(end), ..open };

    assert!(task_in_view(&view, &open));
    assert!(task_in_view(&view, &completed_in_project));
    assert!(!task_in_view(&view, &unscheduled));
    assert!(!task_in_view(&view, &on_the_end));
}
