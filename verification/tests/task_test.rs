use std::cell::{Cell, RefCell};

use todo_app::calendar::UtcDateTime;
use todo_app::error::{AppError, AppErrorKind};
use todo_app::ports::TaskRepository;
use todo_app::recurrence::{Frequency, RecurrenceRule, TaskCompletion};
use todo_app::task::{Priority, ReminderClaimStateUpdate, Task, TaskDraft, TaskPatch};
use todo_app::task_query::{TaskSummaryDto, TaskView};
use todo_app::task_service::TaskService;

fn fixed_utc(year: i32, month: u32, day: u32, hour: u32, minute: u32, second: u32) -> UtcDateTime {
    UtcDateTime::from_ymd_hms(year, month, day, hour, minute, second).unwrap()
}

fn for_test(title: &str) -> Task {
    Task::for_test(title.to_owned())
}

fn direct_draft(title: &str) -> TaskDraft {
    TaskDraft {
        title: title.into(),
        note: String::new(),
        project_id: None,
        parent_id: None,
        priority: Priority::Normal,
        scheduled_at: None,
        due_at: None,
        recurrence: None,
    }
}

fn legacy_yearly_rule() -> RecurrenceRule {
    RecurrenceRule::from_legacy_name("Yearly").unwrap()
}

#[derive(Default)]
struct MemoryRepository {
    tasks: RefCell<Vec<Task>>,
    insert_count: Cell<usize>,
    updates: RefCell<Vec<(i64, ReminderClaimStateUpdate)>>,
}

impl TaskRepository for &MemoryRepository {
    fn insert(&self, task: &Task) -> Result<(), AppError> {
        self.insert_count.set(self.insert_count.get() + 1);
        self.tasks.borrow_mut().push(task.clone());
        Ok(())
    }

    fn update(&self, task: &Task, expected_revision: i64, update: ReminderClaimStateUpdate) -> Result<(), AppError> {
        self.updates.borrow_mut().push((expected_revision, update));
        let mut tasks = self.tasks.borrow_mut();
        if let Some(stored) = tasks.iter_mut().find(|t| t.id == task.id) {
            *stored = task.clone();
        }
        Ok(())
    }

    fn save_completion(&self, completion: &TaskCompletion, _expected_revision: i64) -> Result<(), AppError> {
        let mut tasks = self.tasks.borrow_mut();
        if let Some(stored) = tasks.iter_mut().find(|t| t.id == completion.completed_task.id) {
            *stored = completion.completed_task.clone();
        }
        if let Some(next) = &completion.next_task {
            tasks.push(next.clone());
        }
        Ok(())
    }

    fn get(&self, id: u128) -> Result<Option<Task>, AppError> {
        Ok(self.tasks.borrow().iter().find(|t| t.id == id).cloned())
    }

    fn list_inbox(&self) -> Result<Vec<Task>, AppError> {
        Ok(self.tasks.borrow().iter().filter(|task| task.completed_at.is_none()).cloned().collect())
    }

    fn list_tasks(&self, _view: &TaskView) -> Result<Vec<TaskSummaryDto>, AppError> {
        Ok(Vec::new())
    }

    fn list_due_reminder_candidates(&self, _now: UtcDateTime, _expired_before: UtcDateTime) -> Result<Vec<Task>, AppError> {
        Ok(Vec::new())
    }

    fn claim_reminder(&self, _: u128, _: UtcDateTime, _: UtcDateTime, _: UtcDateTime, _: u128) -> Result<bool, AppError> {
        Ok(false)
    }

    fn mark_reminder_delivered(&self, _: u128, _: UtcDateTime, _: UtcDateTime, _: u128) -> Result<bool, AppError> {
        Ok(false)
    }

    fn release_reminder_claim(&self, _: u128, _: UtcDateTime, _: u128) -> Result<bool, AppError> {
        Ok(false)
    }
}

#[test]
fn create_task_rejects_a_blank_title() {
    let error = TaskDraft::new("   ").unwrap_err();

    assert_eq!(error.code(), "task.title.blank");
}

#[test]
fn patch_preserves_unspecified_fields() {
    let task = for_test("Draft API");
    let patched = task
        .apply_patch(TaskPatch { title: Some("Review API".into()), ..Default::default() })
        .unwrap();

    assert_eq!(patched.title, "Review API");
    assert_eq!(patched.priority, task.priority);
    assert_eq!(patched.revision, task.revision + 1);
}

#[test]
fn from_draft_rejects_a_blank_title_from_direct_construction() {
    let error = Task::from_draft(direct_draft("   ")).unwrap_err();

    assert_eq!(error.code(), "task.title.blank");
}

#[test]
fn from_draft_rejects_a_title_with_501_unicode_scalar_values() {
    let error = Task::from_draft(direct_draft(&"a".repeat(501))).unwrap_err();

    assert_eq!(error.code(), "task.title.too_long");
}

#[test]
fn from_draft_accepts_a_title_of_500_unicode_scalar_values() {
    let task = Task::from_draft(direct_draft(&"题".repeat(500))).unwrap();

    assert_eq!(task.title.chars().count(), 500);
    assert_eq!(task.revision, 1);
}

#[test]
fn from_draft_trims_a_title_from_direct_construction() {
    let task = Task::from_draft(direct_draft("  Review API  ")).unwrap();

    assert_eq!(task.title, "Review API");
}

#[test]
fn task_service_does_not_insert_a_draft_with_an_invalid_direct_title() {
    let repository = MemoryRepository::default();
    let service = TaskService::new(&repository);

    let error = service.create(direct_draft(" ")).unwrap_err();

    assert_eq!(error.code(), "task.title.blank");
    assert_eq!(repository.insert_count.get(), 0);
}

#[test]
fn task_service_rejects_completing_a_task_through_the_general_patch_path() {
    let repository = MemoryRepository::default();
    let task = for_test("Prepare release");
    (&repository).insert(&task).unwrap();
    let service = TaskService::new(&repository);

    let error = service
        .patch_with_pre_update_validation(
            task.id,
            TaskPatch { completed_at: Some(Some(fixed_utc(2026, 8, 26, 10, 0, 0))), ..Default::default() },
            |_: &Task, _: &TaskPatch| Ok(()),
        )
        .0
        .unwrap_err();

    assert_eq!(error.code(), "task.completion.use_complete");
    assert_eq!(repository.tasks.borrow()[0].completed_at, None);
}

#[test]
fn task_service_completes_a_non_recurring_task_without_creating_another_instance() {
    let repository = MemoryRepository::default();
    let task = for_test("Ship release");
    (&repository).insert(&task).unwrap();
    let service = TaskService::new(&repository);

    let completion = service.complete(task.id).unwrap().unwrap();

    assert!(completion.completed_task.completed_at.is_some());
    assert!(completion.next_task.is_none());
    assert_eq!(repository.tasks.borrow().len(), 1);
    let again = service.complete(task.id).unwrap_err();
    assert_eq!(again.code(), "task.already_completed");
}

#[test]
fn restoring_a_completed_non_recurring_task_clears_an_existing_reminder_marker() {
    let repository = MemoryRepository::default();
    let mut task = for_test("Prepare release");
    task.completed_at = Some(fixed_utc(2026, 9, 8, 10, 0, 0));
    task.reminder_sent_at = Some(fixed_utc(2026, 9, 8, 8, 45, 0));
    (&repository).insert(&task).unwrap();
    let service = TaskService::new(&repository);

    let restored = service
        .patch_with_pre_update_validation(
            task.id,
            TaskPatch { completed_at: Some(None), ..Default::default() },
            |_: &Task, _: &TaskPatch| Ok(()),
        )
        .0
        .unwrap()
        .unwrap();

    assert_eq!(restored.completed_at, None);
    assert_eq!(restored.reminder_sent_at, None);
    assert_eq!(repository.updates.borrow()[0], (task.revision, ReminderClaimStateUpdate::Clear));
}

#[test]
fn task_service_rejects_a_parent_in_a_draft() {
    let repository = MemoryRepository::default();
    let service = TaskService::new(&repository);
    let mut draft = direct_draft("Child");
    draft.parent_id = Some(7);

    let error = service.create(draft).unwrap_err();

    assert_eq!(error.code(), "task.parent.write.unsupported");
    assert_eq!(repository.insert_count.get(), 0);
}

#[test]
fn patch_clears_an_explicit_scheduled_date_without_changing_other_fields() {
    let mut task = for_test("Draft API");
    task.scheduled_at = Some(fixed_utc(2026, 9, 8, 9, 0, 0));

    let patched = task.apply_patch(TaskPatch { scheduled_at: Some(None), ..Default::default() }).unwrap();

    assert_eq!(patched.scheduled_at, None);
    assert_eq!(patched.title, task.title);
    assert_eq!(patched.priority, task.priority);
}

#[test]
fn patching_a_schedule_clears_an_existing_reminder_marker() {
    let mut task = for_test("Draft API");
    task.scheduled_at = Some(fixed_utc(2026, 9, 8, 9, 0, 0));
    task.reminder_sent_at = Some(fixed_utc(2026, 9, 8, 8, 45, 0));

    let patched = task
        .apply_patch(TaskPatch { scheduled_at: Some(Some(fixed_utc(2026, 9, 9, 9, 0, 0))), ..Default::default() })
        .unwrap();

    assert_eq!(patched.reminder_sent_at, None);
}

#[test]
fn patching_with_the_same_schedule_preserves_an_existing_reminder_marker() {
    let mut task = for_test("Draft API");
    let scheduled_at = fixed_utc(2026, 9, 8, 9, 0, 0);
    let reminder_sent_at = fixed_utc(2026, 9, 8, 8, 45, 0);
    task.scheduled_at = Some(scheduled_at);
    task.reminder_sent_at = Some(reminder_sent_at);

    let patched = task.apply_patch(TaskPatch { scheduled_at: Some(Some(scheduled_at)), ..Default::default() }).unwrap();

    assert_eq!(patched.reminder_sent_at, Some(reminder_sent_at));
}

#[test]
fn from_draft_rejects_a_new_yearly_rule_loaded_from_structured_input() {
    let mut draft = direct_draft("Renew certificate");
    draft.scheduled_at = Some(fixed_utc(2026, 2, 1, 9, 0, 0));
    draft.recurrence = Some(legacy_yearly_rule());

    let error = Task::from_draft(draft).unwrap_err();

    assert_eq!(error.code(), "recurrence.frequency.unsupported");
}

#[test]
fn patch_rejects_a_new_yearly_rule_loaded_from_structured_input() {
    let task = for_test("Renew certificate");

    let error = task
        .apply_patch(TaskPatch { recurrence: Some(Some(legacy_yearly_rule())), ..Default::default() })
        .unwrap_err();

    assert_eq!(error.code(), "recurrence.frequency.unsupported");
}

#[test]
fn patch_accepts_an_explicitly_unchanged_legacy_yearly_rule() {
    let mut task = for_test("Renew certificate");
    task.scheduled_at = Some(fixed_utc(2026, 2, 28, 9, 0, 0));
    task.recurrence = Some(legacy_yearly_rule());
    task.monthly_anchor_day = Some(29);

    let patched = task
        .apply_patch(TaskPatch {
            note: Some("Keep legacy schedule".into()),
            recurrence: Some(task.recurrence),
            ..Default::default()
        })
        .unwrap();

    assert_eq!(patched.recurrence, task.recurrence);
    assert_eq!(patched.monthly_anchor_day, Some(29));
}

#[test]
fn patch_rejects_a_changed_legacy_yearly_rule() {
    let mut task = for_test("Renew certificate");
    task.scheduled_at = Some(fixed_utc(2026, 2, 28, 9, 0, 0));
    task.recurrence = Some(legacy_yearly_rule());

    let changed_yearly_rule = RecurrenceRule::from_persisted(Frequency::Yearly, 2, None, None).unwrap();
    let error = task
        .apply_patch(TaskPatch { recurrence: Some(Some(changed_yearly_rule)), ..Default::default() })
        .unwrap_err();

    assert_eq!(error.code(), "recurrence.frequency.unsupported");
}

#[test]
fn from_draft_rejects_a_recurring_task_without_a_schedule() {
    let mut draft = direct_draft("Review budget");
    draft.recurrence = Some(RecurrenceRule::new(Frequency::Daily, 1, None, None).unwrap());

    let error = Task::from_draft(draft).unwrap_err();

    assert_eq!(error.code(), "recurrence.scheduled_at.required");
}

#[test]
fn from_draft_rejects_a_recurring_subtask() {
    let mut draft = direct_draft("Review budget");
    draft.parent_id = Some(uuid::Uuid::new_v4().as_u128());
    draft.scheduled_at = Some(fixed_utc(2026, 8, 26, 9, 0, 0));
    draft.recurrence = Some(RecurrenceRule::new(Frequency::Daily, 1, None, None).unwrap());

    let error = Task::from_draft(draft).unwrap_err();

    assert_eq!(error.code(), "recurrence.child.unsupported");
}

#[test]
fn patch_of_the_last_revision_overflows() {
    let mut task = for_test("Old task");
    task.revision = i64::MAX;

    let error = task.apply_patch(TaskPatch { note: Some("x".into()), ..Default::default() }).unwrap_err();

    assert_eq!(error.code(), "task.revision.overflow");
}

#[test]
fn a_test_task_has_the_trimmed_title_and_default_fields() {
    let task = Task::for_test("  Write the release notes ".to_owned());

    assert_eq!(task.title, "Write the release notes");
    assert_eq!(task.note, "");
    assert_eq!(task.priority, Priority::Normal);
    assert_eq!((task.project_id, task.parent_id, task.recurrence), (None, None, None));
    assert_eq!((task.scheduled_at, task.due_at, task.completed_at), (None, None, None));
    assert_eq!((task.instance_number, task.revision), (1, 1));
    assert_eq!(task.created_at, task.updated_at);
}

#[test]
fn a_failed_caller_check_is_the_result_and_nothing_is_written() {
    let repository = MemoryRepository::default();
    let task = for_test("Prepare release");
    (&repository).insert(&task).unwrap();
    let service = TaskService::new(&repository);

    let error = service
        .patch_with_pre_update_validation(
            task.id,
            TaskPatch { title: Some("Prepare the release notes".into()), ..Default::default() },
            |_: &Task, _: &TaskPatch| {
                Err(AppError::new("project.not_found", "errors.project.not_found", AppErrorKind::NotFound))
            },
        )
        .0
        .unwrap_err();

    assert_eq!(error.code(), "project.not_found");
    assert!(repository.updates.borrow().is_empty());
    assert_eq!(repository.tasks.borrow()[0].title, "Prepare release");
}
