use todo_app::reminders::{ReminderAction, ReminderEvent, ReminderPhase, ReminderRun};
use std::cell::{Cell, RefCell};

use todo_app::calendar::UtcDateTime;
use todo_app::error::{AppError, AppErrorKind};
use todo_app::ports::TaskRepository;
use todo_app::recurrence::TaskCompletion;
use todo_app::reminders::{lease_expiry, PendingReleaseClaim, ReminderNotifier, ReminderScheduler};
use todo_app::task::{ReminderClaimStateUpdate, Task};
use todo_app::task_query::{TaskSummaryDto, TaskView};
use todo_app::task_service::TaskService;

fn fixed_utc(year: i32, month: u32, day: u32, hour: u32, minute: u32, second: u32) -> UtcDateTime {
    UtcDateTime::from_ymd_hms(year, month, day, hour, minute, second).unwrap()
}

fn for_test(title: &str) -> Task {
    Task::for_test(title.to_owned())
}

fn notification_error() -> AppError {
    AppError::new("reminder.notification.failed", "errors.reminder.notification.failed", AppErrorKind::Validation)
}

fn candidate_query_error() -> AppError {
    AppError::new("reminder.candidates.failed", "errors.reminder.candidates.failed", AppErrorKind::Storage)
}

fn claim_error() -> AppError {
    AppError::new("reminder.claim.failed", "errors.reminder.claim.failed", AppErrorKind::Storage)
}

fn storage_error() -> AppError {
    AppError::new("storage.unavailable", "errors.storage.unavailable", AppErrorKind::Storage)
}

fn take_one(counter: &Cell<usize>) -> bool {
    if counter.get() > 0 {
        counter.set(counter.get() - 1);
        true
    } else {
        false
    }
}

#[derive(Default)]
struct RecordingNotifier {
    task_ids: RefCell<Vec<u128>>,
}

impl ReminderNotifier for &RecordingNotifier {
    fn notify(&self, task: &Task) -> Result<(), AppError> {
        self.task_ids.borrow_mut().push(task.id);
        Ok(())
    }
}

#[derive(Default)]
struct FailsOnceNotifier {
    attempts: Cell<usize>,
}

impl ReminderNotifier for &FailsOnceNotifier {
    fn notify(&self, _task: &Task) -> Result<(), AppError> {
        let attempt = self.attempts.get();
        self.attempts.set(attempt + 1);
        if attempt == 0 {
            return Err(notification_error());
        }
        Ok(())
    }
}

struct SelectiveFailingNotifier {
    failing_task_id: u128,
    attempted_task_ids: RefCell<Vec<u128>>,
}

impl ReminderNotifier for &SelectiveFailingNotifier {
    fn notify(&self, task: &Task) -> Result<(), AppError> {
        self.attempted_task_ids.borrow_mut().push(task.id);
        if task.id == self.failing_task_id {
            return Err(notification_error());
        }
        Ok(())
    }
}

/// Serves one fixed candidate and refuses every claim.
struct ClaimFailingRepository {
    candidate: Task,
    release_attempts: Cell<usize>,
}

impl TaskRepository for &ClaimFailingRepository {
    fn insert(&self, _: &Task) -> Result<(), AppError> {
        Ok(())
    }

    fn update(&self, _: &Task, _: i64, _: ReminderClaimStateUpdate) -> Result<(), AppError> {
        Ok(())
    }

    fn save_completion(&self, _: &TaskCompletion, _: i64) -> Result<(), AppError> {
        Ok(())
    }

    fn get(&self, _: u128) -> Result<Option<Task>, AppError> {
        Ok(None)
    }

    fn list_inbox(&self) -> Result<Vec<Task>, AppError> {
        Ok(Vec::new())
    }

    fn list_tasks(&self, _: &TaskView) -> Result<Vec<TaskSummaryDto>, AppError> {
        Ok(Vec::new())
    }

    fn list_due_reminder_candidates(&self, _: UtcDateTime, _: UtcDateTime) -> Result<Vec<Task>, AppError> {
        Ok(vec![self.candidate.clone()])
    }

    fn claim_reminder(&self, _: u128, _: UtcDateTime, _: UtcDateTime, _: UtcDateTime, _: u128) -> Result<bool, AppError> {
        Err(storage_error())
    }

    fn mark_reminder_delivered(&self, _: u128, _: UtcDateTime, _: UtcDateTime, _: u128) -> Result<bool, AppError> {
        Ok(false)
    }

    fn release_reminder_claim(&self, _: u128, _: UtcDateTime, _: u128) -> Result<bool, AppError> {
        self.release_attempts.set(self.release_attempts.get() + 1);
        Ok(false)
    }
}

#[derive(Clone, Copy, Debug, PartialEq, Eq)]
struct ReleaseAttempt {
    task_id: u128,
    scheduled_at: UtcDateTime,
    claim_token: u128,
}

/// Serves fixed candidates, keeps claims by task, records every release and
/// fails the next releases, candidate queries and claims on request.
struct ReleaseRetryRepository {
    tasks: Vec<Task>,
    claims: RefCell<Vec<(u128, u128)>>,
    claim_tokens: RefCell<Vec<u128>>,
    release_attempts: RefCell<Vec<ReleaseAttempt>>,
    release_failures: Cell<usize>,
    candidate_query_failures: Cell<usize>,
    claim_failures: Cell<usize>,
}

impl ReleaseRetryRepository {
    fn new(task: Task) -> Self {
        Self::new_with_release_failures(task, 1)
    }

    fn new_with_release_failures(task: Task, release_failures: usize) -> Self {
        Self::new_with_tasks_and_release_failures(vec![task], release_failures)
    }

    fn new_with_tasks_and_release_failures(tasks: Vec<Task>, release_failures: usize) -> Self {
        Self {
            tasks,
            claims: RefCell::new(Vec::new()),
            claim_tokens: RefCell::new(Vec::new()),
            release_attempts: RefCell::new(Vec::new()),
            release_failures: Cell::new(release_failures),
            candidate_query_failures: Cell::new(0),
            claim_failures: Cell::new(0),
        }
    }

    fn claim_of(&self, task_id: u128) -> Option<u128> {
        self.claims.borrow().iter().find(|(id, _)| *id == task_id).map(|(_, token)| *token)
    }

    fn claim_token(&self) -> Option<u128> {
        self.claim_of(self.tasks[0].id)
    }

    fn claim_tokens(&self) -> Vec<u128> {
        self.claim_tokens.borrow().clone()
    }

    fn is_claimed(&self) -> bool {
        self.is_task_claimed(self.tasks[0].id)
    }

    fn is_task_claimed(&self, task_id: u128) -> bool {
        self.claim_of(task_id).is_some()
    }

    fn release_tokens(&self) -> Vec<u128> {
        self.release_attempts().into_iter().map(|attempt| attempt.claim_token).collect()
    }

    fn release_attempts(&self) -> Vec<ReleaseAttempt> {
        self.release_attempts.borrow().clone()
    }

    fn replace_claim(&self, claim_token: u128) {
        let task_id = self.tasks[0].id;
        let mut claims = self.claims.borrow_mut();
        claims.retain(|(id, _)| *id != task_id);
        claims.push((task_id, claim_token));
    }

    fn fail_next_candidate_queries(&self, count: usize) {
        self.candidate_query_failures.set(self.candidate_query_failures.get() + count);
    }

    fn fail_next_claims(&self, count: usize) {
        self.claim_failures.set(self.claim_failures.get() + count);
    }

    fn remove_claim_if(&self, task_id: u128, claim_token: u128) -> bool {
        if self.claim_of(task_id) != Some(claim_token) {
            return false;
        }
        self.claims.borrow_mut().retain(|(id, _)| *id != task_id);
        true
    }
}

impl TaskRepository for &ReleaseRetryRepository {
    fn insert(&self, _: &Task) -> Result<(), AppError> {
        Ok(())
    }

    fn update(&self, _: &Task, _: i64, _: ReminderClaimStateUpdate) -> Result<(), AppError> {
        Ok(())
    }

    fn save_completion(&self, _: &TaskCompletion, _: i64) -> Result<(), AppError> {
        Ok(())
    }

    fn get(&self, _: u128) -> Result<Option<Task>, AppError> {
        Ok(None)
    }

    fn list_inbox(&self) -> Result<Vec<Task>, AppError> {
        Ok(Vec::new())
    }

    fn list_tasks(&self, _: &TaskView) -> Result<Vec<TaskSummaryDto>, AppError> {
        Ok(Vec::new())
    }

    fn list_due_reminder_candidates(&self, _: UtcDateTime, _: UtcDateTime) -> Result<Vec<Task>, AppError> {
        if take_one(&self.candidate_query_failures) {
            return Err(candidate_query_error());
        }
        Ok(self.tasks.clone())
    }

    fn claim_reminder(
        &self,
        task_id: u128,
        _: UtcDateTime,
        _: UtcDateTime,
        _: UtcDateTime,
        claim_token: u128,
    ) -> Result<bool, AppError> {
        if take_one(&self.claim_failures) {
            return Err(claim_error());
        }
        if self.is_task_claimed(task_id) {
            return Ok(false);
        }
        self.claims.borrow_mut().push((task_id, claim_token));
        self.claim_tokens.borrow_mut().push(claim_token);
        Ok(true)
    }

    fn mark_reminder_delivered(&self, task_id: u128, _: UtcDateTime, _: UtcDateTime, claim_token: u128) -> Result<bool, AppError> {
        Ok(self.remove_claim_if(task_id, claim_token))
    }

    fn release_reminder_claim(&self, task_id: u128, scheduled_at: UtcDateTime, claim_token: u128) -> Result<bool, AppError> {
        self.release_attempts.borrow_mut().push(ReleaseAttempt { task_id, scheduled_at, claim_token });
        if take_one(&self.release_failures) {
            return Err(storage_error());
        }
        Ok(self.remove_claim_if(task_id, claim_token))
    }
}

fn due_at(title: &str, at: UtcDateTime) -> Task {
    let mut task = for_test(title);
    task.scheduled_at = Some(at);
    task
}

#[test]
fn scheduler_does_not_notify_when_claim_persistence_fails() {
    let now = fixed_utc(2026, 9, 8, 9, 0, 0);
    let repository = ClaimFailingRepository { candidate: due_at("Start deployment", now), release_attempts: Cell::new(0) };
    let notifier = RecordingNotifier::default();
    let mut scheduler = ReminderScheduler::new(TaskService::new(&repository), &notifier);

    let error = scheduler.run_once(now).unwrap_err();

    assert_eq!(error.code(), "storage.unavailable");
    assert!(notifier.task_ids.borrow().is_empty());
    assert_eq!(repository.release_attempts.get(), 0);
}

#[test]
fn scheduler_retries_a_failed_release_with_its_original_token_before_retrying_notification() {
    let now = fixed_utc(2026, 9, 8, 9, 0, 0);
    let task = due_at("Start deployment", now);
    let repository = ReleaseRetryRepository::new_with_release_failures(task.clone(), 2);
    let notifier = FailsOnceNotifier::default();
    let mut scheduler = ReminderScheduler::new(TaskService::new(&repository), &notifier);

    let first_error = scheduler.run_once(now).unwrap_err();

    assert_eq!(first_error.code(), "reminder.notification.failed");
    assert_eq!(notifier.attempts.get(), 1);
    assert_eq!(repository.release_tokens().len(), 1);
    let original_token = repository.claim_tokens()[0];
    assert_eq!(repository.release_tokens(), vec![original_token]);
    assert_eq!(
        repository.release_attempts(),
        vec![ReleaseAttempt { task_id: task.id, scheduled_at: now, claim_token: original_token }]
    );

    let second_error = scheduler.run_once(fixed_utc(2026, 9, 8, 9, 1, 0)).unwrap_err();

    assert_eq!(second_error.code(), "storage.unavailable");
    assert_eq!(notifier.attempts.get(), 1);
    assert_eq!(repository.release_tokens(), vec![original_token, original_token]);
    assert!(repository.is_claimed());

    scheduler.run_once(fixed_utc(2026, 9, 8, 9, 2, 0)).unwrap();

    assert_eq!(notifier.attempts.get(), 1);
    assert_eq!(repository.release_tokens(), vec![original_token, original_token, original_token]);
    assert!(!repository.is_claimed());

    scheduler.run_once(fixed_utc(2026, 9, 8, 9, 3, 0)).unwrap();

    assert_eq!(notifier.attempts.get(), 2);
}

#[test]
fn scheduler_retries_pending_release_after_a_candidate_query_error_with_the_original_claim() {
    let now = fixed_utc(2026, 9, 8, 9, 0, 0);
    let task = due_at("Start deployment", now);
    let repository = ReleaseRetryRepository::new_with_release_failures(task.clone(), 3);
    let notifier = FailsOnceNotifier::default();
    let mut scheduler = ReminderScheduler::new(TaskService::new(&repository), &notifier);

    let first_error = scheduler.run_once(now).unwrap_err();
    let original_token = repository.claim_tokens()[0];
    repository.fail_next_candidate_queries(1);

    let second_error = scheduler.run_once(fixed_utc(2026, 9, 8, 9, 1, 0)).unwrap_err();

    let attempt = ReleaseAttempt { task_id: task.id, scheduled_at: now, claim_token: original_token };
    assert_eq!(first_error.code(), "reminder.notification.failed");
    assert_eq!(second_error.code(), "reminder.candidates.failed");
    assert_eq!(repository.release_attempts(), vec![attempt, attempt]);

    let third_error = scheduler.run_once(fixed_utc(2026, 9, 8, 9, 2, 0)).unwrap_err();

    assert_eq!(third_error.code(), "storage.unavailable");
    assert_eq!(repository.release_attempts(), vec![attempt, attempt, attempt]);
}

#[test]
fn scheduler_retries_pending_release_after_a_claim_error_with_the_original_claim() {
    let now = fixed_utc(2026, 9, 8, 9, 0, 0);
    let task = due_at("Start deployment", now);
    let repository = ReleaseRetryRepository::new_with_release_failures(task.clone(), 3);
    let notifier = FailsOnceNotifier::default();
    let mut scheduler = ReminderScheduler::new(TaskService::new(&repository), &notifier);

    scheduler.run_once(now).unwrap_err();
    let original_token = repository.claim_tokens()[0];
    repository.fail_next_claims(1);

    let second_error = scheduler.run_once(fixed_utc(2026, 9, 8, 9, 1, 0)).unwrap_err();

    let attempt = ReleaseAttempt { task_id: task.id, scheduled_at: now, claim_token: original_token };
    assert_eq!(second_error.code(), "reminder.claim.failed");
    assert_eq!(repository.release_attempts(), vec![attempt, attempt]);

    scheduler.run_once(fixed_utc(2026, 9, 8, 9, 2, 0)).unwrap_err();

    assert_eq!(repository.release_attempts(), vec![attempt, attempt, attempt]);
}

#[test]
fn scheduler_continues_after_a_notification_and_release_failure() {
    let now = fixed_utc(2026, 9, 8, 9, 0, 0);
    let failing_task = due_at("Start deployment", fixed_utc(2026, 9, 8, 8, 45, 0));
    let succeeding_task = due_at("Notify stakeholders", fixed_utc(2026, 9, 8, 8, 50, 0));
    let repository =
        ReleaseRetryRepository::new_with_tasks_and_release_failures(vec![failing_task.clone(), succeeding_task.clone()], 1);
    let notifier =
        SelectiveFailingNotifier { failing_task_id: failing_task.id, attempted_task_ids: RefCell::new(Vec::new()) };
    let mut scheduler = ReminderScheduler::new(TaskService::new(&repository), &notifier);

    let error = scheduler.run_once(now).unwrap_err();

    assert_eq!(error.code(), "reminder.notification.failed");
    assert_eq!(notifier.attempted_task_ids.borrow().clone(), vec![failing_task.id, succeeding_task.id]);
    assert_eq!(
        repository.release_attempts(),
        vec![ReleaseAttempt {
            task_id: failing_task.id,
            scheduled_at: failing_task.scheduled_at.unwrap(),
            claim_token: repository.claim_tokens()[0],
        }]
    );
    assert!(!repository.is_task_claimed(succeeding_task.id));
}

#[test]
fn scheduler_never_releases_a_pending_claim_replaced_by_another_scheduler() {
    let now = fixed_utc(2026, 9, 8, 9, 0, 0);
    let task = due_at("Start deployment", now);
    let repository = ReleaseRetryRepository::new(task);
    let notifier = FailsOnceNotifier::default();
    let mut scheduler = ReminderScheduler::new(TaskService::new(&repository), &notifier);

    scheduler.run_once(now).unwrap_err();
    let original_token = repository.claim_tokens()[0];
    let other_scheduler_token = uuid::Uuid::new_v4().as_u128();
    repository.replace_claim(other_scheduler_token);

    scheduler.run_once(fixed_utc(2026, 9, 8, 9, 1, 0)).unwrap();

    assert_eq!(repository.release_tokens(), vec![original_token, original_token]);
    assert_eq!(repository.claim_token(), Some(other_scheduler_token));
}

#[test]
fn a_pending_claim_is_kept_once() {
    let repository = ReleaseRetryRepository::new(due_at("Pending", fixed_utc(2026, 1, 1, 0, 0, 0)));
    let notifier = RecordingNotifier::default();
    let mut scheduler = ReminderScheduler::new(TaskService::new(&repository), &notifier);
    let claim = PendingReleaseClaim { task_id: 1, scheduled_at: fixed_utc(2026, 1, 1, 0, 0, 0), claim_token: 2 };

    scheduler.record_pending_release_claim(claim);
    scheduler.record_pending_release_claim(claim);

    assert_eq!(scheduler.pending_release_claims, vec![claim]);
    assert_eq!(scheduler.take_pending_release_claims(), vec![claim]);
    assert!(scheduler.pending_release_claims.is_empty());
}

#[test]
fn the_claim_lease_reaches_back_two_minutes_across_days_and_years() {
    assert_eq!(lease_expiry(fixed_utc(2026, 9, 8, 9, 0, 0)), fixed_utc(2026, 9, 8, 8, 58, 0));
    assert_eq!(lease_expiry(fixed_utc(2026, 3, 1, 0, 1, 0)), fixed_utc(2026, 2, 28, 23, 59, 0));
    assert_eq!(lease_expiry(fixed_utc(2024, 3, 1, 0, 0, 30)), fixed_utc(2024, 2, 29, 23, 58, 30));
    assert_eq!(lease_expiry(fixed_utc(2026, 1, 1, 0, 0, 0)), fixed_utc(2025, 12, 31, 23, 58, 0));
}

#[test]
fn a_reminder_run_releases_a_failed_notification_with_its_own_token_and_keeps_a_failed_release() {
    let now = fixed_utc(2026, 9, 8, 9, 0, 0);
    let expired_before = fixed_utc(2026, 9, 8, 8, 58, 0);
    let task = due_at("Start deployment", now);
    let (mut run, first) = ReminderRun::start(now, expired_before, Vec::new());
    assert!(matches!(first, ReminderAction::ListCandidates { .. }));

    let claim = match run.next(ReminderEvent::Listed(Ok(vec![task.clone()])), 41) {
        ReminderAction::Claim { claim, claimed_at, expired_before: before } => {
            assert_eq!((claimed_at, before), (now, expired_before));
            claim
        }
        other => panic!("unexpected action {other:?}"),
    };
    assert_eq!(claim, PendingReleaseClaim { task_id: task.id, scheduled_at: now, claim_token: 41 });
    assert!(matches!(run.next(ReminderEvent::Claimed(Ok(true)), 42), ReminderAction::Notify(0)));
    match run.next(ReminderEvent::Notified(Err(notification_error())), 43) {
        ReminderAction::Release(released) => assert_eq!(released, claim),
        other => panic!("unexpected action {other:?}"),
    }
    match run.next(ReminderEvent::Released(Err(storage_error())), 44) {
        ReminderAction::Finish(Err(error)) => assert_eq!(error.code(), "reminder.notification.failed"),
        other => panic!("unexpected action {other:?}"),
    }
    assert_eq!(run.phase, ReminderPhase::Finished);
    assert_eq!(run.take_kept(), vec![claim]);
}
