//! Notifications: reminders shown natively, task changes announced to the
//! interface, and the background workers that are woken to scan.
use vstd::prelude::*;

use crate::error::{AppError, AppErrorKind};
use crate::ids::{hyphenated, id_text};
use crate::reminders::ReminderNotifier;
use crate::task::Task;

verus! {

pub fn native_notification_error() -> (r: AppError)
    ensures
        r.has("reminder.notification.failed", "errors.reminder.notification.failed", AppErrorKind::Internal),
{
    AppError::new("reminder.notification.failed", "errors.reminder.notification.failed", AppErrorKind::Internal)
}

/// A native failure to show a notification is the stable reminder error.
pub fn map_native_notification_result<E>(result: Result<(), E>) -> (r: Result<(), AppError>)
    ensures
        result is Ok <==> r is Ok,
        r matches Err(e) ==> e.has(
            "reminder.notification.failed",
            "errors.reminder.notification.failed",
            AppErrorKind::Internal,
        ),
{
    match result {
        Ok(()) => Ok(()),
        Err(_) => Err(native_notification_error()),
    }
}

/// The text before the last separator of a path, if it has one.
pub open spec fn directory_of(path: Seq<char>) -> Seq<char> {
    let k = crate::webdav::last_slash_of(path, '\\');
    if k < 0 {
        Seq::empty()
    } else {
        path.subrange(0, k)
    }
}

pub open spec fn ends_with_text(s: Seq<char>, suffix: Seq<char>) -> bool {
    s.len() >= suffix.len() && s.subrange(s.len() - suffix.len(), s.len() as int) == suffix
}

/// The application identifier under which Windows attributes a reminder:
/// the installed identifier, except for a build run from its build
/// directory, whose reminders keep the default attribution.
pub fn windows_notification_app_id<'a>(identifier: &'a str, executable: &str) -> (r: Result<Option<&'a str>, AppError>)
    ensures
        executable@.len() == 0 ==> (r matches Err(e) && e.has(
            "reminder.notification.failed",
            "errors.reminder.notification.failed",
            AppErrorKind::Internal,
        )),
        executable@.len() > 0 ==> r == Ok::<Option<&'a str>, AppError>(
            if ends_with_text(directory_of(executable@), "\\target\\debug"@) || ends_with_text(
                directory_of(executable@),
                "\\target\\release"@,
            ) {
                None
            } else {
                Some(identifier)
            },
        ),
{
    if executable.unicode_len() == 0 {
        return Err(native_notification_error());
    }
    let directory = crate::webdav::before_last(executable, '\\');
    if crate::sync_resolve::text_ends_with(directory.as_str(), "\\target\\debug") || crate::sync_resolve::text_ends_with(
        directory.as_str(),
        "\\target\\release",
    ) {
        Ok(None)
    } else {
        Ok(Some(identifier))
    }
}

/// A notification as it is shown natively.
#[derive(Clone, Debug)]
pub struct NotificationMessage {
    pub summary: String,
    pub body: String,
}

/// Shows notifications natively.
pub trait NativeNotificationPresenter {
    fn show(&self, message: &NotificationMessage) -> Result<(), String>;
}

/// Shows reminders as native notifications titled with the product name.
pub struct TauriReminderNotifier<P> {
    pub product_name: String,
    pub identifier: String,
    pub presenter: P,
}

impl<P: NativeNotificationPresenter> TauriReminderNotifier<P> {
    pub fn with_presenter(product_name: String, identifier: String, presenter: P) -> (r: Self)
        ensures
            r.product_name@ == product_name@,
            r.identifier@ == identifier@,
            r.presenter == presenter,
    {
        TauriReminderNotifier { product_name, identifier, presenter }
    }

    /// The notification of a task's reminder: the product name over the task's title.
    pub fn message_for(&self, task: &Task) -> (r: NotificationMessage)
        ensures
            r.summary@ == self.product_name@,
            r.body@ == task.title@,
    {
        NotificationMessage { summary: self.product_name.clone(), body: task.title.clone() }
    }
}

impl<P: NativeNotificationPresenter> ReminderNotifier for TauriReminderNotifier<P> {
    /// Shows the task's reminder; a refused notification is the native
    /// notification error.
    fn notify(&self, task: &Task) -> (r: Result<(), AppError>)
        ensures
            r matches Err(e) ==> e.has(
                "reminder.notification.failed",
                "errors.reminder.notification.failed",
                AppErrorKind::Internal,
            ),
    {
        let message = self.message_for(task);
        map_native_notification_result(self.presenter.show(&message))
    }
}

/// The event name under which task changes are announced.
pub const TASK_MUTATED_EVENT: &'static str = "task://mutated";

/// A task changed: its identifier and new revision.
#[derive(Clone, Debug, PartialEq, Eq)]
pub struct TaskMutationEvent {
    pub task_id: String,
    pub revision: i64,
}

impl TaskMutationEvent {
    pub fn new(task_id: u128, revision: i64) -> (r: Self)
        ensures
            r.task_id@ == hyphenated(task_id),
            r.revision == revision,
    {
        TaskMutationEvent { task_id: id_text(task_id), revision }
    }
}

/// Announces task changes to the interface.
pub trait TaskMutationNotifier {
    fn notify(&self, event: TaskMutationEvent) -> Result<(), AppError>;
}

pub fn task_mutation_notification_error() -> (r: AppError)
    ensures
        r.has(
            "task.mutation_notification.failed",
            "errors.task.mutation_notification.failed",
            AppErrorKind::Internal,
        ),
{
    AppError::new(
        "task.mutation_notification.failed",
        "errors.task.mutation_notification.failed",
        AppErrorKind::Internal,
    )
}

/// How handing a wake request to a worker went.
#[derive(Clone, Copy, Debug, PartialEq, Eq, Structural)]
pub enum WakeDelivery {
    Sent,
    /// A request is already waiting, so this one is not needed.
    AlreadyPending,
    /// The worker has stopped.
    Closed,
}

pub fn reminder_worker_unavailable_error() -> (r: AppError)
    ensures
        r.has("reminder.worker.unavailable", "errors.reminder.worker.unavailable", AppErrorKind::Internal),
{
    AppError::new("reminder.worker.unavailable", "errors.reminder.worker.unavailable", AppErrorKind::Internal)
}

pub fn sync_worker_unavailable_error() -> (r: AppError)
    ensures
        r.has("sync.worker.unavailable", "errors.sync.worker.unavailable", AppErrorKind::Internal),
{
    AppError::new("sync.worker.unavailable", "errors.sync.worker.unavailable", AppErrorKind::Internal)
}

/// A wake request succeeds unless the worker has stopped.
pub fn wake_request_result(delivery: WakeDelivery, unavailable: AppError) -> (r: Result<(), AppError>)
    ensures
        delivery != WakeDelivery::Closed ==> r is Ok,
        delivery == WakeDelivery::Closed ==> r == Err::<(), AppError>(unavailable),
{
    match delivery {
        WakeDelivery::Sent | WakeDelivery::AlreadyPending => Ok(()),
        WakeDelivery::Closed => Err(unavailable),
    }
}

/// What the synchronisation worker does next.
#[derive(Clone, Copy, Debug, PartialEq, Eq, Structural)]
pub enum SyncWorkerAction {
    ScanNow,
    /// Wait for a wake request, or for the interval to pass.
    WaitForWakeOrInterval,
    /// Wait for a wake request only.
    WaitForWake,
}

/// The synchronisation worker's next step: with automatic synchronisation
/// it scans at once on start, then after each interval or wake request;
/// manual synchronisation waits for wake requests.
pub fn sync_worker_next(first_scan: &mut bool, automatic: bool) -> (r: SyncWorkerAction)
    ensures
        !*final(first_scan),
        *old(first_scan) && automatic ==> r == SyncWorkerAction::ScanNow,
        !(*old(first_scan) && automatic) && automatic ==> r == SyncWorkerAction::WaitForWakeOrInterval,
        !automatic ==> r == SyncWorkerAction::WaitForWake,
{
    let first = *first_scan;
    *first_scan = false;
    if first && automatic {
        SyncWorkerAction::ScanNow
    } else if automatic {
        SyncWorkerAction::WaitForWakeOrInterval
    } else {
        SyncWorkerAction::WaitForWake
    }
}

} // verus!
