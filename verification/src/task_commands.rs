//! The task commands once their input is read: the checks the commands add
//! to the service's, the errors they report, and the follow-up requests
//! after a change.
use vstd::prelude::*;

use crate::commands::{all_tag_names_valid, parse_tag_names, validate_project_patch_against_current_task, CommandError};
use crate::error::AppError;
use crate::notification::{TaskMutationEvent, TaskMutationNotifier};
use crate::ports::{ProjectRepository, SubtaskRepository, TaskEditor, TaskEditorRepository, TaskRepository};
use crate::project::ProjectService;
use crate::task::{built_from_draft, draft_is_valid, patched_task, Task, TaskDraft, TaskPatch};
use crate::task_service::{patch_completes, patch_passes_task, TaskService};

verus! {

/// Asks the reminder worker to scan again.
pub trait ReminderRescanRequester {
    fn request_rescan(&self) -> Result<(), AppError>;
}

pub open spec fn is_command_error(r: Result<Task, CommandError>, code: Seq<char>, key: Seq<char>) -> bool {
    r matches Err(e) && e.is(code, key)
}

/// The command's answer to what the service gave: its value, not found where
/// there was none, and the service's error as a command error.
pub fn command_outcome<T>(outcome: Result<Option<T>, AppError>) -> (r: Result<T, CommandError>)
    ensures
        match outcome {
            Ok(Some(value)) => r == Ok::<T, CommandError>(value),
            Ok(None) => r matches Err(e) && e.is("task.not_found"@, "errors.task.not_found"@),
            Err(error) => r matches Err(e) && e.is(error.code@, error.translation_key@),
        },
{
    match outcome {
        Ok(Some(value)) => Ok(value),
        Ok(None) => Err(CommandError::task_not_found()),
        Err(error) => Err(CommandError::from_error(error)),
    }
}

/// The tag names, where some are given, are all valid.
pub open spec fn tags_acceptable(tag_names: Option<Vec<String>>) -> bool {
    tag_names matches Some(names) ==> all_tag_names_valid(names@)
}

/// What creating a task through its editor gives: a draft naming a parent is
/// refused; without a project, invalid tag names are refused; success needs a
/// valid draft and valid tag names.
pub open spec fn editor_creation_ensures(
    r: Result<TaskEditor, CommandError>,
    draft: TaskDraft,
    tag_names: Option<Vec<String>>,
) -> bool {
    &&& draft.parent_id is Some ==> (r matches Err(e) && e.is(
        "task.parent.write.unsupported"@,
        "errors.task.parent.write.unsupported"@,
    ))
    &&& draft.parent_id is None && draft.project_id is None && !tags_acceptable(tag_names) ==> (r matches Err(e)
        && e.is("task.tag.invalid"@, "errors.task.tag.invalid"@))
    &&& r is Ok ==> draft.parent_id is None && draft_is_valid(draft) && tags_acceptable(tag_names)
}

/// What changing a task through its editor gives: a patch naming a parent is
/// refused, then invalid tag names, then a patch that completes the task; a
/// success is the editor of the task with that id.
pub open spec fn editor_update_ensures(
    r: Result<TaskEditor, CommandError>,
    id: u128,
    patch: TaskPatch,
    tag_names: Option<Vec<String>>,
) -> bool {
    &&& patch.parent_id is Some ==> (r matches Err(e) && e.is(
        "task.parent.write.unsupported"@,
        "errors.task.parent.write.unsupported"@,
    ))
    &&& patch.parent_id is None && !tags_acceptable(tag_names) ==> (r matches Err(e) && e.is(
        "task.tag.invalid"@,
        "errors.task.tag.invalid"@,
    ))
    &&& patch.parent_id is None && tags_acceptable(tag_names) && patch_completes(patch) ==> (r matches Err(e)
        && e.is("task.completion.use_complete"@, "errors.task.completion.use_complete"@))
    &&& r matches Ok(e) ==> e.task.id == id
}

/// A draft from the interface may not name a parent, and a project it
/// names must be active.
pub fn check_draft_project<P: ProjectRepository>(projects: &ProjectService<P>, draft: TaskDraft) -> (r: Result<
    TaskDraft,
    CommandError,
>)
    ensures
        draft.parent_id is Some ==> (r matches Err(e) && e.is(
            "task.parent.write.unsupported"@,
            "errors.task.parent.write.unsupported"@,
        )),
        draft.parent_id is None && draft.project_id is None ==> r == Ok::<TaskDraft, CommandError>(draft),
        r matches Ok(d) ==> d == draft,
{
    if draft.parent_id.is_some() {
        return Err(CommandError::parent_write_unsupported());
    }
    if let Some(project_id) = draft.project_id {
        match projects.require_active(project_id) {
            Ok(_) => {},
            Err(error) => return Err(CommandError::from_error(error)),
        }
    }
    Ok(draft)
}

/// A patch from the interface may not move a task under a parent.
pub fn check_patch_parent(patch: TaskPatch) -> (r: Result<TaskPatch, CommandError>)
    ensures
        patch.parent_id is Some ==> (r matches Err(e) && e.is(
            "task.parent.write.unsupported"@,
            "errors.task.parent.write.unsupported"@,
        )),
        patch.parent_id is None ==> r == Ok::<TaskPatch, CommandError>(patch),
{
    if patch.parent_id.is_some() {
        return Err(CommandError::parent_write_unsupported());
    }
    Ok(patch)
}

/// Creates a task from a checked draft.
pub fn create_task_with_services<R: TaskRepository, P: ProjectRepository>(
    service: &TaskService<R>,
    projects: &ProjectService<P>,
    draft: TaskDraft,
) -> (r: Result<Task, CommandError>)
    ensures
        draft.parent_id is Some ==> is_command_error(
            r,
            "task.parent.write.unsupported"@,
            "errors.task.parent.write.unsupported"@,
        ),
        r matches Ok(t) ==> t.parent_id is None && draft_is_valid(draft) && built_from_draft(t, draft, t.id, t.created_at),
{
    let draft = check_draft_project(projects, draft)?;
    match service.create(draft) {
        Ok(task) => Ok(task),
        Err(error) => Err(CommandError::from_error(error)),
    }
}

/// Changes a task; moving it to another project needs that project to be
/// active; a missing task is reported as not found.
pub fn update_task_with_services<R: TaskRepository, P: ProjectRepository>(
    service: &TaskService<R>,
    projects: &ProjectService<P>,
    id: u128,
    patch: TaskPatch,
) -> (r: Result<Task, CommandError>)
    ensures
        patch.parent_id is Some ==> r is Err,
        r matches Ok(t) ==> t.id == id,
        r matches Ok(t) ==> exists|old_task: Task|
            patch_passes_task(old_task, patch) && #[trigger] patched_task(t, old_task, patch, t.updated_at),
{
    let validate = |current: &Task, change: &TaskPatch| -> (r: Result<(), AppError>)
        { validate_project_patch_against_current_task(projects, current, change) };
    command_outcome(service.patch_with_pre_update_validation(id, patch, validate).0)
}

/// Completes a task and gives the completed task; a missing task is
/// reported as not found.
pub fn complete_task_with_service<R: TaskRepository>(service: &TaskService<R>, id: u128) -> (r: Result<
    Task,
    CommandError,
>)
    ensures
        r matches Ok(t) ==> t.completed_at is Some && t.id == id,
{
    let completed = match service.complete(id) {
        Ok(Some(completion)) => Ok(Some(completion.completed_task)),
        Ok(None) => Ok(None),
        Err(error) => Err(error),
    };
    command_outcome(completed)
}

/// The editor of a task; a missing task is reported as not found.
pub fn get_task_editor_with_service<R: TaskRepository + TaskEditorRepository>(service: &TaskService<R>, id: u128) -> (r:
    Result<TaskEditor, CommandError>)
    ensures
        r matches Ok(e) ==> e.task.id == id,
{
    command_outcome(service.get_editor(id))
}

/// Creates a task with its tags from a checked draft and checked tag names.
pub fn create_task_editor_with_services<R: TaskRepository + TaskEditorRepository, P: ProjectRepository>(
    service: &TaskService<R>,
    projects: &ProjectService<P>,
    draft: TaskDraft,
    tag_names: Option<Vec<String>>,
) -> (r: Result<TaskEditor, CommandError>)
    ensures
        editor_creation_ensures(r, draft, tag_names),
{
    let draft = check_draft_project(projects, draft)?;
    let tag_names = match parse_tag_names(tag_names)? {
        Some(names) => names,
        None => Vec::new(),
    };
    match service.create_editor(draft, tag_names) {
        Ok(editor) => Ok(editor),
        Err(error) => Err(CommandError::from_error(error)),
    }
}

/// Changes a task through its editor, with checked tag names.
pub fn update_task_editor_with_services<R: TaskRepository + TaskEditorRepository, P: ProjectRepository>(
    service: &TaskService<R>,
    projects: &ProjectService<P>,
    id: u128,
    expected_revision: i64,
    patch: TaskPatch,
    tag_names: Option<Vec<String>>,
) -> (r: Result<TaskEditor, CommandError>)
    ensures
        editor_update_ensures(r, id, patch, tag_names),
{
    let patch = check_patch_parent(patch)?;
    let tag_names = parse_tag_names(tag_names)?;
    let validate = |current: &Task, change: &TaskPatch| -> (r: Result<(), AppError>)
        { validate_project_patch_against_current_task(projects, current, change) };
    command_outcome(service.update_editor_with_pre_update_validation(id, expected_revision, patch, tag_names, validate).0)
}

/// Creates a subtask under a parent.
pub fn create_subtask_with_service<R: TaskRepository + SubtaskRepository>(
    service: &TaskService<R>,
    parent_id: u128,
    title: &str,
) -> (r: Result<Task, CommandError>)
    ensures
        r matches Ok(t) ==> t.parent_id == Some(parent_id) && t.title@ == crate::text::trimmed(title@)
            && t.completed_at is None && t.recurrence is None && t.revision == 1,
{
    match service.create_subtask(parent_id, title) {
        Ok(task) => Ok(task),
        Err(error) => Err(CommandError::from_error(error)),
    }
}

/// Asks for a reminder rescan after a change; a failed request does not
/// fail the change.
pub fn request_reminder_rescan<Q: ReminderRescanRequester>(rescan_requester: &Q) {
    let _ = rescan_requester.request_rescan();
}

/// Announces a changed task; a failed announcement does not fail the change.
pub fn notify_task_mutation<N: TaskMutationNotifier>(notifier: &N, task: &Task) {
    let event = TaskMutationEvent::new(task.id, task.revision);
    let _ = notifier.notify(event);
}

/// Creates a task, then asks for a reminder rescan.
pub fn create_task_with_services_and_rescan<R: TaskRepository, P: ProjectRepository, Q: ReminderRescanRequester>(
    service: &TaskService<R>,
    projects: &ProjectService<P>,
    rescan_requester: &Q,
    draft: TaskDraft,
) -> (r: Result<Task, CommandError>)
    ensures
        draft.parent_id is Some ==> is_command_error(
            r,
            "task.parent.write.unsupported"@,
            "errors.task.parent.write.unsupported"@,
        ),
        r matches Ok(t) ==> t.parent_id is None && draft_is_valid(draft) && built_from_draft(t, draft, t.id, t.created_at),
{
    let task = create_task_with_services(service, projects, draft)?;
    request_reminder_rescan(rescan_requester);
    Ok(task)
}

/// Creates a task, asks for a reminder rescan and announces the new task.
pub fn create_task_with_services_and_rescan_and_notify<
    R: TaskRepository,
    P: ProjectRepository,
    Q: ReminderRescanRequester,
    N: TaskMutationNotifier,
>(
    service: &TaskService<R>,
    projects: &ProjectService<P>,
    rescan_requester: &Q,
    notifier: &N,
    draft: TaskDraft,
) -> (r: Result<Task, CommandError>)
    ensures
        draft.parent_id is Some ==> is_command_error(
            r,
            "task.parent.write.unsupported"@,
            "errors.task.parent.write.unsupported"@,
        ),
        r matches Ok(t) ==> t.parent_id is None && draft_is_valid(draft) && built_from_draft(t, draft, t.id, t.created_at),
{
    let task = create_task_with_services_and_rescan(service, projects, rescan_requester, draft)?;
    notify_task_mutation(notifier, &task);
    Ok(task)
}

/// Changes a task, then asks for a reminder rescan.
pub fn update_task_with_services_and_rescan<R: TaskRepository, P: ProjectRepository, Q: ReminderRescanRequester>(
    service: &TaskService<R>,
    projects: &ProjectService<P>,
    rescan_requester: &Q,
    id: u128,
    patch: TaskPatch,
) -> (r: Result<Task, CommandError>)
    ensures
        patch.parent_id is Some ==> r is Err,
        r matches Ok(t) ==> t.id == id,
        r matches Ok(t) ==> exists|old_task: Task|
            patch_passes_task(old_task, patch) && #[trigger] patched_task(t, old_task, patch, t.updated_at),
{
    let task = update_task_with_services(service, projects, id, patch)?;
    request_reminder_rescan(rescan_requester);
    Ok(task)
}

/// Changes a task, asks for a reminder rescan and announces the change.
pub fn update_task_with_services_and_rescan_and_notify<
    R: TaskRepository,
    P: ProjectRepository,
    Q: ReminderRescanRequester,
    N: TaskMutationNotifier,
>(
    service: &TaskService<R>,
    projects: &ProjectService<P>,
    rescan_requester: &Q,
    notifier: &N,
    id: u128,
    patch: TaskPatch,
) -> (r: Result<Task, CommandError>)
    ensures
        patch.parent_id is Some ==> r is Err,
        r matches Ok(t) ==> t.id == id,
        r matches Ok(t) ==> exists|old_task: Task|
            patch_passes_task(old_task, patch) && #[trigger] patched_task(t, old_task, patch, t.updated_at),
{
    let task = update_task_with_services_and_rescan(service, projects, rescan_requester, id, patch)?;
    notify_task_mutation(notifier, &task);
    Ok(task)
}

/// Completes a task, then asks for a reminder rescan.
pub fn complete_task_with_service_and_rescan<R: TaskRepository, Q: ReminderRescanRequester>(
    service: &TaskService<R>,
    rescan_requester: &Q,
    id: u128,
) -> (r: Result<Task, CommandError>)
    ensures
        r matches Ok(t) ==> t.completed_at is Some && t.id == id,
{
    let task = complete_task_with_service(service, id)?;
    request_reminder_rescan(rescan_requester);
    Ok(task)
}

/// Completes a task, asks for a reminder rescan and announces the
/// completed task.
pub fn complete_task_with_service_and_rescan_and_notify<
    R: TaskRepository,
    Q: ReminderRescanRequester,
    N: TaskMutationNotifier,
>(service: &TaskService<R>, rescan_requester: &Q, notifier: &N, id: u128) -> (r: Result<Task, CommandError>)
    ensures
        r matches Ok(t) ==> t.completed_at is Some && t.id == id,
{
    let task = complete_task_with_service_and_rescan(service, rescan_requester, id)?;
    notify_task_mutation(notifier, &task);
    Ok(task)
}

/// Creates a task with its tags, then asks for a reminder rescan.
pub fn create_task_editor_with_services_and_rescan<
    R: TaskRepository + TaskEditorRepository,
    P: ProjectRepository,
    Q: ReminderRescanRequester,
>(
    service: &TaskService<R>,
    projects: &ProjectService<P>,
    rescan_requester: &Q,
    draft: TaskDraft,
    tag_names: Option<Vec<String>>,
) -> (r: Result<TaskEditor, CommandError>)
    ensures
        editor_creation_ensures(r, draft, tag_names),
{
    let editor = create_task_editor_with_services(service, projects, draft, tag_names)?;
    request_reminder_rescan(rescan_requester);
    Ok(editor)
}

/// Creates a task with its tags, asks for a reminder rescan and announces
/// the new task.
pub fn create_task_editor_with_services_and_rescan_and_notify<
    R: TaskRepository + TaskEditorRepository,
    P: ProjectRepository,
    Q: ReminderRescanRequester,
    N: TaskMutationNotifier,
>(
    service: &TaskService<R>,
    projects: &ProjectService<P>,
    rescan_requester: &Q,
    notifier: &N,
    draft: TaskDraft,
    tag_names: Option<Vec<String>>,
) -> (r: Result<TaskEditor, CommandError>)
    ensures
        editor_creation_ensures(r, draft, tag_names),
{
    let editor = create_task_editor_with_services_and_rescan(service, projects, rescan_requester, draft, tag_names)?;
    notify_task_mutation(notifier, &editor.task);
    Ok(editor)
}

/// Changes a task through its editor, then asks for a reminder rescan.
pub fn update_task_editor_with_services_and_rescan<
    R: TaskRepository + TaskEditorRepository,
    P: ProjectRepository,
    Q: ReminderRescanRequester,
>(
    service: &TaskService<R>,
    projects: &ProjectService<P>,
    rescan_requester: &Q,
    id: u128,
    expected_revision: i64,
    patch: TaskPatch,
    tag_names: Option<Vec<String>>,
) -> (r: Result<TaskEditor, CommandError>)
    ensures
        editor_update_ensures(r, id, patch, tag_names),
{
    let editor = update_task_editor_with_services(service, projects, id, expected_revision, patch, tag_names)?;
    request_reminder_rescan(rescan_requester);
    Ok(editor)
}

/// Changes a task through its editor, asks for a reminder rescan and
/// announces the change.
pub fn update_task_editor_with_services_and_rescan_and_notify<
    R: TaskRepository + TaskEditorRepository,
    P: ProjectRepository,
    Q: ReminderRescanRequester,
    N: TaskMutationNotifier,
>(
    service: &TaskService<R>,
    projects: &ProjectService<P>,
    rescan_requester: &Q,
    notifier: &N,
    id: u128,
    expected_revision: i64,
    patch: TaskPatch,
    tag_names: Option<Vec<String>>,
) -> (r: Result<TaskEditor, CommandError>)
    ensures
        editor_update_ensures(r, id, patch, tag_names),
{
    let editor = update_task_editor_with_services_and_rescan(
        service,
        projects,
        rescan_requester,
        id,
        expected_revision,
        patch,
        tag_names,
    )?;
    notify_task_mutation(notifier, &editor.task);
    Ok(editor)
}

/// Creates a subtask, then asks for a reminder rescan.
pub fn create_subtask_with_service_and_rescan<R: TaskRepository + SubtaskRepository, Q: ReminderRescanRequester>(
    service: &TaskService<R>,
    rescan_requester: &Q,
    parent_id: u128,
    title: &str,
) -> (r: Result<Task, CommandError>)
    ensures
        r matches Ok(t) ==> t.parent_id == Some(parent_id) && t.title@ == crate::text::trimmed(title@)
            && t.completed_at is None && t.recurrence is None && t.revision == 1,
{
    let task = create_subtask_with_service(service, parent_id, title)?;
    request_reminder_rescan(rescan_requester);
    Ok(task)
}

/// Creates a subtask, asks for a reminder rescan and announces the new
/// subtask.
pub fn create_subtask_with_service_and_rescan_and_notify<
    R: TaskRepository + SubtaskRepository,
    Q: ReminderRescanRequester,
    N: TaskMutationNotifier,
>(service: &TaskService<R>, rescan_requester: &Q, notifier: &N, parent_id: u128, title: &str) -> (r: Result<
    Task,
    CommandError,
>)
    ensures
        r matches Ok(t) ==> t.parent_id == Some(parent_id) && t.title@ == crate::text::trimmed(title@)
            && t.completed_at is None && t.recurrence is None && t.revision == 1,
{
    let task = create_subtask_with_service_and_rescan(service, rescan_requester, parent_id, title)?;
    notify_task_mutation(notifier, &task);
    Ok(task)
}

} // verus!
