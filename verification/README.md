# todo_app

The domain core of TaskDock, a desktop task manager, written in Verus: tasks
and their recurrence, projects and tags, reminders, and synchronisation of
encrypted snapshots over WebDAV. The rules of the domain are stated as
contracts on the library's functions and proved by Verus.

The stores, the credential store, the notifier and the windows are ports that
the application implements. Where a function of the library makes several
calls on them, it hands back, beside its result, a ghost record of the calls
it made and what each returned, and its contract gives the result in terms
of that record.

## Layout

- `src/` — the verified library.
  - `task`, `task_service`, `task_commands`, `task_query`: tasks, their
    drafts and patches, the service over a task store, and the checks and
    errors of the task commands.
  - `recurrence`: recurrence rules and the next instance of a completed task.
  - `project`, `project_commands`: projects and their commands.
  - `reminders`: the reminder scheduler, its claims and their lease, and a
    run of the scheduler as a state machine whose outside work the run performs.
  - `sync`, `sync_merge`, `sync_resolve`: synchronised entities, the
    three-way merge of snapshots and the settling of conflicts.
  - `sync_service`, `sync_run`, `sync_commands`: configuration and state of
    synchronisation, a run as a state machine whose outside work the caller
    performs, and the synchronisation commands.
  - `sync_crypto`: the encrypted snapshot envelope (Argon2id, AES-256-GCM,
    base64).
  - `webdav`: remote paths and the meaning of the server's answers.
  - `storage`: what the store decides (stored names, search queries, the
    errors and outcomes of guarded writes) and how stored rows read as tasks
    and projects.
  - `quick_panel`, `main_window`, `notification`: the quick panel's
    whole-pixel placement and the moves it makes itself, restoring the main
    window, and notifications.
  - `calendar`, `ids`, `text`, `error`: calendar values, identifiers, text
    trimming and the application error.
  - `laws`: properties that span several operations.
- `tests/` — tests of the library, with in-memory stores.
- `app/` — the application around the library: the SQLite store, the WebDAV
  client, the JSON forms of the library's values, the reminder and
  synchronisation workers and
  the quick panel's scaled geometry.
