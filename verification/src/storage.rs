//! The parts of storage that are the domain's own: how values are written
//! to the database, how its errors are reported, and the full-text query of
//! a search.
use vstd::prelude::*;
use vstd::string::StringExecFns;

use crate::error::{fails_with, AppError, AppErrorKind};
use crate::ports::SubtaskInsertOutcome;
use crate::recurrence::str_equals;
use crate::calendar::{instant_parts, parse_instant, parsed_instant, UtcDateTime};
use crate::ids::{hyphenated, id_text, parse_id, parsed_id};
use crate::project::Project;
use crate::recurrence::RecurrenceRule;
use crate::task::{Priority, ReminderClaimStateUpdate, Task};
use crate::task_service::{already_completed_error, concurrent_task_update_error};
use crate::text::{is_whitespace, whitespace};

verus! {

pub const STORAGE_ERROR_CODE: &'static str = "storage.unavailable";

pub const STORAGE_ERROR_KEY: &'static str = "errors.storage.unavailable";

pub fn storage_error() -> (r: AppError)
    ensures
        r.has(STORAGE_ERROR_CODE, STORAGE_ERROR_KEY, AppErrorKind::Storage),
{
    AppError::new(STORAGE_ERROR_CODE, STORAGE_ERROR_KEY, AppErrorKind::Storage)
}

/// The error of a failed write of a project: a broken uniqueness constraint
/// is a duplicate name, anything else a storage failure.
pub fn project_storage_error(is_constraint_violation: bool) -> (r: AppError)
    ensures
        is_constraint_violation ==> r.has("project.name.duplicate", "errors.project.name.duplicate", AppErrorKind::Conflict),
        !is_constraint_violation ==> r.has(STORAGE_ERROR_CODE, STORAGE_ERROR_KEY, AppErrorKind::Storage),
{
    if is_constraint_violation {
        return AppError::new("project.name.duplicate", "errors.project.name.duplicate", AppErrorKind::Conflict);
    }
    storage_error()
}

pub open spec fn priority_name(priority: Priority) -> Seq<char> {
    match priority {
        Priority::Low => "low"@,
        Priority::Normal => "normal"@,
        Priority::High => "high"@,
    }
}

/// The stored name of a priority.
pub fn priority_to_database(priority: &Priority) -> (r: &'static str)
    ensures
        r@ == priority_name(*priority),
{
    match priority {
        Priority::Low => "low",
        Priority::Normal => "normal",
        Priority::High => "high",
    }
}

/// The priority of a stored name, if it names one.
pub fn parse_priority(value: &str) -> (r: Option<Priority>)
    ensures
        match r {
            Some(p) => priority_name(p) == value@,
            None => value@ != "low"@ && value@ != "normal"@ && value@ != "high"@,
        },
{
    if str_equals(value, "low") {
        Some(Priority::Low)
    } else if str_equals(value, "normal") {
        Some(Priority::Normal)
    } else if str_equals(value, "high") {
        Some(Priority::High)
    } else {
        None
    }
}

/// The index of the last white space of a text, or -1.
pub open spec fn last_space(s: Seq<char>) -> int
    decreases s.len(),
{
    if s.len() == 0 {
        -1
    } else if whitespace(s.last()) {
        s.len() - 1
    } else {
        last_space(s.drop_last())
    }
}

pub proof fn lemma_last_space(s: Seq<char>)
    ensures
        -1 <= last_space(s) < s.len(),
        s.len() > 0 && !whitespace(s.last()) ==> last_space(s) < s.len() - 1,
        last_space(s) >= 0 ==> whitespace(s[last_space(s)]),
        forall|i: int| last_space(s) < i < s.len() ==> !whitespace(s[i]),
    decreases s.len(),
{
    if s.len() > 0 && !whitespace(s.last()) {
        lemma_last_space(s.drop_last());
        assert forall|i: int| last_space(s) < i < s.len() implies !whitespace(s[i]) by {
            if i < s.len() - 1 {
                assert(s.drop_last()[i] == s[i]);
            }
        }
    }
}

/// The words of a text: its maximal runs of characters that are not white space.
pub open spec fn words(s: Seq<char>) -> Seq<Seq<char>>
    decreases s.len(),
{
    if s.len() == 0 {
        Seq::empty()
    } else if whitespace(s.last()) {
        words(s.drop_last())
    } else {
        let k = last_space(s);
        proof {
            lemma_last_space(s);
        }
        if k < 0 {
            seq![s]
        } else {
            words(s.subrange(0, k)).push(s.subrange(k + 1, s.len() as int))
        }
    }
}

/// A word with each double quote doubled.
pub open spec fn escape_quotes(w: Seq<char>) -> Seq<char>
    decreases w.len(),
{
    if w.len() == 0 {
        Seq::empty()
    } else {
        escape_quotes(w.drop_last()) + if w.last() == '"' {
            seq!['"', '"']
        } else {
            seq![w.last()]
        }
    }
}

/// The words as quoted phrases joined by ` AND `.
pub open spec fn phrase_query(ws: Seq<Seq<char>>) -> Seq<char>
    decreases ws.len(),
{
    if ws.len() == 0 {
        Seq::empty()
    } else {
        let phrase = seq!['"'] + escape_quotes(ws.last()) + seq!['"'];
        if ws.len() == 1 {
            phrase
        } else {
            phrase_query(ws.drop_last()) + " AND "@ + phrase
        }
    }
}

fn split_words(s: &str) -> (r: Vec<String>)
    ensures
        r@.len() == words(s@).len(),
        forall|i: int| 0 <= i < r@.len() ==> #[trigger] r@[i]@ == words(s@)[i],
    decreases s@.len(),
{
    let n = s.unicode_len();
    if n == 0 {
        return Vec::new();
    }
    if is_whitespace(s.get_char(n - 1)) {
        proof {
            assert(s@.subrange(0, n - 1) =~= s@.drop_last());
        }
        return split_words(s.substring_char(0, n - 1));
    }
    let mut k = n;
    while k > 0 && !is_whitespace(s.get_char(k - 1))
        invariant
            k <= n,
            n == s@.len(),
            forall|i: int| k <= i < n ==> !whitespace(s@[i]),
        decreases k,
    {
        k = k - 1;
    }
    proof {
        lemma_last_space(s@);
        let ls = last_space(s@);
        if ls > k - 1 {
            assert(whitespace(s@[ls]));
        }
        if ls < k - 1 {
            assert(whitespace(s@[k - 1]));
        }
        assert(ls == k - 1);
    }
    if k == 0 {
        let mut v: Vec<String> = Vec::new();
        v.push(s.to_owned());
        return v;
    }
    let mut v = split_words(s.substring_char(0, k - 1));
    v.push(s.substring_char(k, n).to_owned());
    v
}

fn quoted_phrase(word: &str) -> (r: String)
    ensures
        r@ == seq!['"'] + escape_quotes(word@) + seq!['"'],
{
    let mut out = String::from_str("\"");
    let n = word.unicode_len();
    let mut i: usize = 0;
    proof {
        reveal_strlit("\"");
        assert(word@.subrange(0, 0).len() == 0);
    }
    while i < n
        invariant
            n == word@.len(),
            i <= n,
            out@ == seq!['"'] + escape_quotes(word@.subrange(0, i as int)),
        decreases n - i,
    {
        let c = word.get_char(i);
        proof {
            let pre = word@.subrange(0, i + 1);
            assert(pre.drop_last() =~= word@.subrange(0, i as int));
            assert(pre.last() == c);
        }
        if c == '"' {
            out.append("\"\"");
            proof {
                reveal_strlit("\"\"");
            }
        } else {
            out.append(word.substring_char(i, i + 1));
        }
        proof {
            assert(out@ =~= seq!['"'] + escape_quotes(word@.subrange(0, i + 1)));
        }
        i = i + 1;
    }
    out.append("\"");
    proof {
        assert(word@.subrange(0, n as int) =~= word@);
    }
    out
}

/// The full-text query of a search: each word as a quoted phrase, all of
/// them required.
pub fn fts_phrase_query(text: &str) -> (r: String)
    ensures
        r@ == phrase_query(words(text@)),
{
    let ws = split_words(text);
    let ghost all = words(text@);
    let mut out = String::new();
    let mut i: usize = 0;
    proof {
        assert(all.take(0) =~= Seq::<Seq<char>>::empty());
    }
    while i < ws.len()
        invariant
            ws@.len() == all.len(),
            forall|j: int| 0 <= j < ws@.len() ==> #[trigger] ws@[j]@ == all[j],
            i <= all.len(),
            out@ == phrase_query(all.take(i as int)),
        decreases all.len() - i,
    {
        proof {
            assert(all.take(i + 1).drop_last() =~= all.take(i as int));
            assert(all.take(i + 1).last() == all[i as int]);
        }
        if i > 0 {
            out.append(" AND ");
        }
        let phrase = quoted_phrase(ws[i].as_str());
        out.append(phrase.as_str());
        proof {
            assert(out@ =~= phrase_query(all.take(i + 1)));
        }
        i = i + 1;
    }
    proof {
        assert(all.take(all.len() as int) =~= all);
    }
    out
}

/// Why a guarded insert of a subtask inserted nothing, judged by the parent
/// as it is stored now: it is gone, it is a subtask itself, or its revision
/// or project moved on since the snapshot. A parent that still matches the
/// snapshot would have let the insert through, so that case is a storage
/// failure.
pub fn subtask_insert_failure(stored_parent: Option<&Task>, parent_snapshot: &Task) -> (r: Result<
    SubtaskInsertOutcome,
    AppError,
>)
    ensures
        stored_parent is None ==> r == Ok::<SubtaskInsertOutcome, AppError>(SubtaskInsertOutcome::ParentMissing),
        stored_parent matches Some(p) && p.parent_id is Some ==> r == Ok::<SubtaskInsertOutcome, AppError>(
            SubtaskInsertOutcome::ParentNested,
        ),
        stored_parent matches Some(p) && p.parent_id is None && (p.revision != parent_snapshot.revision
            || p.project_id != parent_snapshot.project_id) ==> r == Ok::<SubtaskInsertOutcome, AppError>(
            SubtaskInsertOutcome::ParentChanged,
        ),
        stored_parent matches Some(p) && p.parent_id is None && p.revision == parent_snapshot.revision
            && p.project_id == parent_snapshot.project_id ==> fails_with(
            r,
            STORAGE_ERROR_CODE,
            STORAGE_ERROR_KEY,
            AppErrorKind::Storage,
        ),
{
    match stored_parent {
        None => Ok(SubtaskInsertOutcome::ParentMissing),
        Some(parent) => {
            if parent.parent_id.is_some() {
                Ok(SubtaskInsertOutcome::ParentNested)
            } else if parent.revision != parent_snapshot.revision || !same_id(
                parent.project_id,
                parent_snapshot.project_id,
            ) {
                Ok(SubtaskInsertOutcome::ParentChanged)
            } else {
                Err(storage_error())
            }
        },
    }
}

fn same_id(a: Option<u128>, b: Option<u128>) -> (r: bool)
    ensures
        r == (a == b),
{
    match (a, b) {
        (Some(x), Some(y)) => x == y,
        (None, None) => true,
        _ => false,
    }
}

/// The error of a completion that changed no row, by what the row holds
/// now: `Some(true)` where the task is completed already, `Some(false)`
/// where it is open but at another revision, `None` where it is gone.
pub fn completion_conflict_error(stored_completed: Option<bool>) -> (r: AppError)
    ensures
        stored_completed == Some(true) ==> r.has(
            "task.already_completed",
            "errors.task.already_completed",
            AppErrorKind::Conflict,
        ),
        stored_completed != Some(true) ==> r.has(
            "task.concurrent_update",
            "errors.task.concurrent_update",
            AppErrorKind::Conflict,
        ),
{
    match stored_completed {
        Some(true) => already_completed_error(),
        _ => concurrent_task_update_error(),
    }
}

/// The two flags of an update's reminder clause: clear the claim state in
/// any case, and clear it only where the stored schedule differs from the
/// new one.
pub fn reminder_claim_flags(update: ReminderClaimStateUpdate) -> (r: (bool, bool))
    ensures
        update == ReminderClaimStateUpdate::Preserve ==> r == (false, false),
        update == ReminderClaimStateUpdate::Clear ==> r == (true, false),
        update == ReminderClaimStateUpdate::ClearIfStoredScheduleDiffers ==> r == (false, true),
{
    match update {
        ReminderClaimStateUpdate::Preserve => (false, false),
        ReminderClaimStateUpdate::Clear => (true, false),
        ReminderClaimStateUpdate::ClearIfStoredScheduleDiffers => (false, true),
    }
}

/// A direct subtask as it follows its parent into the parent's project:
/// with the parent's project, the parent's change time and its own revision
/// advanced by one; `None` where it is in that project already.
pub fn reassigned_subtask(subtask: &Task, parent: &Task) -> (r: Result<Option<Task>, AppError>)
    ensures
        subtask.project_id == parent.project_id ==> r == Ok::<Option<Task>, AppError>(None),
        subtask.project_id != parent.project_id && subtask.revision < i64::MAX ==> r == Ok::<
            Option<Task>,
            AppError,
        >(
            Some(
                Task {
                    project_id: parent.project_id,
                    updated_at: parent.updated_at,
                    revision: (subtask.revision + 1) as i64,
                    ..*subtask
                },
            ),
        ),
        subtask.project_id != parent.project_id && subtask.revision == i64::MAX ==> fails_with(
            r,
            "task.revision.overflow",
            "errors.task.revision.overflow",
            AppErrorKind::Conflict,
        ),
{
    if same_id(subtask.project_id, parent.project_id) {
        return Ok(None);
    }
    let mut moved = subtask.clone();
    moved.project_id = parent.project_id;
    moved.updated_at = parent.updated_at;
    match moved.increment_revision() {
        Ok(()) => Ok(Some(moved)),
        Err(error) => Err(error),
    }
}

/// The text of an identifier as it is stored.
pub fn id_to_text(id: u128) -> (r: String)
    ensures
        r@ == hyphenated(id),
{
    id_text(id)
}

/// The identifier that a stored text holds, if it holds one.
pub fn id_from_text(text: &str) -> (r: Option<u128>)
    ensures
        r == parsed_id(text@),
{
    parse_id(text)
}

/// The text reads as an identifier, or there is none.
pub open spec fn optional_id_readable(text: Option<String>) -> bool {
    text matches Some(s) ==> parsed_id(s@) is Some
}

/// The identifier that an optional stored text holds.
pub open spec fn reads_optional_id(text: Option<String>, value: Option<u128>) -> bool {
    match text {
        None => value is None,
        Some(s) => value is Some && parsed_id(s@) == value,
    }
}

/// The text reads as an instant, or there is none.
pub open spec fn optional_instant_readable(text: Option<String>) -> bool {
    text matches Some(s) ==> parsed_instant(s@) is Some
}

/// The instant that an optional stored text holds.
pub open spec fn reads_optional_instant(text: Option<String>, value: Option<UtcDateTime>) -> bool {
    match text {
        None => value is None,
        Some(s) => value matches Some(t) && parsed_instant(s@) == Some(instant_parts(t)) && t.wf(),
    }
}

/// The instant that a stored text holds; a text that is none is a storage failure.
pub fn read_instant(text: &str) -> (r: Result<UtcDateTime, AppError>)
    ensures
        match r {
            Ok(t) => t.wf() && parsed_instant(text@) == Some(instant_parts(t)),
            Err(e) => parsed_instant(text@) is None && e.has(STORAGE_ERROR_CODE, STORAGE_ERROR_KEY, AppErrorKind::Storage),
        },
{
    match parse_instant(text) {
        Some(t) => Ok(t),
        None => Err(storage_error()),
    }
}

/// The optional instant that a stored text holds.
pub fn read_optional_instant(text: &Option<String>) -> (r: Result<Option<UtcDateTime>, AppError>)
    ensures
        r is Ok <==> optional_instant_readable(*text),
        r matches Ok(v) ==> reads_optional_instant(*text, v),
        r matches Err(e) ==> e.has(STORAGE_ERROR_CODE, STORAGE_ERROR_KEY, AppErrorKind::Storage),
{
    match text {
        Some(s) => match read_instant(s.as_str()) {
            Ok(t) => Ok(Some(t)),
            Err(e) => Err(e),
        },
        None => Ok(None),
    }
}

/// The identifier that a stored text holds; a text that is none is a storage failure.
pub fn read_id(text: &str) -> (r: Result<u128, AppError>)
    ensures
        match r {
            Ok(id) => parsed_id(text@) == Some(id),
            Err(e) => parsed_id(text@) is None && e.has(STORAGE_ERROR_CODE, STORAGE_ERROR_KEY, AppErrorKind::Storage),
        },
{
    match parse_id(text) {
        Some(id) => Ok(id),
        None => Err(storage_error()),
    }
}

/// The optional identifier that a stored text holds.
pub fn read_optional_id(text: &Option<String>) -> (r: Result<Option<u128>, AppError>)
    ensures
        r is Ok <==> optional_id_readable(*text),
        r matches Ok(v) ==> reads_optional_id(*text, v),
        r matches Err(e) ==> e.has(STORAGE_ERROR_CODE, STORAGE_ERROR_KEY, AppErrorKind::Storage),
{
    match text {
        Some(s) => match read_id(s.as_str()) {
            Ok(id) => Ok(Some(id)),
            Err(e) => Err(e),
        },
        None => Ok(None),
    }
}

/// A stored task as its columns hold it, with its recurrence rule already read.
#[derive(Debug)]
pub struct StoredTaskText {
    pub id: String,
    pub title: String,
    pub note: String,
    pub project_id: Option<String>,
    pub parent_id: Option<String>,
    pub priority: String,
    pub scheduled_at: Option<String>,
    pub due_at: Option<String>,
    pub completed_at: Option<String>,
    pub recurrence: Option<RecurrenceRule>,
    pub reminder_sent_at: Option<String>,
    pub instance_number: u32,
    pub monthly_anchor_day: Option<u8>,
    pub created_at: String,
    pub updated_at: String,
    pub revision: i64,
}

/// Every column of a stored task reads as its value.
pub open spec fn stored_task_readable(row: StoredTaskText) -> bool {
    &&& parsed_id(row.id@) is Some
    &&& optional_id_readable(row.project_id)
    &&& optional_id_readable(row.parent_id)
    &&& exists|p: Priority| priority_name(p) == row.priority@
    &&& optional_instant_readable(row.scheduled_at)
    &&& optional_instant_readable(row.due_at)
    &&& optional_instant_readable(row.completed_at)
    &&& optional_instant_readable(row.reminder_sent_at)
    &&& parsed_instant(row.created_at@) is Some
    &&& parsed_instant(row.updated_at@) is Some
}

/// The task holds what the columns of the stored task say.
pub open spec fn is_stored_task(task: Task, row: StoredTaskText) -> bool {
    &&& parsed_id(row.id@) == Some(task.id)
    &&& task.title@ == row.title@
    &&& task.note@ == row.note@
    &&& reads_optional_id(row.project_id, task.project_id)
    &&& reads_optional_id(row.parent_id, task.parent_id)
    &&& priority_name(task.priority) == row.priority@
    &&& reads_optional_instant(row.scheduled_at, task.scheduled_at)
    &&& reads_optional_instant(row.due_at, task.due_at)
    &&& reads_optional_instant(row.completed_at, task.completed_at)
    &&& reads_optional_instant(row.reminder_sent_at, task.reminder_sent_at)
    &&& task.recurrence == row.recurrence
    &&& task.instance_number == row.instance_number
    &&& task.monthly_anchor_day == row.monthly_anchor_day
    &&& parsed_instant(row.created_at@) == Some(instant_parts(task.created_at))
    &&& parsed_instant(row.updated_at@) == Some(instant_parts(task.updated_at))
    &&& task.revision == row.revision
    &&& task.wf()
}

fn read_priority(text: &str) -> (r: Result<Priority, AppError>)
    ensures
        r is Ok <==> exists|p: Priority| priority_name(p) == text@,
        r matches Ok(p) ==> priority_name(p) == text@,
        r matches Err(e) ==> e.has(STORAGE_ERROR_CODE, STORAGE_ERROR_KEY, AppErrorKind::Storage),
{
    match parse_priority(text) {
        Some(p) => Ok(p),
        None => {
            assert forall|p: Priority| priority_name(p) != text@ by {
                match p {
                    Priority::Low => {},
                    Priority::Normal => {},
                    Priority::High => {},
                }
            }
            Err(storage_error())
        },
    }
}

/// The task that a stored row holds; a column that does not read as its
/// value is a storage failure.
pub fn task_from_stored(row: &StoredTaskText) -> (r: Result<Task, AppError>)
    ensures
        r is Ok <==> stored_task_readable(*row),
        r matches Ok(t) ==> is_stored_task(t, *row),
        r matches Err(e) ==> e.has(STORAGE_ERROR_CODE, STORAGE_ERROR_KEY, AppErrorKind::Storage),
{
    let id = read_id(row.id.as_str())?;
    let project_id = read_optional_id(&row.project_id)?;
    let parent_id = read_optional_id(&row.parent_id)?;
    let priority = read_priority(row.priority.as_str())?;
    let scheduled_at = read_optional_instant(&row.scheduled_at)?;
    let due_at = read_optional_instant(&row.due_at)?;
    let completed_at = read_optional_instant(&row.completed_at)?;
    let reminder_sent_at = read_optional_instant(&row.reminder_sent_at)?;
    let created_at = read_instant(row.created_at.as_str())?;
    let updated_at = read_instant(row.updated_at.as_str())?;
    Ok(
        Task {
            id,
            title: row.title.clone(),
            note: row.note.clone(),
            project_id,
            parent_id,
            priority,
            scheduled_at,
            due_at,
            completed_at,
            reminder_sent_at,
            recurrence: row.recurrence,
            instance_number: row.instance_number,
            monthly_anchor_day: row.monthly_anchor_day,
            created_at,
            updated_at,
            revision: row.revision,
        },
    )
}

/// A stored project as its columns hold it.
#[derive(Debug)]
pub struct StoredProjectText {
    pub id: String,
    pub name: String,
    pub archived_at: Option<String>,
    pub created_at: String,
    pub updated_at: String,
}

/// The project that a stored row holds; a column that does not read as its
/// value is a storage failure.
pub fn project_from_stored(row: &StoredProjectText) -> (r: Result<Project, AppError>)
    ensures
        r is Ok <==> (parsed_id(row.id@) is Some && optional_instant_readable(row.archived_at) && parsed_instant(
            row.created_at@,
        ) is Some && parsed_instant(row.updated_at@) is Some),
        r matches Ok(p) ==> parsed_id(row.id@) == Some(p.id) && p.name@ == row.name@ && reads_optional_instant(
            row.archived_at,
            p.archived_at,
        ) && parsed_instant(row.created_at@) == Some(instant_parts(p.created_at)) && parsed_instant(
            row.updated_at@,
        ) == Some(instant_parts(p.updated_at)),
        r matches Err(e) ==> e.has(STORAGE_ERROR_CODE, STORAGE_ERROR_KEY, AppErrorKind::Storage),
{
    let id = read_id(row.id.as_str())?;
    let archived_at = read_optional_instant(&row.archived_at)?;
    let created_at = read_instant(row.created_at.as_str())?;
    let updated_at = read_instant(row.updated_at.as_str())?;
    Ok(Project { id, name: row.name.clone(), archived_at, created_at, updated_at })
}

} // verus!
