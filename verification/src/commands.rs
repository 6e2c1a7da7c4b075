//! The checks and conversions of the application's commands: errors as the
//! interface reports them, task views, tag names, calendar months and the
//! synchronisation settings.
use vstd::prelude::*;

use crate::calendar::CivilDate;
use crate::error::AppError;
use crate::ids::{parse_id, parsed_id};
use crate::ports::ProjectRepository;
use crate::project::ProjectService;
use crate::recurrence::str_equals;
use crate::sync::SyncEntityKind;
use crate::sync_merge::{has_name, insert_name, names_sorted};
use crate::sync_service::{SyncConfig, SyncFrequency, SyncStrategy};
use crate::task::{Task, TaskPatch};
use crate::task_query::TaskView;
use crate::text::{char_count, trim_text, trimmed};

verus! {

/// An error as a task or project command reports it.
#[derive(Clone, Debug, PartialEq, Eq)]
pub struct CommandError {
    pub code: String,
    pub message_key: String,
}

impl CommandError {
    pub open spec fn is(self, code: Seq<char>, message_key: Seq<char>) -> bool {
        self.code@ == code && self.message_key@ == message_key
    }

    fn of(code: &str, message_key: &str) -> (r: Self)
        ensures
            r.is(code@, message_key@),
    {
        CommandError { code: code.to_owned(), message_key: message_key.to_owned() }
    }

    /// The command error of an application error: its code and message key.
    pub fn from_error(error: AppError) -> (r: Self)
        ensures
            r.is(error.code@, error.translation_key@),
    {
        Self::of(error.code(), error.translation_key())
    }

    pub fn invalid_task_input() -> (r: Self)
        ensures
            r.is("task.input.invalid"@, "errors.task.input.invalid"@),
    {
        Self::of("task.input.invalid", "errors.task.input.invalid")
    }

    pub fn invalid_task_id() -> (r: Self)
        ensures
            r.is("task.id.invalid"@, "errors.task.id.invalid"@),
    {
        Self::of("task.id.invalid", "errors.task.id.invalid")
    }

    pub fn task_not_found() -> (r: Self)
        ensures
            r.is("task.not_found"@, "errors.task.not_found"@),
    {
        Self::of("task.not_found", "errors.task.not_found")
    }

    pub fn invalid_tag_name() -> (r: Self)
        ensures
            r.is("task.tag.invalid"@, "errors.task.tag.invalid"@),
    {
        Self::of("task.tag.invalid", "errors.task.tag.invalid")
    }

    pub fn parent_write_unsupported() -> (r: Self)
        ensures
            r.is("task.parent.write.unsupported"@, "errors.task.parent.write.unsupported"@),
    {
        Self::of("task.parent.write.unsupported", "errors.task.parent.write.unsupported")
    }

    pub fn invalid_project_input() -> (r: Self)
        ensures
            r.is("project.input.invalid"@, "errors.project.input.invalid"@),
    {
        Self::of("project.input.invalid", "errors.project.input.invalid")
    }
}

/// An error as a synchronisation command reports it.
#[derive(Clone, Debug, PartialEq, Eq)]
pub struct SyncCommandError {
    pub code: String,
    pub message_key: String,
}

impl SyncCommandError {
    pub open spec fn is(self, code: Seq<char>, message_key: Seq<char>) -> bool {
        self.code@ == code && self.message_key@ == message_key
    }

    pub fn from_error(error: AppError) -> (r: Self)
        ensures
            r.is(error.code@, error.translation_key@),
    {
        SyncCommandError { code: error.code().to_owned(), message_key: error.translation_key().to_owned() }
    }

    pub fn invalid_input() -> (r: Self)
        ensures
            r.is("sync.input.invalid"@, "errors.sync.input.invalid"@),
    {
        SyncCommandError {
            code: "sync.input.invalid".to_owned(),
            message_key: "errors.sync.input.invalid".to_owned(),
        }
    }

    pub fn configuration_missing() -> (r: Self)
        ensures
            r.is("sync.configuration.missing"@, "errors.sync.configuration.missing"@),
    {
        SyncCommandError {
            code: "sync.configuration.missing".to_owned(),
            message_key: "errors.sync.configuration.missing".to_owned(),
        }
    }
}

pub open spec fn is_sync_input_error<T>(r: Result<T, SyncCommandError>) -> bool {
    r matches Err(e) && e.is("sync.input.invalid"@, "errors.sync.input.invalid"@)
}

/// What the connection test is given.
#[derive(Clone, Debug)]
pub struct TestSyncConnectionInput {
    pub endpoint: String,
    pub remote_directory: String,
    pub username: String,
    pub webdav_password: String,
}

/// What saving the synchronisation settings is given.
#[derive(Clone, Debug)]
pub struct SaveSyncConfigInput {
    pub endpoint: String,
    pub remote_directory: String,
    pub username: String,
    pub webdav_password: String,
    pub encryption_passphrase: String,
    pub encryption_enabled: bool,
    pub paused: bool,
}

/// The trimmed endpoint, directory and user are all present.
pub open spec fn connection_fields_present(endpoint: Seq<char>, directory: Seq<char>, username: Seq<char>) -> bool {
    trimmed(endpoint).len() > 0 && trimmed(directory).len() > 0 && trimmed(username).len() > 0
}

/// The configuration that a connection test uses, with the password; the
/// endpoint, directory and user are trimmed and none of them, nor the
/// password, may be empty.
pub fn normalize_test_connection_input(input: TestSyncConnectionInput) -> (r: Result<
    (SyncConfig, String),
    SyncCommandError,
>)
    ensures
        r is Ok <==> connection_fields_present(input.endpoint@, input.remote_directory@, input.username@)
            && input.webdav_password@.len() > 0,
        r is Err ==> is_sync_input_error(r),
        r matches Ok((config, password)) ==> {
            &&& config.endpoint@ == trimmed(input.endpoint@)
            &&& config.remote_directory@ == trimmed(input.remote_directory@)
            &&& config.username@ == trimmed(input.username@)
            &&& !config.encryption_enabled
            &&& !config.paused
            &&& config.strategy == SyncStrategy::SmartMerge
            &&& config.frequency == SyncFrequency::FiveMinutes
            &&& password@ == input.webdav_password@
        },
{
    let endpoint = trim_text(input.endpoint.as_str());
    let remote_directory = trim_text(input.remote_directory.as_str());
    let username = trim_text(input.username.as_str());
    if char_count(endpoint.as_str()) == 0 || char_count(remote_directory.as_str()) == 0 || char_count(
        username.as_str(),
    ) == 0 {
        return Err(SyncCommandError::invalid_input());
    }
    if char_count(input.webdav_password.as_str()) == 0 {
        return Err(SyncCommandError::invalid_input());
    }
    Ok(
        (
            SyncConfig {
                endpoint,
                remote_directory,
                username,
                encryption_enabled: false,
                paused: false,
                strategy: SyncStrategy::SmartMerge,
                frequency: SyncFrequency::FiveMinutes,
            },
            input.webdav_password,
        ),
    )
}

/// The settings are complete: the trimmed fields and the password are
/// present, and so is the passphrase where encryption is on.
pub open spec fn sync_input_complete(input: SaveSyncConfigInput) -> bool {
    &&& connection_fields_present(input.endpoint@, input.remote_directory@, input.username@)
    &&& input.webdav_password@.len() > 0
    &&& input.encryption_enabled ==> input.encryption_passphrase@.len() > 0
}

/// The configuration made of the settings: their trimmed fields, the flags
/// as given, and the strategy and frequency to run with.
pub open spec fn is_config_for(
    config: SyncConfig,
    input: SaveSyncConfigInput,
    strategy: SyncStrategy,
    frequency: SyncFrequency,
) -> bool {
    &&& config.endpoint@ == trimmed(input.endpoint@)
    &&& config.remote_directory@ == trimmed(input.remote_directory@)
    &&& config.username@ == trimmed(input.username@)
    &&& config.encryption_enabled == input.encryption_enabled
    &&& config.paused == input.paused
    &&& config.strategy == strategy
    &&& config.frequency == frequency
}

/// The configuration that saving the settings stores, from trimmed fields;
/// incomplete settings are refused before anything is stored.
pub fn sync_config_from_input(input: &SaveSyncConfigInput, strategy: SyncStrategy, frequency: SyncFrequency) -> (r:
    Result<SyncConfig, SyncCommandError>)
    ensures
        r is Ok <==> sync_input_complete(*input),
        r is Err ==> is_sync_input_error(r),
        r matches Ok(config) ==> is_config_for(config, *input, strategy, frequency),
{
    let endpoint = trim_text(input.endpoint.as_str());
    let remote_directory = trim_text(input.remote_directory.as_str());
    let username = trim_text(input.username.as_str());
    if char_count(endpoint.as_str()) == 0 || char_count(remote_directory.as_str()) == 0 || char_count(
        username.as_str(),
    ) == 0 || char_count(input.webdav_password.as_str()) == 0 || (input.encryption_enabled && char_count(
        input.encryption_passphrase.as_str(),
    ) == 0) {
        return Err(SyncCommandError::invalid_input());
    }
    Ok(
        SyncConfig {
            endpoint,
            remote_directory,
            username,
            encryption_enabled: input.encryption_enabled,
            paused: input.paused,
            strategy,
            frequency,
        },
    )
}

/// The kind of an entity from its name in the interface.
pub fn parse_entity_kind(value: &str) -> (r: Result<SyncEntityKind, SyncCommandError>)
    ensures
        value@ == "task"@ ==> r == Ok::<SyncEntityKind, SyncCommandError>(SyncEntityKind::Task),
        value@ == "project"@ ==> r == Ok::<SyncEntityKind, SyncCommandError>(SyncEntityKind::Project),
        value@ == "tag"@ ==> r == Ok::<SyncEntityKind, SyncCommandError>(SyncEntityKind::Tag),
        value@ != "task"@ && value@ != "project"@ && value@ != "tag"@ ==> is_sync_input_error(r),
{
    proof {
        reveal_strlit("task");
        reveal_strlit("project");
        reveal_strlit("tag");
        assert("project"@.len() == 7 && "task"@.len() == 4 && "tag"@.len() == 3);
        assert("tag"@ != "task"@) by {
            assert("tag"@.len() != "task"@.len());
        }
        assert("project"@ != "task"@);
        assert("project"@ != "tag"@);
    }
    if str_equals(value, "task") {
        Ok(SyncEntityKind::Task)
    } else if str_equals(value, "project") {
        Ok(SyncEntityKind::Project)
    } else if str_equals(value, "tag") {
        Ok(SyncEntityKind::Tag)
    } else {
        Err(SyncCommandError::invalid_input())
    }
}

pub open spec fn is_decision_name(decision: Seq<char>) -> bool {
    decision == "keepLocal"@ || decision == "acceptRemote"@ || decision == "createConflictCopy"@
}

/// The decision on a conflict is one that the interface offers.
pub fn validate_decision(decision: &str) -> (r: Result<(), SyncCommandError>)
    ensures
        r is Ok <==> is_decision_name(decision@),
        r is Err ==> is_sync_input_error(r),
{
    if str_equals(decision, "keepLocal") || str_equals(decision, "acceptRemote") || str_equals(
        decision,
        "createConflictCopy",
    ) {
        Ok(())
    } else {
        Err(SyncCommandError::invalid_input())
    }
}

pub open spec fn is_task_input_error<T>(r: Result<T, CommandError>) -> bool {
    r matches Err(e) && e.is("task.input.invalid"@, "errors.task.input.invalid"@)
}

pub open spec fn is_digit(c: char) -> bool {
    '0' <= c <= '9'
}

pub open spec fn digit_value(c: char) -> int {
    c as int - '0' as int
}

/// A month written as four digits of the year, a hyphen and two digits of the month.
pub open spec fn month_text_shape(m: Seq<char>) -> bool {
    &&& m.len() == 7
    &&& m[4] == '-'
    &&& forall|i: int| 0 <= i < 7 && i != 4 ==> is_digit(#[trigger] m[i])
}

pub open spec fn month_text_year(m: Seq<char>) -> int {
    1000 * digit_value(m[0]) + 100 * digit_value(m[1]) + 10 * digit_value(m[2]) + digit_value(m[3])
}

pub open spec fn month_text_month(m: Seq<char>) -> int {
    10 * digit_value(m[5]) + digit_value(m[6])
}

/// The first day of a month written `YYYY-MM`.
pub fn parse_calendar_month(month: &str) -> (r: Result<CivilDate, CommandError>)
    ensures
        r is Ok <==> month_text_shape(month@) && 1 <= month_text_month(month@) <= 12,
        r is Err ==> is_task_input_error(r),
        r matches Ok(d) ==> d.wf() && d@ == (month_text_year(month@), month_text_month(month@), 1int),
{
    if month.unicode_len() != 7 {
        return Err(CommandError::invalid_task_input());
    }
    let mut i: usize = 0;
    while i < 7
        invariant
            month@.len() == 7,
            i <= 7,
            forall|k: int| 0 <= k < i && k != 4 ==> is_digit(#[trigger] month@[k]),
            i > 4 ==> month@[4] == '-',
        decreases 7 - i,
    {
        let c = month.get_char(i);
        if i == 4 {
            if c != '-' {
                return Err(CommandError::invalid_task_input());
            }
        } else if !('0' <= c && c <= '9') {
            proof {
                assert(!is_digit(month@[i as int]));
            }
            return Err(CommandError::invalid_task_input());
        }
        i = i + 1;
    }
    let d0 = (month.get_char(0) as u32 - '0' as u32) as i32;
    let d1 = (month.get_char(1) as u32 - '0' as u32) as i32;
    let d2 = (month.get_char(2) as u32 - '0' as u32) as i32;
    let d3 = (month.get_char(3) as u32 - '0' as u32) as i32;
    let m0 = month.get_char(5) as u32 - '0' as u32;
    let m1 = month.get_char(6) as u32 - '0' as u32;
    proof {
        assert(is_digit(month@[0]) && is_digit(month@[1]) && is_digit(month@[2]) && is_digit(month@[3]));
        assert(is_digit(month@[5]) && is_digit(month@[6]));
    }
    let year: i32 = 1000 * d0 + 100 * d1 + 10 * d2 + d3;
    let calendar_month: u32 = 10 * m0 + m1;
    match CivilDate::from_ymd(year, calendar_month, 1) {
        Some(d) => Ok(d),
        None => Err(CommandError::invalid_task_input()),
    }
}

/// The first day of the month after a month's first day.
pub fn first_of_next_month(start: CivilDate) -> (r: Result<CivilDate, CommandError>)
    requires
        start.wf(),
        0 <= start.year <= 9999,
    ensures
        r matches Ok(d) && d.wf() && d@ == if start.month == 12 {
            (start.year + 1, 1int, 1int)
        } else {
            (start.year as int, start.month + 1, 1int)
        },
{
    let next = if start.month == 12 {
        CivilDate::from_ymd(start.year + 1, 1, 1)
    } else {
        CivilDate::from_ymd(start.year, start.month + 1, 1)
    };
    match next {
        Some(d) => Ok(d),
        None => Err(CommandError::invalid_task_input()),
    }
}

/// A view as the interface asks for it, before it is checked.
#[derive(Clone, Debug)]
pub enum TaskViewRequest {
    Inbox,
    Today,
    QuickPanelToday,
    Upcoming,
    Completed,
    Project { project_id: String },
    Search { query: String },
    Calendar { month: String },
}

/// The view that a request asks for, with `today` as the day of the day views.
pub fn task_view_from_request(request: TaskViewRequest, today: CivilDate) -> (r: Result<TaskView, CommandError>)
    ensures
        r is Err ==> is_task_input_error(r),
        match request {
            TaskViewRequest::Inbox => r matches Ok(TaskView::Inbox),
            TaskViewRequest::Today => r matches Ok(TaskView::Today { day }) && day == today,
            TaskViewRequest::QuickPanelToday => r matches Ok(TaskView::QuickPanelToday { day }) && day == today,
            TaskViewRequest::Upcoming => r matches Ok(TaskView::Upcoming { day }) && day == today,
            TaskViewRequest::Completed => r matches Ok(TaskView::Completed),
            TaskViewRequest::Project { project_id } => match parsed_id(project_id@) {
                Some(id) => r matches Ok(TaskView::Project(p)) && p == id,
                None => r is Err,
            },
            TaskViewRequest::Search { query } => if trimmed(query@).len() > 0 {
                r matches Ok(TaskView::Search(q)) && q@ == trimmed(query@)
            } else {
                r is Err
            },
            TaskViewRequest::Calendar { month } => if month_text_shape(month@) && 1 <= month_text_month(month@)
                <= 12 {
                r matches Ok(TaskView::Calendar { start, end }) && start@ == (
                    month_text_year(month@),
                    month_text_month(month@),
                    1int,
                ) && end@ == if month_text_month(month@) == 12 {
                    (month_text_year(month@) + 1, 1int, 1int)
                } else {
                    (month_text_year(month@), month_text_month(month@) + 1, 1int)
                }
            } else {
                r is Err
            },
        },
{
    match request {
        TaskViewRequest::Inbox => Ok(TaskView::Inbox),
        TaskViewRequest::Today => Ok(TaskView::Today { day: today }),
        TaskViewRequest::QuickPanelToday => Ok(TaskView::QuickPanelToday { day: today }),
        TaskViewRequest::Upcoming => Ok(TaskView::Upcoming { day: today }),
        TaskViewRequest::Completed => Ok(TaskView::Completed),
        TaskViewRequest::Project { project_id } => match parse_id(project_id.as_str()) {
            Some(id) => Ok(TaskView::Project(id)),
            None => Err(CommandError::invalid_task_input()),
        },
        TaskViewRequest::Search { query } => {
            let query = trim_text(query.as_str());
            if char_count(query.as_str()) == 0 {
                return Err(CommandError::invalid_task_input());
            }
            Ok(TaskView::Search(query))
        },
        TaskViewRequest::Calendar { month } => {
            let start = parse_calendar_month(month.as_str())?;
            let end = first_of_next_month(start)?;
            Ok(TaskView::Calendar { start, end })
        },
    }
}

/// The fields that a view of a kind carries besides its kind.
pub open spec fn view_fields(kind: Seq<char>) -> Option<Seq<Seq<char>>> {
    if kind == "inbox"@ || kind == "today"@ || kind == "quickPanelToday"@ || kind == "upcoming"@ || kind
        == "completed"@ {
        Some(seq!["kind"@])
    } else if kind == "project"@ {
        Some(seq!["kind"@, "projectId"@])
    } else if kind == "search"@ {
        Some(seq!["kind"@, "query"@])
    } else if kind == "calendar"@ {
        Some(seq!["kind"@, "month"@])
    } else {
        None
    }
}

fn allowed_view_fields(kind: &str) -> (r: Option<Vec<&'static str>>)
    ensures
        match view_fields(kind@) {
            Some(fields) => (r matches Some(v) && v@.len() == fields.len() && forall|i: int|
                0 <= i < fields.len() ==> #[trigger] v@[i]@ == fields[i]),
            None => r is None,
        },
{
    if str_equals(kind, "inbox") || str_equals(kind, "today") || str_equals(kind, "quickPanelToday")
        || str_equals(kind, "upcoming") || str_equals(kind, "completed") {
        Some(vec!["kind"])
    } else if str_equals(kind, "project") {
        Some(vec!["kind", "projectId"])
    } else if str_equals(kind, "search") {
        Some(vec!["kind", "query"])
    } else if str_equals(kind, "calendar") {
        Some(vec!["kind", "month"])
    } else {
        None
    }
}

pub open spec fn has_key_name(keys: Seq<String>, name: Seq<char>) -> bool {
    exists|i: int| 0 <= i < keys.len() && keys[i]@ == name
}

/// A view object carries exactly the fields of its kind: `kind` names a
/// known kind, and the object has those fields and no others. The object's
/// keys are distinct, as those of a JSON object are.
pub open spec fn view_object_valid(kind: Option<Seq<char>>, keys: Seq<String>) -> bool {
    kind matches Some(k) && view_fields(k) matches Some(fields) && keys.len() == fields.len() && forall|i: int|
        0 <= i < fields.len() ==> has_key_name(keys, #[trigger] fields[i])
}

/// Checks the fields of a view object: `kind` is its `kind` where that is a
/// string, `keys` its keys.
pub fn validate_task_view_fields(kind: Option<&str>, keys: &Vec<String>) -> (r: Result<(), CommandError>)
    ensures
        r is Ok <==> view_object_valid(
            match kind {
                Some(k) => Some(k@),
                None => None,
            },
            keys@,
        ),
        r is Err ==> is_task_input_error(r),
{
    let kind_name = match kind {
        Some(k) => k,
        None => return Err(CommandError::invalid_task_input()),
    };
    let allowed = match allowed_view_fields(kind_name) {
        Some(fields) => fields,
        None => return Err(CommandError::invalid_task_input()),
    };
    let ghost fields = view_fields(kind_name@)->Some_0;
    if keys.len() != allowed.len() {
        return Err(CommandError::invalid_task_input());
    }
    let mut i: usize = 0;
    while i < allowed.len()
        invariant
            kind == Some(kind_name),
            view_fields(kind_name@) == Some(fields),
            keys@.len() == fields.len(),
            allowed@.len() == fields.len(),
            forall|j: int| 0 <= j < fields.len() ==> #[trigger] allowed@[j]@ == fields[j],
            i <= allowed@.len(),
            forall|j: int| 0 <= j < i ==> has_key_name(keys@, #[trigger] fields[j]),
        decreases allowed@.len() - i,
    {
        let field = allowed[i];
        let mut found = false;
        let mut k: usize = 0;
        while k < keys.len()
            invariant
                k <= keys@.len(),
                found ==> has_key_name(keys@, field@),
                !found ==> forall|j: int| 0 <= j < k ==> keys@[j]@ != field@,
            decreases keys@.len() - k,
        {
            if str_equals(keys[k].as_str(), field) {
                found = true;
            }
            k = k + 1;
        }
        if !found {
            proof {
                assert(!has_key_name(keys@, fields[i as int]));
                if view_object_valid(Some(kind_name@), keys@) {
                    assert(has_key_name(keys@, fields[i as int]));
                }
            }
            return Err(CommandError::invalid_task_input());
        }
        i = i + 1;
    }
    Ok(())
}

/// The longest tag name, in characters.
pub const MAX_TAG_NAME_LENGTH: usize = 80;

pub open spec fn tag_name_valid(name: Seq<char>) -> bool {
    trimmed(name).len() > 0 && trimmed(name).len() <= MAX_TAG_NAME_LENGTH
}

pub open spec fn all_tag_names_valid(names: Seq<String>) -> bool {
    forall|i: int| 0 <= i < names.len() ==> tag_name_valid(#[trigger] names[i]@)
}

/// The tag names of a request, trimmed, without repeats and in order; any
/// empty or too long name refuses them all.
pub fn parse_tag_names(names: Option<Vec<String>>) -> (r: Result<Option<Vec<String>>, CommandError>)
    ensures
        names is None ==> r matches Ok(None),
        names matches Some(ns) ==> {
            &&& r is Ok <==> all_tag_names_valid(ns@)
            &&& r is Err ==> (r matches Err(e) && e.is("task.tag.invalid"@, "errors.task.tag.invalid"@))
            &&& r matches Ok(Some(out)) ==> names_sorted(out@) && forall|n: Seq<char>| #[trigger] has_name(out@, n)
                <==> exists|i: int| 0 <= i < ns@.len() && trimmed(ns@[i]@) == n
        },
{
    let list = match names {
        Some(list) => list,
        None => return Ok(None),
    };
    let mut normalized: Vec<String> = Vec::new();
    let mut i: usize = 0;
    while i < list.len()
        invariant
            names == Some(list),
            i <= list@.len(),
            names_sorted(normalized@),
            forall|j: int| 0 <= j < i ==> tag_name_valid(#[trigger] list@[j]@),
            forall|n: Seq<char>| #[trigger] has_name(normalized@, n) <==> exists|j: int| 0 <= j < i && trimmed(list@[j]@) == n,
        decreases list@.len() - i,
    {
        let name = trim_text(list[i].as_str());
        let length = char_count(name.as_str());
        if length == 0 || length > MAX_TAG_NAME_LENGTH {
            proof {
                assert(!tag_name_valid(list@[i as int]@));
                assert(!all_tag_names_valid(list@));
            }
            return Err(CommandError::invalid_tag_name());
        }
        insert_name(&mut normalized, name.as_str());
        proof {
            assert forall|n: Seq<char>| #[trigger] has_name(normalized@, n) <==> exists|j: int| 0 <= j < i + 1 && trimmed(
                list@[j]@,
            ) == n by {
                if n == name@ {
                    assert(0 <= i < i + 1 && trimmed(list@[i as int]@) == n);
                }
                if exists|j: int| 0 <= j < i + 1 && trimmed(list@[j]@) == n {
                    let j = choose|j: int| 0 <= j < i + 1 && trimmed(list@[j]@) == n;
                    if j < i {
                        assert(0 <= j < i && trimmed(list@[j]@) == n);
                    }
                }
            }
        }
        i = i + 1;
    }
    Ok(Some(normalized))
}

/// A patch may move a task to another project only where that project is
/// active; keeping the task's own project needs no check.
pub fn validate_project_patch_against_current_task<P: ProjectRepository>(
    projects: &ProjectService<P>,
    current_task: &Task,
    patch: &TaskPatch,
) -> (r: Result<(), AppError>)
    ensures
        !(patch.project_id matches Some(Some(p)) && current_task.project_id != Some(p)) ==> r is Ok,
{
    if let Some(Some(project_id)) = patch.project_id {
        if current_task.project_id == Some(project_id) {
            return Ok(());
        }
        projects.require_active(project_id)?;
    }
    Ok(())
}

} // verus!
