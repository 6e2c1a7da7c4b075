//! The project commands once their input is read: the id of the project
//! they name, and the errors they report.
use vstd::prelude::*;

use crate::commands::CommandError;
use crate::ids::{parse_id, parsed_id};
use crate::ports::ProjectRepository;
use crate::project::{is_project_name_valid, Project, ProjectService};
use crate::text::trimmed;

verus! {

/// What creating a project is given.
#[derive(Clone, Debug)]
pub struct CreateProjectInput {
    pub name: String,
}

/// What renaming a project is given.
#[derive(Clone, Debug)]
pub struct RenameProjectInput {
    pub id: String,
    pub name: String,
}

/// What archiving a project is given.
#[derive(Clone, Debug)]
pub struct ArchiveProjectInput {
    pub id: String,
}

pub open spec fn is_project_input_command_error<T>(r: Result<T, CommandError>) -> bool {
    r matches Err(e) && e.is("project.input.invalid"@, "errors.project.input.invalid"@)
}

/// The id of the project that a command names; text that is no id is an
/// input error.
pub fn parse_project_id(value: &str) -> (r: Result<u128, CommandError>)
    ensures
        parsed_id(value@) matches Some(id) ==> r == Ok::<u128, CommandError>(id),
        parsed_id(value@) is None ==> is_project_input_command_error(r),
{
    match parse_id(value) {
        Some(id) => Ok(id),
        None => Err(CommandError::invalid_project_input()),
    }
}

/// Creates a project; an invalid name is an input error.
pub fn create_project_from_input<R: ProjectRepository>(service: &ProjectService<R>, input: CreateProjectInput) -> (r:
    Result<Project, CommandError>)
    ensures
        !is_project_name_valid(input.name@) ==> is_project_input_command_error(r),
        r matches Ok(p) ==> p.name@ == trimmed(input.name@) && p.archived_at is None,
{
    match service.create(input.name.as_str()) {
        Ok(project) => Ok(project),
        Err(error) => Err(CommandError::from_error(error)),
    }
}

/// Renames the project that the input names.
pub fn rename_project_from_input<R: ProjectRepository>(service: &ProjectService<R>, input: RenameProjectInput) -> (r:
    Result<Project, CommandError>)
    ensures
        parsed_id(input.id@) is None ==> is_project_input_command_error(r),
        r matches Ok(p) ==> p.name@ == trimmed(input.name@) && p.archived_at is None && parsed_id(input.id@)
            == Some(p.id) && is_project_name_valid(input.name@),
{
    let id = parse_project_id(input.id.as_str())?;
    match service.rename(id, input.name.as_str()) {
        Ok(project) => Ok(project),
        Err(error) => Err(CommandError::from_error(error)),
    }
}

/// Archives the project that the input names.
pub fn archive_project_from_input<R: ProjectRepository>(service: &ProjectService<R>, input: ArchiveProjectInput) -> (r:
    Result<Project, CommandError>)
    ensures
        parsed_id(input.id@) is None ==> is_project_input_command_error(r),
        r matches Ok(p) ==> p.archived_at is Some && parsed_id(input.id@) == Some(p.id),
{
    let id = parse_project_id(input.id.as_str())?;
    match service.archive(id) {
        Ok(project) => Ok(project),
        Err(error) => Err(CommandError::from_error(error)),
    }
}

/// The active projects.
pub fn list_projects_with<R: ProjectRepository>(service: &ProjectService<R>) -> (r: Result<
    Vec<Project>,
    CommandError,
>)
    ensures
        r matches Ok(projects) ==> forall|i: int| 0 <= i < projects@.len() ==> #[trigger] projects@[i].archived_at is None,
{
    match service.list_active() {
        Ok(projects) => Ok(projects),
        Err(error) => Err(CommandError::from_error(error)),
    }
}

} // verus!
