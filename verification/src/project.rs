//! Projects and tags, and the service that keeps projects.
use vstd::prelude::*;

use crate::calendar::{utc_now, UtcDateTime};
use crate::error::{AppError, AppErrorKind};
use crate::ids::new_id;
use crate::ports::ProjectRepository;
use crate::text::{trim_text, trimmed};

verus! {

/// The longest project name, in characters.
pub const MAX_PROJECT_NAME_LENGTH: usize = 120;

#[derive(Clone, Debug)]
pub struct Project {
    pub id: u128,
    pub name: String,
    pub archived_at: Option<UtcDateTime>,
    pub created_at: UtcDateTime,
    pub updated_at: UtcDateTime,
}

#[derive(Clone, Debug)]
pub struct Tag {
    pub id: u128,
    pub name: String,
    pub created_at: UtcDateTime,
    pub updated_at: UtcDateTime,
}

/// A project name is valid once trimmed: not empty and at most 120 characters.
pub open spec fn is_project_name_valid(name: Seq<char>) -> bool {
    let t = trimmed(name);
    t.len() > 0 && t.len() <= MAX_PROJECT_NAME_LENGTH
}

pub open spec fn is_project_input_error(e: AppError) -> bool {
    e.has("project.input.invalid", "errors.project.input.invalid", AppErrorKind::Validation)
}

/// The trimmed name, or the input error where it is empty or too long.
pub fn validate_project_name(name: &str) -> (r: Result<String, AppError>)
    ensures
        r is Ok <==> is_project_name_valid(name@),
        r matches Ok(n) ==> n@ == trimmed(name@),
        r matches Err(e) ==> is_project_input_error(e),
{
    let name = trim_text(name);
    let length = crate::text::char_count(name.as_str());
    if length == 0 || length > MAX_PROJECT_NAME_LENGTH {
        return Err(
            AppError::new("project.input.invalid", "errors.project.input.invalid", AppErrorKind::Validation),
        );
    }
    Ok(name)
}

pub fn project_not_found() -> (r: AppError)
    ensures
        r.has("project.not_found", "errors.project.not_found", AppErrorKind::NotFound),
{
    AppError::new("project.not_found", "errors.project.not_found", AppErrorKind::NotFound)
}

impl Project {
    /// A new active project with a given identifier, created at `now`.
    pub fn new_at(name: &str, id: u128, now: UtcDateTime) -> (r: Result<Self, AppError>)
        ensures
            r is Ok <==> is_project_name_valid(name@),
            r matches Ok(p) ==> p.id == id && p.name@ == trimmed(name@) && p.archived_at is None
                && p.created_at == now && p.updated_at == now,
            r matches Err(e) ==> is_project_input_error(e),
    {
        let name = validate_project_name(name)?;
        Ok(Project { id, name, archived_at: None, created_at: now, updated_at: now })
    }

    /// A new active project with a fresh identifier, created now.
    pub fn new(name: &str) -> (r: Result<Self, AppError>)
        ensures
            r is Ok <==> is_project_name_valid(name@),
            r matches Ok(p) ==> p.name@ == trimmed(name@) && p.archived_at is None && p.created_at
                == p.updated_at,
            r matches Err(e) ==> is_project_input_error(e),
    {
        let now = utc_now();
        let id = new_id();
        Self::new_at(name, id, now)
    }

    /// Renames the project at `now`; an invalid name leaves it unchanged.
    pub fn rename_at(&mut self, name: &str, now: UtcDateTime) -> (r: Result<(), AppError>)
        ensures
            r is Ok <==> is_project_name_valid(name@),
            r is Ok ==> final(self).name@ == trimmed(name@) && final(self).updated_at == now
                && final(self).id == old(self).id && final(self).archived_at == old(self).archived_at
                && final(self).created_at == old(self).created_at,
            r matches Err(e) ==> is_project_input_error(e) && *final(self) == *old(self),
    {
        let name = validate_project_name(name)?;
        self.name = name;
        self.updated_at = now;
        Ok(())
    }

    /// Renames the project now; an invalid name leaves it unchanged.
    pub fn rename(&mut self, name: &str) -> (r: Result<(), AppError>)
        ensures
            r is Ok <==> is_project_name_valid(name@),
            r is Ok ==> final(self).name@ == trimmed(name@) && final(self).id == old(self).id
                && final(self).archived_at == old(self).archived_at && final(self).created_at == old(
                self,
            ).created_at,
            r matches Err(e) ==> is_project_input_error(e) && *final(self) == *old(self),
    {
        let now = utc_now();
        self.rename_at(name, now)
    }

    /// Archives the project at `now`.
    pub fn archive_at(&mut self, now: UtcDateTime)
        ensures
            *final(self) == (Project { archived_at: Some(now), updated_at: now, ..*old(self) }),
    {
        self.archived_at = Some(now);
        self.updated_at = now;
    }

    /// Archives the project now.
    pub fn archive(&mut self)
        ensures
            final(self).archived_at is Some,
            final(self).archived_at == Some(final(self).updated_at),
            final(self).id == old(self).id,
            final(self).name == old(self).name,
            final(self).created_at == old(self).created_at,
    {
        let now = utc_now();
        self.archive_at(now);
    }
}

/// The project that the store found, where it is still active; a missing or
/// archived project is not found.
pub fn active_project(found: Option<Project>) -> (r: Result<Project, AppError>)
    ensures
        match found {
            Some(p) => if p.archived_at is None {
                r == Ok::<Project, AppError>(p)
            } else {
                r matches Err(e) && e.has("project.not_found", "errors.project.not_found", AppErrorKind::NotFound)
            },
            None => r matches Err(e) && e.has("project.not_found", "errors.project.not_found", AppErrorKind::NotFound),
        },
{
    match found {
        Some(project) => {
            if project.archived_at.is_none() {
                Ok(project)
            } else {
                Err(project_not_found())
            }
        },
        None => Err(project_not_found()),
    }
}

/// Creates, renames, archives and lists projects in a repository.
pub struct ProjectService<R> {
    pub repository: R,
}

impl<R: ProjectRepository> ProjectService<R> {
    pub fn new(repository: R) -> (r: Self)
        ensures
            r.repository == repository,
    {
        ProjectService { repository }
    }

    /// Creates a project; an invalid name is refused before the repository is used.
    pub fn create(&self, name: &str) -> (r: Result<Project, AppError>)
        ensures
            !is_project_name_valid(name@) ==> (r matches Err(e) && is_project_input_error(e)),
            r matches Ok(p) ==> p.name@ == trimmed(name@) && p.archived_at is None,
    {
        let project = Project::new(name)?;
        self.repository.insert_project(&project)?;
        Ok(project)
    }

    /// The project, if it exists and is not archived.
    pub fn require_active(&self, id: u128) -> (r: Result<Project, AppError>)
        ensures
            r matches Ok(p) ==> p.archived_at is None && p.id == id,
    {
        let found = self.repository.get_project(id)?;
        active_project(found)
    }

    /// Renames an active project.
    pub fn rename(&self, id: u128, name: &str) -> (r: Result<Project, AppError>)
        ensures
            r matches Ok(p) ==> p.name@ == trimmed(name@) && p.archived_at is None && p.id == id
                && is_project_name_valid(name@),
    {
        let mut project = self.require_active(id)?;
        project.rename(name)?;
        self.repository.update_project(&project)?;
        Ok(project)
    }

    /// Archives an active project.
    pub fn archive(&self, id: u128) -> (r: Result<Project, AppError>)
        ensures
            r matches Ok(p) ==> p.archived_at is Some && p.id == id,
    {
        let mut project = self.require_active(id)?;
        project.archive();
        self.repository.update_project(&project)?;
        Ok(project)
    }

    /// The projects that are not archived.
    pub fn list_active(&self) -> (r: Result<Vec<Project>, AppError>)
        ensures
            r matches Ok(projects) ==> forall|i: int| 0 <= i < projects@.len() ==> #[trigger] projects@[i].archived_at is None,
    {
        self.repository.list_active_projects()
    }
}

} // verus!
