use std::cell::RefCell;

use todo_app::error::AppError;
use todo_app::ports::ProjectRepository;
use todo_app::project::{validate_project_name, Project, ProjectService};

#[derive(Default)]
struct RecordingProjectRepository {
    projects: RefCell<Vec<Project>>,
}

impl ProjectRepository for &RecordingProjectRepository {
    fn insert_project(&self, project: &Project) -> Result<(), AppError> {
        self.projects.borrow_mut().push(project.clone());
        Ok(())
    }

    fn get_project(&self, id: u128) -> Result<Option<Project>, AppError> {
        Ok(self.projects.borrow().iter().find(|project| project.id == id).cloned())
    }

    fn update_project(&self, project: &Project) -> Result<(), AppError> {
        let mut projects = self.projects.borrow_mut();
        let position = projects.iter().position(|current| current.id == project.id).unwrap();
        projects[position] = project.clone();
        Ok(())
    }

    fn list_active_projects(&self) -> Result<Vec<Project>, AppError> {
        Ok(self.projects.borrow().iter().filter(|project| project.archived_at.is_none()).cloned().collect())
    }
}

#[test]
fn project_service_trims_names_and_excludes_archived_projects() {
    let repository = RecordingProjectRepository::default();
    let service = ProjectService::new(&repository);

    let created = service.create("  Release checklist  ").unwrap();
    service.archive(created.id).unwrap();

    assert_eq!(created.name, "Release checklist");
    assert!(service.list_active().unwrap().is_empty());
    assert_eq!((&repository).get_project(created.id).unwrap().unwrap().id, created.id);
    assert_eq!(service.rename(created.id, "Other").unwrap_err().code(), "project.not_found");
}

#[test]
fn project_service_rejects_blank_and_overlong_names() {
    let repository = RecordingProjectRepository::default();
    let service = ProjectService::new(&repository);

    assert_eq!(service.create("   ").unwrap_err().code(), "project.input.invalid");
    assert_eq!(service.create(&"a".repeat(121)).unwrap_err().code(), "project.input.invalid");
    assert!(repository.projects.borrow().is_empty());
}

#[test]
fn project_names_of_120_characters_are_accepted() {
    assert_eq!(validate_project_name(&"项".repeat(120)).unwrap().chars().count(), 120);
    let repository = RecordingProjectRepository::default();
    let service = ProjectService::new(&repository);
    let created = service.create("Inbox").unwrap();
    let renamed = service.rename(created.id, "  Outbox ").unwrap();
    assert_eq!(renamed.name, "Outbox");
}
