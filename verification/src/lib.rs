//! Domain core of the TaskDock desktop task manager: tasks, projects,
//! recurrence, reminders and snapshot synchronisation, with their rules
//! stated as contracts and proved.

pub mod error;
pub mod calendar;
pub mod ids;
pub mod text;
pub mod recurrence;
pub mod task;
pub mod sync;
pub mod sync_merge;
pub mod sync_resolve;
pub mod sync_service;
pub mod sync_run;
pub mod task_query;
pub mod ports;
pub mod project;
pub mod task_service;
pub mod reminders;
pub mod commands;
pub mod sync_crypto;
pub mod webdav;
pub mod storage;
pub mod quick_panel;
pub mod notification;
pub mod main_window;
pub mod laws;
pub mod task_commands;
pub mod sync_commands;
pub mod project_commands;
