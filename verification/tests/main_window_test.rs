use std::cell::{Cell, RefCell};
use std::rc::Rc;

use todo_app::main_window::{
    restore_main_window, restore_main_window_for_provider, restore_step, MainWindowPort, MainWindowProvider,
    RestoreAction, WindowOperation,
};

#[derive(Clone, Default)]
struct FakeMainWindow {
    calls: Rc<RefCell<Vec<&'static str>>>,
    failure: Option<&'static str>,
}

impl MainWindowPort for FakeMainWindow {
    fn set_focus(&mut self) -> Result<(), String> {
        self.calls.borrow_mut().push("set_focus");
        self.result_for("set_focus")
    }

    fn show(&mut self) -> Result<(), String> {
        self.calls.borrow_mut().push("show");
        self.result_for("show")
    }

    fn unminimize(&mut self) -> Result<(), String> {
        self.calls.borrow_mut().push("unminimize");
        self.result_for("unminimize")
    }
}

impl FakeMainWindow {
    fn result_for(&self, operation: &'static str) -> Result<(), String> {
        match self.failure {
            Some(failure) if failure == operation => Err(format!("main window {operation} failed")),
            _ => Ok(()),
        }
    }

    fn calls(&self) -> Vec<&'static str> {
        self.calls.borrow().clone()
    }
}

struct FakeMainWindowProvider {
    created_window: Result<FakeMainWindow, String>,
    create_requests: Cell<u8>,
    existing_window: Option<FakeMainWindow>,
}

impl MainWindowProvider for FakeMainWindowProvider {
    type Window = FakeMainWindow;

    fn create_main_window(&self) -> Result<Self::Window, String> {
        self.create_requests.set(self.create_requests.get() + 1);
        self.created_window.clone()
    }

    fn get_main_window(&self) -> Option<Self::Window> {
        self.existing_window.clone()
    }
}

#[test]
fn restores_main_window_before_focusing_it() {
    let mut window = FakeMainWindow::default();

    restore_main_window(&mut window).0.expect("main window should restore");

    assert_eq!(window.calls(), vec!["unminimize", "show", "set_focus"]);
}

#[test]
fn returns_the_first_window_operation_error() {
    let mut window = FakeMainWindow { failure: Some("show"), ..FakeMainWindow::default() };

    let error = restore_main_window(&mut window).0.expect_err("show failure should propagate");

    assert_eq!(error, "main window show failed");
    assert_eq!(window.calls(), vec!["unminimize", "show"]);
}

#[test]
fn creates_and_focuses_the_main_window_when_its_existing_webview_was_closed() {
    let created_window = FakeMainWindow::default();
    let provider = FakeMainWindowProvider {
        created_window: Ok(created_window.clone()),
        create_requests: Cell::new(0),
        existing_window: None,
    };

    restore_main_window_for_provider(&provider).0.expect("closed main window should be recreated before it is focused");

    assert_eq!(provider.create_requests.get(), 1);
    assert_eq!(created_window.calls(), vec!["unminimize", "show", "set_focus"]);
}

#[test]
fn restoring_goes_unminimize_show_focus_and_stops_at_the_first_failure() {
    assert!(matches!(
        restore_step(WindowOperation::Unminimize, Ok(())),
        RestoreAction::Perform(WindowOperation::Show)
    ));
    assert!(matches!(restore_step(WindowOperation::Show, Ok(())), RestoreAction::Perform(WindowOperation::SetFocus)));
    assert!(matches!(restore_step(WindowOperation::SetFocus, Ok(())), RestoreAction::Finish(Ok(()))));
    match restore_step(WindowOperation::Show, Err("hidden".to_owned())) {
        RestoreAction::Finish(Err(error)) => assert_eq!(error, "hidden"),
        other => panic!("unexpected action {other:?}"),
    }
}
