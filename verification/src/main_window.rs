//! Bringing the main window back: unminimised, shown, then focused, and
//! created again where it was closed.
use vstd::prelude::*;

verus! {

/// The operations of the main window that restoring it uses.
pub trait MainWindowPort {
    fn set_focus(&mut self) -> Result<(), String>;

    fn show(&mut self) -> Result<(), String>;

    fn unminimize(&mut self) -> Result<(), String>;
}

/// Finds or creates the main window.
pub trait MainWindowProvider {
    type Window: MainWindowPort;

    fn create_main_window(&self) -> Result<Self::Window, String>;

    fn get_main_window(&self) -> Option<Self::Window>;
}

/// An operation on the main window that restoring it makes.
#[derive(Clone, Copy, Debug, PartialEq, Eq, Structural)]
pub enum WindowOperation {
    Unminimize,
    Show,
    SetFocus,
}

/// What restoring does next: another operation, or the end with a result.
#[derive(Debug)]
pub enum RestoreAction {
    Perform(WindowOperation),
    Finish(Result<(), String>),
}

/// Restoring unminimises, then shows, then focuses the window: once an
/// operation succeeded the next one follows, and after the focus the window
/// is restored; the first failure ends it with that failure.
pub open spec fn restore_next(done: WindowOperation, result: Result<(), String>) -> RestoreAction {
    match result {
        Err(e) => RestoreAction::Finish(Err(e)),
        Ok(_) => match done {
            WindowOperation::Unminimize => RestoreAction::Perform(WindowOperation::Show),
            WindowOperation::Show => RestoreAction::Perform(WindowOperation::SetFocus),
            WindowOperation::SetFocus => RestoreAction::Finish(Ok(())),
        },
    }
}

/// How many operations are left from this one on.
pub open spec fn operations_left(operation: WindowOperation) -> nat {
    match operation {
        WindowOperation::Unminimize => 3,
        WindowOperation::Show => 2,
        WindowOperation::SetFocus => 1,
    }
}

/// The step of restoring once `done` went as `result` says.
pub fn restore_step(done: WindowOperation, result: Result<(), String>) -> (r: RestoreAction)
    ensures
        r == restore_next(done, result),
        r matches RestoreAction::Perform(next) ==> operations_left(next) < operations_left(done),
{
    match result {
        Err(e) => RestoreAction::Finish(Err(e)),
        Ok(()) => match done {
            WindowOperation::Unminimize => RestoreAction::Perform(WindowOperation::Show),
            WindowOperation::Show => RestoreAction::Perform(WindowOperation::SetFocus),
            WindowOperation::SetFocus => RestoreAction::Finish(Ok(())),
        },
    }
}

/// Each operation in `log` but the last is followed by the one its result
/// asks for.
pub open spec fn operations_chain(log: Seq<(WindowOperation, Result<(), String>)>) -> bool {
    forall|i: int|
        0 <= i < log.len() - 1 ==> #[trigger] restore_next(log[i].0, log[i].1) == RestoreAction::Perform(
            log[i + 1].0,
        )
}

/// The operations made on a window, each with what it returned, restored it
/// as `restore_next` says, with `outcome` as the result: the first is to
/// unminimise, each next one is the one the previous one's success asks
/// for, and the last one's result ends the restore with `outcome`.
pub open spec fn is_restore_log(log: Seq<(WindowOperation, Result<(), String>)>, outcome: Result<(), String>) -> bool {
    &&& log.len() > 0
    &&& log[0].0 == WindowOperation::Unminimize
    &&& operations_chain(log)
    &&& restore_next(log.last().0, log.last().1) == RestoreAction::Finish(outcome)
}

/// The operations made so far, each with what it returned, were those that
/// restoring asks for, and `operation` is the one that comes next.
#[verifier::opaque]
pub open spec fn restore_prefix(log: Seq<(WindowOperation, Result<(), String>)>, operation: WindowOperation) -> bool {
    &&& log.len() == 0 ==> operation == WindowOperation::Unminimize
    &&& log.len() > 0 ==> log[0].0 == WindowOperation::Unminimize
    &&& operations_chain(log)
    &&& log.len() > 0 ==> restore_next(log.last().0, log.last().1) == RestoreAction::Perform(operation)
}

proof fn lemma_restore_step(
    log: Seq<(WindowOperation, Result<(), String>)>,
    operation: WindowOperation,
    result: Result<(), String>,
)
    requires
        restore_prefix(log, operation),
    ensures
        restore_next(operation, result) matches RestoreAction::Perform(next) ==> restore_prefix(
            log.push((operation, result)),
            next,
        ),
        restore_next(operation, result) matches RestoreAction::Finish(outcome) ==> is_restore_log(
            log.push((operation, result)),
            outcome,
        ),
{
    reveal(restore_prefix);
    let next = log.push((operation, result));
    assert forall|i: int| 0 <= i < next.len() - 1 implies #[trigger] restore_next(next[i].0, next[i].1)
        == RestoreAction::Perform(next[i + 1].0) by {
        if i < log.len() - 1 {
            assert(next[i] == log[i] && next[i + 1] == log[i + 1]);
        } else {
            assert(next[i] == log.last());
        }
    }
    assert(next.last() == (operation, result));
    assert(next[0].0 == WindowOperation::Unminimize);
}

/// A window is restored only after it was unminimised, shown and focused,
/// in that order, each with success; a failed restore ends with the failure
/// of its last operation, after at most three, every earlier one a success.
pub proof fn lemma_restore_log_shape(log: Seq<(WindowOperation, Result<(), String>)>, outcome: Result<(), String>)
    requires
        is_restore_log(log, outcome),
    ensures
        1 <= log.len() <= 3,
        forall|i: int| 0 <= i < log.len() - 1 ==> (#[trigger] log[i]).1 is Ok,
        outcome is Ok ==> log =~= seq![
            (WindowOperation::Unminimize, Ok::<(), String>(())),
            (WindowOperation::Show, Ok::<(), String>(())),
            (WindowOperation::SetFocus, Ok::<(), String>(())),
        ],
        outcome matches Err(e) ==> log.last().1 == Err::<(), String>(e),
{
    assert forall|i: int| 0 <= i < log.len() - 1 implies (#[trigger] log[i]).1 is Ok by {
        assert(restore_next(log[i].0, log[i].1) == RestoreAction::Perform(log[i + 1].0));
    }
    if log.len() > 1 {
        assert(restore_next(log[0].0, log[0].1) == RestoreAction::Perform(log[1].0));
        assert(log[1].0 == WindowOperation::Show);
    }
    if log.len() > 2 {
        assert(restore_next(log[1].0, log[1].1) == RestoreAction::Perform(log[2].0));
        assert(log[2].0 == WindowOperation::SetFocus);
    }
    if log.len() > 3 {
        assert(restore_next(log[2].0, log[2].1) == RestoreAction::Perform(log[3].0));
    }
    if outcome is Ok {
        assert(log.last().0 == WindowOperation::SetFocus);
        assert(log.last().1 is Ok);
        assert(log.len() == 3);
        assert(log[0].1 is Ok && log[1].1 is Ok);
        assert(log[0].1 == Ok::<(), String>(log[0].1->Ok_0));
        assert(log[1].1 == Ok::<(), String>(log[1].1->Ok_0));
        assert(log[2] == log.last());
        assert(log[2].1 == Ok::<(), String>(log[2].1->Ok_0));
        assert(log[0] == (WindowOperation::Unminimize, Ok::<(), String>(())));
        assert(log[1] == (WindowOperation::Show, Ok::<(), String>(())));
        assert(log[2] == (WindowOperation::SetFocus, Ok::<(), String>(())));
    }
}

/// Unminimises, shows and focuses the window, in that order; the first
/// failure stops the others and is returned. With the result comes each
/// operation made, with what it returned.
pub fn restore_main_window<W: MainWindowPort>(window: &mut W) -> (r: (
    Result<(), String>,
    Ghost<Seq<(WindowOperation, Result<(), String>)>>,
))
    ensures
        is_restore_log(r.1@, r.0),
{
    let mut operation = WindowOperation::Unminimize;
    let ghost mut log: Seq<(WindowOperation, Result<(), String>)> = Seq::empty();
    proof {
        reveal(restore_prefix);
    }
    loop
        invariant
            restore_prefix(log, operation),
        decreases operations_left(operation),
    {
        let result = match operation {
            WindowOperation::Unminimize => window.unminimize(),
            WindowOperation::Show => window.show(),
            WindowOperation::SetFocus => window.set_focus(),
        };
        proof {
            lemma_restore_step(log, operation, result);
            log = log.push((operation, result));
        }
        match restore_step(operation, result) {
            RestoreAction::Perform(next) => {
                operation = next;
            },
            RestoreAction::Finish(outcome) => {
                return (outcome, Ghost(log));
            },
        }
    }
}

/// Restores the main window, creating it first where it no longer exists;
/// where it can be neither found nor created, nothing is restored and the
/// creation's failure is the result.
pub fn restore_main_window_for_provider<P: MainWindowProvider>(provider: &P) -> (r: (
    Result<(), String>,
    Ghost<Seq<(WindowOperation, Result<(), String>)>>,
))
    ensures
        r.1@.len() == 0 ==> r.0 is Err,
        r.1@.len() > 0 ==> is_restore_log(r.1@, r.0),
{
    let mut window = match provider.get_main_window() {
        Some(window) => window,
        None => match provider.create_main_window() {
            Ok(window) => window,
            Err(error) => return (Err(error), Ghost(Seq::empty())),
        },
    };
    restore_main_window(&mut window)
}

} // verus!
