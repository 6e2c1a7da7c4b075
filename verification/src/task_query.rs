//! The views in which tasks are listed, which tasks each view holds, and
//! the summary of a listed task.
use vstd::prelude::*;

use crate::calendar::{CivilDate, UtcDateTime};
use crate::task::Priority;

verus! {

/// Which tasks a list shows.
#[derive(Clone, Debug)]
pub enum TaskView {
    Inbox,
    Today { day: CivilDate },
    QuickPanelToday { day: CivilDate },
    Upcoming { day: CivilDate },
    Completed,
    Project(u128),
    Search(String),
    Calendar { start: CivilDate, end: CivilDate },
}

/// A task as a list shows it.
#[derive(Clone, Debug)]
pub struct TaskSummaryDto {
    pub id: String,
    pub title: String,
    pub project_name: Option<String>,
    pub tags: Vec<String>,
    pub priority: Priority,
    pub scheduled_at: Option<UtcDateTime>,
    pub due_at: Option<UtcDateTime>,
    pub completed: bool,
    pub child_total: u32,
    pub child_completed: u32,
}

/// What a view asks of a task: whether it is a top-level task, whether it
/// is completed, its project, and the calendar days, in the local time zone,
/// of its schedule and of its completion.
#[derive(Clone, Copy, Debug)]
pub struct ViewFacts {
    pub is_top_level: bool,
    pub is_completed: bool,
    pub project_id: Option<u128>,
    pub scheduled_day: Option<CivilDate>,
    pub completed_day: Option<CivilDate>,
}

/// What a listed summary shows of the view that listed it: only completed
/// tasks in the completed view; only open ones in the inbox, today, upcoming
/// and project views; only scheduled ones in the today, upcoming and
/// calendar views.
pub open spec fn summary_fits_view(view: TaskView, summary: TaskSummaryDto) -> bool {
    &&& view is Completed ==> summary.completed
    &&& (view is Inbox || view is Today || view is Upcoming || view is Project) ==> !summary.completed
    &&& (view is Today || view is Upcoming || view is Calendar) ==> summary.scheduled_at is Some
}

/// The task is scheduled on a day at or before `day`.
pub open spec fn scheduled_by(facts: ViewFacts, day: CivilDate) -> bool {
    facts.scheduled_day matches Some(s) && !day.is_before(s)
}

/// A view holds only top-level tasks: open ones for the inbox; open ones
/// scheduled on or before the day for today; those and the ones completed
/// on the day for the quick panel; open ones scheduled after the day for
/// upcoming; completed ones for completed; open ones of the project for a
/// project; scheduled ones from `start` up to but not including `end` for
/// the calendar. A search holds the top-level tasks whose text matches it,
/// which the store's full-text index decides.
pub open spec fn in_view(view: TaskView, facts: ViewFacts) -> bool {
    let open = !facts.is_completed;
    facts.is_top_level && match view {
        TaskView::Inbox => open,
        TaskView::Today { day } => open && scheduled_by(facts, day),
        TaskView::QuickPanelToday { day } => (open && scheduled_by(facts, day)) || (facts.is_completed
            && facts.completed_day == Some(day)),
        TaskView::Upcoming { day } => open && (facts.scheduled_day matches Some(s) && day.is_before(s)),
        TaskView::Completed => facts.is_completed,
        TaskView::Project(id) => open && facts.project_id == Some(id),
        TaskView::Search(_) => true,
        TaskView::Calendar { start, end } => facts.scheduled_day matches Some(s) && !s.is_before(start)
            && s.is_before(end),
    }
}

fn scheduled_by_exec(facts: &ViewFacts, day: &CivilDate) -> (r: bool)
    ensures
        r == scheduled_by(*facts, *day),
{
    match facts.scheduled_day {
        Some(s) => !s.is_after(day),
        None => false,
    }
}

/// Whether a view holds a task; for a search, whether the task may match.
pub fn task_in_view(view: &TaskView, facts: &ViewFacts) -> (r: bool)
    ensures
        r == in_view(*view, *facts),
{
    if !facts.is_top_level {
        return false;
    }
    let open = !facts.is_completed;
    match view {
        TaskView::Inbox => open,
        TaskView::Today { day } => open && scheduled_by_exec(facts, day),
        TaskView::QuickPanelToday { day } => (open && scheduled_by_exec(facts, day)) || (facts.is_completed
            && match facts.completed_day {
            Some(c) => c == *day,
            None => false,
        }),
        TaskView::Upcoming { day } => open && match facts.scheduled_day {
            Some(s) => s.is_after(day),
            None => false,
        },
        TaskView::Completed => facts.is_completed,
        TaskView::Project(id) => open && match facts.project_id {
            Some(p) => p == *id,
            None => false,
        },
        TaskView::Search(_) => true,
        TaskView::Calendar { start, end } => match facts.scheduled_day {
            Some(s) => !start.is_after(&s) && end.is_after(&s),
            None => false,
        },
    }
}

} // verus!
