//! The quick panel's placement in whole physical pixels: keeping the panel
//! inside a monitor's work area, choosing the monitor to restore it on, and
//! telling the user's moves of the panel from its own.
use vstd::prelude::*;
use vstd::string::StringExecFns;

use crate::recurrence::str_equals;

verus! {

pub const PREFERENCES_FILE_NAME: &'static str = "quick-panel-preferences.json";

pub const PREFERENCES_VERSION: u8 = 2;

/// How the quick panel opens.
#[derive(Clone, Copy, Debug, Default, PartialEq, Eq, Structural)]
pub enum QuickPanelBehavior {
    #[default]
    Hover,
    Click,
}

#[derive(Clone, Copy, Debug, PartialEq, Eq, Structural)]
pub enum QuickPanelMode {
    Collapsed,
    Expanded,
}

#[derive(Clone, Copy, Debug, PartialEq, Eq, Structural)]
pub struct PhysicalPoint {
    pub x: i32,
    pub y: i32,
}

impl PhysicalPoint {
    pub fn new(x: i32, y: i32) -> (r: Self)
        ensures
            r.x == x && r.y == y,
    {
        PhysicalPoint { x, y }
    }
}

#[derive(Clone, Copy, Debug, PartialEq, Eq, Structural)]
pub struct PhysicalSize {
    pub width: u32,
    pub height: u32,
}

impl PhysicalSize {
    pub fn new(width: u32, height: u32) -> (r: Self)
        ensures
            r.width == width && r.height == height,
    {
        PhysicalSize { width, height }
    }
}

#[derive(Clone, Copy, Debug, PartialEq, Eq, Structural)]
pub struct PhysicalWorkArea {
    pub position: PhysicalPoint,
    pub size: PhysicalSize,
}

impl PhysicalWorkArea {
    pub fn new(position: PhysicalPoint, size: PhysicalSize) -> (r: Self)
        ensures
            r.position == position && r.size == size,
    {
        PhysicalWorkArea { position, size }
    }
}

pub open spec fn clamp_int(v: int, lo: int, hi: int) -> int {
    if v < lo {
        lo
    } else if v > hi {
        hi
    } else {
        v
    }
}

/// A wide value clamped into the range of `i32`.
pub fn clamp_i64_to_i32(value: i64) -> (r: i32)
    ensures
        r == clamp_int(value as int, i32::MIN as int, i32::MAX as int),
{
    if value < i32::MIN as i64 {
        i32::MIN
    } else if value > i32::MAX as i64 {
        i32::MAX
    } else {
        value as i32
    }
}

/// The coordinate clamped to the interval from `low` to `low + room - extent`,
/// or to `low` where the window does not fit.
pub open spec fn clamp_axis(v: int, low: int, room: int, extent: int) -> int {
    let high = if low + room - extent > low {
        low + room - extent
    } else {
        low
    };
    clamp_int(clamp_int(v, low, high), i32::MIN as int, i32::MAX as int)
}

fn clamp_axis_exec(v: i32, low: i32, room: u32, extent: u32) -> (r: i32)
    ensures
        r == clamp_axis(v as int, low as int, room as int, extent as int),
{
    let minimum = low as i64;
    let candidate = minimum + room as i64 - extent as i64;
    let maximum = if candidate > minimum {
        candidate
    } else {
        minimum
    };
    let value = v as i64;
    let clamped = if value < minimum {
        minimum
    } else if value > maximum {
        maximum
    } else {
        value
    };
    clamp_i64_to_i32(clamped)
}

/// The position nearest to `position` at which a window of `window_size`
/// lies inside the work area; where it is larger than the work area, it is
/// placed at the work area's start.
pub fn clamp_physical_position(position: PhysicalPoint, window_size: PhysicalSize, work_area: PhysicalWorkArea) -> (r:
    PhysicalPoint)
    ensures
        r.x == clamp_axis(
            position.x as int,
            work_area.position.x as int,
            work_area.size.width as int,
            window_size.width as int,
        ),
        r.y == clamp_axis(
            position.y as int,
            work_area.position.y as int,
            work_area.size.height as int,
            window_size.height as int,
        ),
{
    PhysicalPoint::new(
        clamp_axis_exec(position.x, work_area.position.x, work_area.size.width, window_size.width),
        clamp_axis_exec(position.y, work_area.position.y, work_area.size.height, window_size.height),
    )
}

fn find_id(ids: &[String], id: &str) -> (r: Option<usize>)
    ensures
        match r {
            Some(i) => i < ids@.len() && ids@[i as int]@ == id@ && forall|j: int| 0 <= j < i ==> ids@[j]@ != id@,
            None => forall|j: int| 0 <= j < ids@.len() ==> ids@[j]@ != id@,
        },
{
    let mut i: usize = 0;
    while i < ids.len()
        invariant
            i <= ids@.len(),
            forall|j: int| 0 <= j < i ==> ids@[j]@ != id@,
        decreases ids@.len() - i,
    {
        if str_equals(ids[i].as_str(), id) {
            return Some(i);
        }
        i = i + 1;
    }
    None
}

/// The monitor to restore the panel on, by index: the saved monitor, else
/// the current one, else the primary one, else the first one.
pub fn select_monitor(
    saved_monitor_id: &str,
    monitor_ids: &[String],
    current_monitor_id: Option<&str>,
    primary_monitor_id: Option<&str>,
) -> (r: Option<usize>)
    ensures
        r matches Some(i) ==> i < monitor_ids@.len(),
        r is None <==> monitor_ids@.len() == 0,
        (exists|j: int| 0 <= j < monitor_ids@.len() && monitor_ids@[j]@ == saved_monitor_id@) ==> (r matches Some(
            i,
        ) && monitor_ids@[i as int]@ == saved_monitor_id@ && forall|j: int| 0 <= j < i ==> monitor_ids@[j]@ != saved_monitor_id@),
        (forall|j: int| 0 <= j < monitor_ids@.len() ==> monitor_ids@[j]@ != saved_monitor_id@) && (current_monitor_id matches Some(
            c,
        ) && exists|j: int| 0 <= j < monitor_ids@.len() && monitor_ids@[j]@ == c@) ==> (r matches Some(i)
            && monitor_ids@[i as int]@ == current_monitor_id->Some_0@),
{
    if let Some(i) = find_id(monitor_ids, saved_monitor_id) {
        return Some(i);
    }
    if let Some(id) = current_monitor_id {
        if let Some(i) = find_id(monitor_ids, id) {
            return Some(i);
        }
    }
    if let Some(id) = primary_monitor_id {
        if let Some(i) = find_id(monitor_ids, id) {
            return Some(i);
        }
    }
    if monitor_ids.len() > 0 {
        Some(0)
    } else {
        None
    }
}

/// A monitor is added to the known ones only where no known monitor has its identifier.
pub fn monitor_missing(monitor_ids: &[String], id: &str) -> (r: bool)
    ensures
        r <==> forall|j: int| 0 <= j < monitor_ids@.len() ==> monitor_ids@[j]@ != id@,
{
    find_id(monitor_ids, id).is_none()
}

/// Stored preferences of another version are not used.
pub fn preferences_version_supported(version: u8) -> (r: bool)
    ensures
        r == (version == PREFERENCES_VERSION),
{
    version == PREFERENCES_VERSION
}

/// The name of a file beside the preferences: the file's name (or the
/// default name where it has none), a dot and the suffix.
pub fn sibling_path(file_name: Option<&str>, suffix: &str) -> (r: String)
    ensures
        r@ == match file_name {
            Some(name) => name@,
            None => PREFERENCES_FILE_NAME@,
        } + "."@ + suffix@,
{
    let mut name = match file_name {
        Some(name) => String::from_str(name),
        None => String::from_str(PREFERENCES_FILE_NAME),
    };
    name.append(".");
    name.append(suffix);
    name
}

/// The quick panel's state between window events: its mode, the number of
/// moves the user has made, and the position the panel last moved itself
/// to, whose move event is not the user's.
#[derive(Clone, Copy, Debug)]
pub struct QuickPanelMoveState {
    pub mode: QuickPanelMode,
    pub move_generation: u64,
    pub programmatic_position: Option<PhysicalPoint>,
}

impl QuickPanelMoveState {
    /// A collapsed panel that has not moved.
    pub fn new() -> (r: Self)
        ensures
            r.mode == QuickPanelMode::Collapsed,
            r.move_generation == 0,
            r.programmatic_position is None,
    {
        QuickPanelMoveState { mode: QuickPanelMode::Collapsed, move_generation: 0, programmatic_position: None }
    }

    pub fn mode(&self) -> (r: QuickPanelMode)
        ensures
            r == self.mode,
    {
        self.mode
    }

    pub fn set_mode(&mut self, mode: QuickPanelMode)
        ensures
            *final(self) == (QuickPanelMoveState { mode, ..*old(self) }),
    {
        self.mode = mode;
    }

    /// Counts a move of the user and gives its number.
    pub fn next_move_generation(&mut self) -> (r: u64)
        requires
            old(self).move_generation < u64::MAX,
        ensures
            r == old(self).move_generation + 1,
            *final(self) == (QuickPanelMoveState { move_generation: r, ..*old(self) }),
    {
        self.move_generation = self.move_generation + 1;
        self.move_generation
    }

    /// No move of the user came after the one with this number.
    pub fn is_latest_move(&self, generation: u64) -> (r: bool)
        ensures
            r == (self.move_generation == generation),
    {
        self.move_generation == generation
    }

    /// Remembers that the panel moves itself to `position`.
    pub fn mark_programmatic_position(&mut self, position: PhysicalPoint)
        ensures
            *final(self) == (QuickPanelMoveState { programmatic_position: Some(position), ..*old(self) }),
    {
        self.programmatic_position = Some(position);
    }

    /// Whether a move to `position` is the panel's own; the remembered
    /// position is then forgotten, so that it answers for one move only.
    pub fn consume_programmatic_position(&mut self, position: PhysicalPoint) -> (r: bool)
        ensures
            r == (old(self).programmatic_position == Some(position)),
            r ==> *final(self) == (QuickPanelMoveState { programmatic_position: None, ..*old(self) }),
            !r ==> *final(self) == *old(self),
    {
        let own = match self.programmatic_position {
            Some(expected) => expected == position,
            None => false,
        };
        if own {
            self.programmatic_position = None;
        }
        own
    }

    /// Takes in a move event: none for the panel's own move, else the number
    /// of the user's move, which a delayed clamp and save must find to be the
    /// latest before it acts.
    pub fn begin_moved_position(&mut self, position: PhysicalPoint) -> (r: Option<u64>)
        requires
            old(self).move_generation < u64::MAX,
        ensures
            old(self).programmatic_position == Some(position) ==> r is None && *final(self) == (
            QuickPanelMoveState { programmatic_position: None, ..*old(self) }),
            old(self).programmatic_position != Some(position) ==> r == Some((old(self).move_generation + 1) as u64)
                && *final(self) == (QuickPanelMoveState {
                move_generation: (old(self).move_generation + 1) as u64,
                ..*old(self)
            }),
    {
        if self.consume_programmatic_position(position) {
            return None;
        }
        Some(self.next_move_generation())
    }
}

} // verus!
