//! Module-facing types: declared update cadences, stable module
//! addresses, and the small descriptors modules hand to the bar.

use vstd::prelude::*;

verus! {

/// A module's declared cadence: how often the scheduler must redraw it.
///
/// `Animation` demands a redraw every frame while it is reported, and
/// overrides any interval. `Flag` is level-triggered: an external data
/// source marks the module dirty and the flag is cleared only once a
/// layout pass has consumed it.
#[derive(Clone, Copy, Debug, PartialEq, Eq, Structural)]
pub enum Updater {
    Never,
    /// Redraw whenever more than this many milliseconds have passed
    /// since the last draw.
    Every(u64),
    Animation,
    Flag,
}

/// Stable logical address of a module: its group and index, so hover
/// and click dispatch never re-resolve pointer identity.
#[derive(Clone, Copy, Debug, PartialEq, Eq, Structural)]
pub enum ModuleKey {
    Left(u32),
    Middle(u32),
    Right(u32),
}

/// Pointer shape to show over the bar.
#[derive(Debug, Clone, Copy, PartialEq, Eq, Structural)]
pub enum Cursor {
    Normal,
    Hand,
}

/// Inner padding around a module's content, in logical pixels.
#[derive(Clone, Copy, Debug, PartialEq, Eq, Structural)]
pub struct Padding {
    pub left: u32,
    pub right: u32,
    pub top: u32,
    pub bottom: u32,
}

impl Padding {
    pub fn none() -> (r: Padding)
        ensures
            r == (Padding { left: 0, right: 0, top: 0, bottom: 0 }),
    {
        Padding { left: 0, right: 0, top: 0, bottom: 0 }
    }
}

/// One run of text a module renders, with an optional `0xRRGGBB` color
/// and whether clicks on it are meaningful.
#[derive(Clone)]
pub struct Section<'a> {
    pub text: &'a str,
    pub color: Option<u32>,
    pub clickable: bool,
}

impl<'a> Section<'a> {
    pub fn new(text: &'a str) -> (r: Section<'a>)
        ensures
            r == (Section { text, color: Option::<u32>::None, clickable: false }),
    {
        Section { text, color: Option::None, clickable: false }
    }

    pub fn with_color(self, color: u32) -> (r: Section<'a>)
        ensures
            r == (Section { color: Option::Some(color), ..self }),
    {
        Section { color: Option::Some(color), ..self }
    }

    pub fn with_clickable(self, clickable: bool) -> (r: Section<'a>)
        ensures
            r == (Section { clickable, ..self }),
    {
        Section { clickable, ..self }
    }
}

/// Whether a cadence demands a re-render, `elapsed` milliseconds after
/// the last draw and with `pending` the module's level-triggered flag:
/// a running animation always does, an interval once it has elapsed
/// strictly, a flag while it is set, and `Never` never does.
pub open spec fn spec_render_demand(u: Updater, elapsed: u64, pending: bool) -> bool {
    match u {
        Updater::Never => false,
        Updater::Animation => true,
        Updater::Every(interval) => elapsed > interval,
        Updater::Flag => pending,
    }
}

/// Whether a cadence demands a re-layout. Animation alone never does:
/// animation changes pixels, not geometry. Content-driven cadences
/// (intervals, flags) do.
pub open spec fn spec_layout_demand(u: Updater, elapsed: u64, pending: bool) -> bool {
    match u {
        Updater::Never => false,
        Updater::Animation => false,
        Updater::Every(interval) => elapsed > interval,
        Updater::Flag => pending,
    }
}

pub fn render_demand(u: &Updater, elapsed: u64, pending: bool) -> (r: bool)
    ensures
        r == spec_render_demand(*u, elapsed, pending),
{
    match u {
        Updater::Never => false,
        Updater::Animation => true,
        Updater::Every(interval) => elapsed > *interval,
        Updater::Flag => pending,
    }
}

pub fn layout_demand(u: &Updater, elapsed: u64, pending: bool) -> (r: bool)
    ensures
        r == spec_layout_demand(*u, elapsed, pending),
{
    match u {
        Updater::Never => false,
        Updater::Animation => false,
        Updater::Every(interval) => elapsed > *interval,
        Updater::Flag => pending,
    }
}

} // verus!
