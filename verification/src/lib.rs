//! Core engine of a GPU-rendered status bar for a layer-shell compositor.
//!
//! The crate verifies the decision-making heart of the bar: per-output
//! surface lifecycle and scale negotiation, the update/render scheduler,
//! eased animations, module layout and pointer routing, and the software
//! pixel pipeline. Protocol and device I/O stay outside, in the embedding
//! binary, which drives these state machines with plain values.

use vstd::prelude::*;

mod animation;
mod audio;
mod bar;
mod buffer;
mod clock;
mod color;
mod config;
mod hypr;
mod lifecycle;
mod math;
mod module;
mod parse;
mod proc;
mod render;

pub use animation::{Animation, Direction, Ease};
pub use audio::ContextState;
pub use bar::{needs_render, BarLayout, HoverChange, ModuleSlot};
pub use buffer::{AlphaBuffer, Buffer, DynamicBuffer};
pub use clock::{clock_line_now, clock_text, ClockParts};
pub use color::Color;
pub use config::WindowConfig;
pub use hypr::{parse_leading_number, parse_trailing_number, split_event_line, trim, HyprState, Workspace};
pub use lifecycle::{Action, GlobalKind, Lifecycle, Monitor, Phase, BAND_HEIGHT, EXCLUSIVE_ZONE};
pub use math::{Pos, Proximity, Rect};
pub use module::{Cursor, ModuleKey, Padding, Section, Updater};
pub use parse::{find_byte, parse_u32, parse_u64};
pub use proc::{cpu_grid, cpu_usage_percent, parse_meminfo_value, CpuStat, MemoryState};
pub use render::{RenderEntry, RenderStore};

verus! {

/// Stable identifier of one physical output and of the bar shown on it.
/// The value is the registry name the output global was announced under.
#[derive(Copy, Clone, Debug, Eq, Hash, PartialEq, Structural)]
pub struct BarId(pub u32);

impl BarId {
    pub fn new(id: u32) -> (r: BarId)
        ensures
            r == (BarId { 0: id }),
    {
        BarId(id)
    }
}

} // verus!
