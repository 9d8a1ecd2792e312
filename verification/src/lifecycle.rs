//! The per-output surface lifecycle manager.
//!
//! One state machine per monitor walks `Unbound` to `Presenting`. The
//! manager decides; the embedding performs: every handler returns the
//! protocol and device actions the embedding must carry out, in order.
//! A GPU presentation target exists for a monitor exactly while the
//! monitor has passed a configure acknowledgment carrying non-zero
//! pixel dimensions — that is the `spec_surface_iff_configured` part
//! of the manager's invariant.

use vstd::prelude::*;

use crate::render::{spec_scaled, RenderStore};
use crate::BarId;

verus! {

/// Height of the layer-surface band the bar requests, in logical
/// pixels.
pub const BAND_HEIGHT: u32 = 40;

/// Exclusive zone reserved from window placement, in logical pixels.
pub const EXCLUSIVE_ZONE: u32 = 30;

/// Lifecycle of one monitor's surfaces.
#[derive(Clone, Copy, Debug, PartialEq, Eq, Structural)]
pub enum Phase {
    /// Output bound; no surfaces yet.
    Unbound,
    /// Drawing surface created, layer surface still missing.
    SurfaceCreated,
    /// Layer surface requested and committed; waiting for the
    /// compositor's configure.
    LayerSurfaceRequested,
    /// Configure acknowledged with usable dimensions; GPU target
    /// exists.
    Configured,
    /// At least one frame presented.
    Presenting,
}

impl Phase {
    /// The phases in which the GPU presentation target exists.
    pub open spec fn spec_has_target(self) -> bool {
        self is Configured || self is Presenting
    }
}

/// One physical output and the bar surface tied to it.
#[derive(Clone, Copy, Debug, PartialEq, Eq, Structural)]
pub struct Monitor {
    pub id: BarId,
    pub phase: Phase,
    /// Logical position of the output.
    pub x: i32,
    pub y: i32,
    /// Output size as the mode event reported it.
    pub width: i32,
    pub height: i32,
    /// Current scale factor in 1/120ths; 120 is unscaled.
    pub scale_120: u32,
    /// Whether a fractional-scale object was requested for the
    /// surface; while one exists, integer scale events are ignored.
    pub fractional_object: bool,
}

/// A protocol or device operation the embedding must perform, in the
/// order returned.
#[derive(Clone, Copy, Debug, PartialEq, Eq, Structural)]
pub enum Action {
    /// Create the drawing surface for this monitor.
    CreateSurface(BarId),
    /// Request a fractional-scale object for the monitor's surface.
    GetFractionalScale(BarId),
    /// Create the layer surface: anchored to the top edge spanning the
    /// full width, sized to `BAND_HEIGHT`, reserving `EXCLUSIVE_ZONE`.
    CreateLayerSurface(BarId),
    /// Commit the monitor's drawing surface.
    CommitSurface(BarId),
    /// Acknowledge the configure event with this serial.
    AckConfigure(BarId, u32),
    /// Create the GPU presentation surface at these pixel dimensions.
    CreateGpuSurface(BarId, u32, u32),
    /// Re-issue the integer buffer scale on the surface.
    SetBufferScale(BarId, i32),
    /// Carry the new scale factor, in 1/120ths, into the bar's layout
    /// state.
    SetBarScale(BarId, u32),
    /// Render and present this bar now.
    RenderBar(BarId),
}

/// The actions reconciliation owes one monitor: surfaces it still
/// lacks, each followed by what the protocol requires next.
pub open spec fn spec_monitor_actions(m: Monitor, fractional: bool) -> Seq<Action> {
    match m.phase {
        Phase::Unbound => if fractional {
            seq![
                Action::CreateSurface(m.id),
                Action::GetFractionalScale(m.id),
                Action::CreateLayerSurface(m.id),
                Action::CommitSurface(m.id),
            ]
        } else {
            seq![
                Action::CreateSurface(m.id),
                Action::CreateLayerSurface(m.id),
                Action::CommitSurface(m.id),
            ]
        },
        Phase::SurfaceCreated => seq![
            Action::CreateLayerSurface(m.id),
            Action::CommitSurface(m.id),
        ],
        _ => Seq::empty(),
    }
}

/// Reconciliation actions for the whole monitor list, in list order.
pub open spec fn spec_reconcile_actions(s: Seq<Monitor>, fractional: bool) -> Seq<Action>
    decreases s.len(),
{
    if s.len() == 0 {
        Seq::empty()
    } else {
        spec_reconcile_actions(s.drop_last(), fractional) + spec_monitor_actions(
            s.last(),
            fractional,
        )
    }
}

/// A monitor as one reconciliation pass leaves it: anything before
/// `LayerSurfaceRequested` is carried there, and a monitor that had no
/// surface records whether a fractional-scale object was requested.
pub open spec fn spec_reconciled_monitor(m: Monitor, fractional: bool) -> Monitor {
    match m.phase {
        Phase::Unbound => Monitor {
            phase: Phase::LayerSurfaceRequested,
            fractional_object: fractional,
            ..m
        },
        Phase::SurfaceCreated => Monitor { phase: Phase::LayerSurfaceRequested, ..m },
        _ => m,
    }
}

/// The surface/output lifecycle manager: bound globals, monitors, and
/// the render store the pipeline draws from.
pub struct Lifecycle {
    pub compositor: bool,
    pub shell: bool,
    pub seat: bool,
    pub fractional: bool,
    pub monitors: Vec<Monitor>,
    pub store: RenderStore,
}

impl Lifecycle {
    pub open spec fn spec_has_monitor(self, id: BarId) -> bool {
        exists|i: int| 0 <= i < self.monitors@.len() && (#[trigger] self.monitors@[i]).id == id
    }

    pub open spec fn spec_monitor_index(self, id: BarId) -> int {
        choose|i: int| 0 <= i < self.monitors@.len() && (#[trigger] self.monitors@[i]).id == id
    }

    pub open spec fn spec_monitor(self, id: BarId) -> Monitor {
        self.monitors@[self.spec_monitor_index(id)]
    }

    pub open spec fn spec_ids_unique(self) -> bool {
        forall|i: int, j: int|
            0 <= i < j < self.monitors@.len() ==> (#[trigger] self.monitors@[i]).id != (
            #[trigger] self.monitors@[j]).id
    }

    /// A GPU presentation target exists for a monitor exactly while
    /// its configure acknowledgment with non-zero pixel dimensions has
    /// passed: before that there is nothing to present to.
    pub open spec fn spec_surface_iff_configured(self) -> bool {
        forall|i: int|
            0 <= i < self.monitors@.len() ==> (self.store.spec_contains(
                (#[trigger] self.monitors@[i]).id,
            ) <==> self.monitors@[i].phase.spec_has_target())
    }

    /// The store holds no orphan entries.
    pub open spec fn spec_store_ids_known(self) -> bool {
        forall|id: BarId| #[trigger] self.store.spec_contains(id) ==> self.spec_has_monitor(id)
    }

    /// The store's per-bar scale always matches the monitor's.
    pub open spec fn spec_scales_agree(self) -> bool {
        forall|i: int|
            0 <= i < self.monitors@.len() && self.store.spec_contains(
                (#[trigger] self.monitors@[i]).id,
            ) ==> self.store.spec_entry(self.monitors@[i].id).scale_120
                == self.monitors@[i].scale_120
    }

    pub open spec fn spec_wf(self) -> bool {
        &&& self.spec_ids_unique()
        &&& self.store.spec_wf()
        &&& self.spec_surface_iff_configured()
        &&& self.spec_store_ids_known()
        &&& self.spec_scales_agree()
    }

    pub fn new() -> (r: Lifecycle)
        ensures
            r.spec_wf(),
            !r.compositor && !r.shell && !r.seat && !r.fractional,
            r.monitors@.len() == 0,
            r.store.entries@.len() == 0,
    {
        Lifecycle {
            compositor: false,
            shell: false,
            seat: false,
            fractional: false,
            monitors: Vec::new(),
            store: RenderStore::new(),
        }
    }

    /// Index of the monitor for `id`, if any.
    fn find_monitor(&self, id: BarId) -> (r: Option<usize>)
        requires
            self.spec_ids_unique(),
        ensures
            match r {
                Option::Some(i) => i < self.monitors@.len() && self.monitors@[i as int].id == id
                    && i == self.spec_monitor_index(id),
                Option::None => !self.spec_has_monitor(id),
            },
    {
        let mut i: usize = 0;
        while i < self.monitors.len()
            invariant
                self.spec_ids_unique(),
                i <= self.monitors@.len(),
                forall|j: int| 0 <= j < i ==> (#[trigger] self.monitors@[j]).id != id,
            decreases self.monitors@.len() - i,
        {
            if self.monitors[i].id == id {
                proof {
                    let w = self.spec_monitor_index(id);
                    if w != i {
                        assert(self.monitors@[w].id == id && self.monitors@[i as int].id == id);
                    }
                }
                return Option::Some(i);
            }
            i = i + 1;
        }
        Option::None
    }

    /// Binds one announced global. An output gains a monitor entry in
    /// the `Unbound` phase (an already known output name is a stale
    /// replay and is ignored); the other globals set their flags. The
    /// caller runs `reconcile` afterwards, as after every bind.
    pub fn bind_global(&mut self, name: u32, kind: GlobalKind)
        requires
            old(self).spec_wf(),
        ensures
            final(self).spec_wf(),
            final(self).store == old(self).store,
            match kind {
                GlobalKind::Output => {
                    &&& (if old(self).spec_has_monitor(BarId(name)) {
                        final(self).monitors@ == old(self).monitors@
                    } else {
                        final(self).monitors@ == old(self).monitors@.push(
                            Monitor {
                                id: BarId(name),
                                phase: Phase::Unbound,
                                x: 0,
                                y: 0,
                                width: 0,
                                height: 0,
                                scale_120: 120,
                                fractional_object: false,
                            },
                        )
                    })
                    &&& final(self).compositor == old(self).compositor
                    &&& final(self).shell == old(self).shell
                    &&& final(self).seat == old(self).seat
                    &&& final(self).fractional == old(self).fractional
                },
                GlobalKind::Compositor => *final(self) == (Lifecycle {
                    compositor: true,
                    ..*old(self)
                }),
                GlobalKind::Seat => *final(self) == (Lifecycle { seat: true, ..*old(self) }),
                GlobalKind::LayerShell => *final(self) == (Lifecycle { shell: true, ..*old(self) }),
                GlobalKind::FractionalScaleManager => *final(self) == (Lifecycle {
                    fractional: true,
                    ..*old(self)
                }),
            },
    {
        match kind {
            GlobalKind::Output => {
                let id = BarId::new(name);
                if self.find_monitor(id).is_none() {
                    let m = Monitor {
                        id,
                        phase: Phase::Unbound,
                        x: 0,
                        y: 0,
                        width: 0,
                        height: 0,
                        scale_120: 120,
                        fractional_object: false,
                    };
                    self.monitors.push(m);
                    proof {
                        let n = old(self).monitors@.len() as int;
                        assert(self.monitors@[n].phase is Unbound);
                        assert forall|i: int|
                            0 <= i < self.monitors@.len() implies (self.store.spec_contains(
                            (#[trigger] self.monitors@[i]).id,
                        ) <==> self.monitors@[i].phase.spec_has_target()) by {
                            if i < n {
                                assert(old(self).monitors@[i] == self.monitors@[i]);
                            } else {
                                assert(!self.store.spec_contains(id));
                            }
                        }
                        assert forall|id2: BarId| #[trigger]
                            self.store.spec_contains(id2) implies self.spec_has_monitor(id2) by {
                            assert(old(self).spec_has_monitor(id2));
                            let i = choose|i: int|
                                0 <= i < old(self).monitors@.len() && (#[trigger] old(
                                    self,
                                ).monitors@[i]).id == id2;
                            assert(self.monitors@[i].id == id2);
                        }
                    }
                }
            },
            GlobalKind::Compositor => {
                self.compositor = true;
            },
            GlobalKind::Seat => {
                self.seat = true;
            },
            GlobalKind::LayerShell => {
                self.shell = true;
            },
            GlobalKind::FractionalScaleManager => {
                self.fractional = true;
            },
        }
    }
}

/// The kinds of global the manager binds.
#[derive(Clone, Copy, Debug, PartialEq, Eq, Structural)]
pub enum GlobalKind {
    Output,
    Compositor,
    Seat,
    LayerShell,
    FractionalScaleManager,
}

proof fn lemma_reconcile_take_snoc(s: Seq<Monitor>, fractional: bool, i: int)
    requires
        0 <= i < s.len(),
    ensures
        spec_reconcile_actions(s.take(i + 1), fractional) == spec_reconcile_actions(
            s.take(i),
            fractional,
        ) + spec_monitor_actions(s[i], fractional),
{
    assert(s.take(i + 1).drop_last() =~= s.take(i));
    assert(s.take(i + 1).last() == s[i]);
}

impl Lifecycle {
    /// The reconciliation pass, run after every global bind and
    /// per-output event: while both the compositor and the layer-shell
    /// globals are bound, every monitor still missing its drawing
    /// surface or its layer surface gets them requested and committed,
    /// and moves to `LayerSurfaceRequested`. Without those globals
    /// nothing can be created yet.
    pub fn reconcile(&mut self) -> (acts: Vec<Action>)
        requires
            old(self).spec_wf(),
        ensures
            final(self).spec_wf(),
            final(self).store == old(self).store,
            final(self).compositor == old(self).compositor,
            final(self).shell == old(self).shell,
            final(self).seat == old(self).seat,
            final(self).fractional == old(self).fractional,
            !(old(self).compositor && old(self).shell) ==> final(self).monitors@ == old(
                self,
            ).monitors@ && acts@ == Seq::<Action>::empty(),
            old(self).compositor && old(self).shell ==> {
                &&& final(self).monitors@.len() == old(self).monitors@.len()
                &&& forall|i: int|
                    0 <= i < old(self).monitors@.len() ==> final(self).monitors@[i]
                        == spec_reconciled_monitor(
                        #[trigger] old(self).monitors@[i],
                        old(self).fractional,
                    )
                &&& acts@ == spec_reconcile_actions(old(self).monitors@, old(self).fractional)
            },
    {
        let mut acts: Vec<Action> = Vec::new();
        if !(self.compositor && self.shell) {
            return acts;
        }
        let fr = self.fractional;
        let ghost orig = self.monitors@;
        let mut i: usize = 0;
        while i < self.monitors.len()
            invariant
                self.monitors@.len() == orig.len(),
                i <= orig.len(),
                fr == self.fractional,
                forall|j: int|
                    0 <= j < i ==> self.monitors@[j] == spec_reconciled_monitor(
                        #[trigger] orig[j],
                        fr,
                    ),
                forall|j: int| i <= j < orig.len() ==> self.monitors@[j] == orig[j],
                acts@ == spec_reconcile_actions(orig.take(i as int), fr),
                *self == (Lifecycle { monitors: self.monitors, ..*old(self) }),
            decreases orig.len() - i,
        {
            let m = self.monitors[i];
            match m.phase {
                Phase::Unbound => {
                    acts.push(Action::CreateSurface(m.id));
                    if fr {
                        acts.push(Action::GetFractionalScale(m.id));
                    }
                    acts.push(Action::CreateLayerSurface(m.id));
                    acts.push(Action::CommitSurface(m.id));
                    self.monitors[i] = Monitor {
                        phase: Phase::LayerSurfaceRequested,
                        fractional_object: fr,
                        ..m
                    };
                },
                Phase::SurfaceCreated => {
                    acts.push(Action::CreateLayerSurface(m.id));
                    acts.push(Action::CommitSurface(m.id));
                    self.monitors[i] = Monitor { phase: Phase::LayerSurfaceRequested, ..m };
                },
                Phase::LayerSurfaceRequested => {},
                Phase::Configured => {},
                Phase::Presenting => {},
            }
            proof {
                lemma_reconcile_take_snoc(orig, fr, i as int);
                assert(acts@ =~= spec_reconcile_actions(orig.take(i as int + 1), fr));
            }
            i = i + 1;
        }
        proof {
            assert(orig.take(orig.len() as int) =~= orig);
            assert forall|j: int|
                0 <= j < self.monitors@.len() implies (#[trigger] self.monitors@[j]).id
                == orig[j].id && (self.monitors@[j].phase.spec_has_target()
                <==> orig[j].phase.spec_has_target()) && self.monitors@[j].scale_120
                == orig[j].scale_120 by {
                assert(self.monitors@[j] == spec_reconciled_monitor(orig[j], fr));
            }
            assert forall|id2: BarId| #[trigger]
                self.store.spec_contains(id2) implies self.spec_has_monitor(id2) by {
                assert(old(self).spec_has_monitor(id2));
                let j = choose|j: int|
                    0 <= j < orig.len() && (#[trigger] orig[j]).id == id2;
                assert(self.monitors@[j].id == id2);
            }
        }
        acts
    }

    /// Records the output's pixel mode size. An unknown id is a stale
    /// event and is ignored.
    pub fn handle_mode(&mut self, id: BarId, width: i32, height: i32)
        requires
            old(self).spec_wf(),
        ensures
            final(self).spec_wf(),
            final(self).store == old(self).store,
            !old(self).spec_has_monitor(id) ==> *final(self) == *old(self),
            old(self).spec_has_monitor(id) ==> *final(self) == (Lifecycle {
                monitors: final(self).monitors,
                ..*old(self)
            }) && final(self).monitors@ == old(self).monitors@.update(
                old(self).spec_monitor_index(id),
                Monitor { width, height, ..old(self).spec_monitor(id) },
            ),
    {
        let found = self.find_monitor(id);
        match found {
            Option::Some(i) => {
                let m = self.monitors[i];
                self.monitors[i] = Monitor { width, height, ..m };
                proof {
                    self.lemma_update_same_shape(*old(self), i as int);
                }
            },
            Option::None => {},
        }
    }

    /// Records the output's logical position. An unknown id is
    /// ignored.
    pub fn handle_geometry(&mut self, id: BarId, x: i32, y: i32)
        requires
            old(self).spec_wf(),
        ensures
            final(self).spec_wf(),
            final(self).store == old(self).store,
            !old(self).spec_has_monitor(id) ==> *final(self) == *old(self),
            old(self).spec_has_monitor(id) ==> *final(self) == (Lifecycle {
                monitors: final(self).monitors,
                ..*old(self)
            }) && final(self).monitors@ == old(self).monitors@.update(
                old(self).spec_monitor_index(id),
                Monitor { x, y, ..old(self).spec_monitor(id) },
            ),
    {
        let found = self.find_monitor(id);
        match found {
            Option::Some(i) => {
                let m = self.monitors[i];
                self.monitors[i] = Monitor { x, y, ..m };
                proof {
                    self.lemma_update_same_shape(*old(self), i as int);
                }
            },
            Option::None => {},
        }
    }

    /// After an update at index `i` that keeps the monitor's id, phase
    /// and scale, and leaves the store alone, the invariant still
    /// holds.
    proof fn lemma_update_same_shape(self, prev: Lifecycle, i: int)
        requires
            prev.spec_wf(),
            self.store == prev.store,
            self.monitors@.len() == prev.monitors@.len(),
            0 <= i < prev.monitors@.len(),
            forall|j: int|
                0 <= j < prev.monitors@.len() && j != i ==> self.monitors@[j]
                    == prev.monitors@[j],
            self.monitors@[i].id == prev.monitors@[i].id,
            self.monitors@[i].phase == prev.monitors@[i].phase,
            self.monitors@[i].scale_120 == prev.monitors@[i].scale_120,
        ensures
            self.spec_wf(),
    {
        assert forall|a: int, b: int|
            0 <= a < b < self.monitors@.len() implies (#[trigger] self.monitors@[a]).id != (
        #[trigger] self.monitors@[b]).id by {
            assert(prev.monitors@[a].id != prev.monitors@[b].id);
        }
        assert forall|j: int|
            0 <= j < self.monitors@.len() implies (self.store.spec_contains(
                (#[trigger] self.monitors@[j]).id,
            ) <==> self.monitors@[j].phase.spec_has_target()) by {
            assert(prev.store.spec_contains(prev.monitors@[j].id)
                <==> prev.monitors@[j].phase.spec_has_target());
        }
        assert forall|id2: BarId| #[trigger]
            self.store.spec_contains(id2) implies self.spec_has_monitor(id2) by {
            assert(prev.spec_has_monitor(id2));
            let j = choose|j: int|
                0 <= j < prev.monitors@.len() && (#[trigger] prev.monitors@[j]).id == id2;
            assert(self.monitors@[j].id == id2);
        }
        assert forall|j: int|
            0 <= j < self.monitors@.len() && self.store.spec_contains(
                (#[trigger] self.monitors@[j]).id,
            ) implies self.store.spec_entry(self.monitors@[j].id).scale_120
            == self.monitors@[j].scale_120 by {
            assert(prev.store.spec_contains(prev.monitors@[j].id) ==> prev.store.spec_entry(
                prev.monitors@[j].id,
            ).scale_120 == prev.monitors@[j].scale_120);
        }
    }

    /// The compositor's configure acknowledgment for a layer surface,
    /// carrying the assigned pixel dimensions. This is the only point
    /// at which a GPU presentation surface is created, because pixel
    /// dimensions are unknown before it; it is created exactly when
    /// the dimensions are usable. Unknown ids and configures before
    /// the layer surface exists are stale events and are ignored; an
    /// already configured surface is re-acknowledged only.
    pub fn handle_configure(&mut self, id: BarId, serial: u32, width: u32, height: u32) -> (acts:
        Vec<Action>)
        requires
            old(self).spec_wf(),
        ensures
            final(self).spec_wf(),
            *final(self) == (Lifecycle {
                monitors: final(self).monitors,
                store: final(self).store,
                ..*old(self)
            }),
            (!old(self).spec_has_monitor(id) || old(self).spec_monitor(id).phase is Unbound || old(
                self,
            ).spec_monitor(id).phase is SurfaceCreated) ==> *final(self) == *old(self) && acts@
                == Seq::<Action>::empty(),
            old(self).spec_has_monitor(id) && old(self).spec_monitor(id).phase.spec_has_target()
                ==> *final(self) == *old(self) && acts@ == seq![Action::AckConfigure(id, serial)],
            old(self).spec_has_monitor(id) && old(self).spec_monitor(
                id,
            ).phase is LayerSurfaceRequested ==> {
                let m = old(self).spec_monitor(id);
                if width > 0 && height > 0 && spec_scaled(width, m.scale_120) <= u32::MAX
                    && spec_scaled(height, m.scale_120) <= u32::MAX {
                    &&& final(self).monitors@ == old(self).monitors@.update(
                        old(self).spec_monitor_index(id),
                        Monitor { phase: Phase::Configured, ..m },
                    )
                    &&& final(self).store.entries@ == old(self).store.entries@.push(
                        crate::render::RenderEntry {
                            id,
                            logical_width: width,
                            logical_height: height,
                            scale_120: m.scale_120,
                            tex_width: spec_scaled(width, m.scale_120) as u32,
                            tex_height: spec_scaled(height, m.scale_120) as u32,
                            cursor: Option::<crate::math::Pos>::None,
                        },
                    )
                    &&& acts@ == seq![
                        Action::AckConfigure(id, serial),
                        Action::CreateGpuSurface(id, width, height),
                        Action::RenderBar(id),
                    ]
                } else {
                    &&& *final(self) == *old(self)
                    &&& acts@ == seq![Action::AckConfigure(id, serial)]
                }
            },
    {
        let mut acts: Vec<Action> = Vec::new();
        let found = self.find_monitor(id);
        let i = match found {
            Option::Some(i) => i,
            Option::None => {
                return acts;
            },
        };
        let m = self.monitors[i];
        match m.phase {
            Phase::Unbound => acts,
            Phase::SurfaceCreated => acts,
            Phase::Configured => {
                acts.push(Action::AckConfigure(id, serial));
                proof {
                    assert(acts@ =~= seq![Action::AckConfigure(id, serial)]);
                }
                acts
            },
            Phase::Presenting => {
                acts.push(Action::AckConfigure(id, serial));
                proof {
                    assert(acts@ =~= seq![Action::AckConfigure(id, serial)]);
                }
                acts
            },
            Phase::LayerSurfaceRequested => {
                acts.push(Action::AckConfigure(id, serial));
                if width > 0 && height > 0 && scale_fits(width, m.scale_120) && scale_fits(
                    height,
                    m.scale_120,
                ) {
                    self.monitors[i] = Monitor { phase: Phase::Configured, ..m };
                    proof {
                        assert(!old(self).store.spec_contains(id));
                    }
                    self.store.create_bar(id, width, height, m.scale_120);
                    acts.push(Action::CreateGpuSurface(id, width, height));
                    acts.push(Action::RenderBar(id));
                    proof {
                        assert(acts@ =~= seq![
                            Action::AckConfigure(id, serial),
                            Action::CreateGpuSurface(id, width, height),
                            Action::RenderBar(id),
                        ]);
                        let i_ = i as int;
                        assert forall|a: int, b: int|
                            0 <= a < b < self.monitors@.len() implies (
                        #[trigger] self.monitors@[a]).id != (#[trigger] self.monitors@[b]).id by {
                            assert(old(self).monitors@[a].id != old(self).monitors@[b].id);
                        }
                        assert forall|j: int|
                            0 <= j < self.monitors@.len() implies (self.store.spec_contains(
                                (#[trigger] self.monitors@[j]).id,
                            ) <==> self.monitors@[j].phase.spec_has_target()) by {
                            if j != i_ {
                                assert(self.monitors@[j] == old(self).monitors@[j]);
                                assert(self.monitors@[j].id != id);
                                assert(self.store.spec_contains(self.monitors@[j].id) == old(
                                    self,
                                ).store.spec_contains(self.monitors@[j].id));
                            } else {
                                assert(self.store.spec_contains(id));
                            }
                        }
                        assert forall|id2: BarId| #[trigger]
                            self.store.spec_contains(id2) implies self.spec_has_monitor(id2) by {
                            if id2 == id {
                                assert(self.monitors@[i_].id == id2);
                            } else {
                                assert(old(self).store.spec_contains(id2));
                                assert(old(self).spec_has_monitor(id2));
                                let j = choose|j: int|
                                    0 <= j < old(self).monitors@.len() && (#[trigger] old(
                                        self,
                                    ).monitors@[j]).id == id2;
                                assert(self.monitors@[j].id == id2);
                            }
                        }
                        assert forall|j: int|
                            0 <= j < self.monitors@.len() && self.store.spec_contains(
                                (#[trigger] self.monitors@[j]).id,
                            ) implies self.store.spec_entry(self.monitors@[j].id).scale_120
                            == self.monitors@[j].scale_120 by {
                            if j == i_ {
                                assert(self.store.spec_entry(id).scale_120 == m.scale_120);
                            } else {
                                assert(self.monitors@[j] == old(self).monitors@[j]);
                                assert(self.monitors@[j].id != id);
                                assert(old(self).store.spec_contains(self.monitors@[j].id));
                                assert(self.store.spec_entry(self.monitors@[j].id) == old(
                                    self,
                                ).store.spec_entry(self.monitors@[j].id));
                            }
                        }
                    }
                } else {
                    proof {
                        assert(acts@ =~= seq![Action::AckConfigure(id, serial)]);
                    }
                }
                acts
            },
        }
    }

    /// The first successful present on a configured surface.
    pub fn mark_presented(&mut self, id: BarId)
        requires
            old(self).spec_wf(),
        ensures
            final(self).spec_wf(),
            final(self).store == old(self).store,
            !(old(self).spec_has_monitor(id) && old(self).spec_monitor(id).phase is Configured)
                ==> *final(self) == *old(self),
            old(self).spec_has_monitor(id) && old(self).spec_monitor(id).phase is Configured
                ==> *final(self) == (Lifecycle { monitors: final(self).monitors, ..*old(self) })
                && final(self).monitors@ == old(self).monitors@.update(
                old(self).spec_monitor_index(id),
                Monitor { phase: Phase::Presenting, ..old(self).spec_monitor(id) },
            ),
    {
        let found = self.find_monitor(id);
        match found {
            Option::Some(i) => {
                let m = self.monitors[i];
                match m.phase {
                    Phase::Configured => {
                        self.monitors[i] = Monitor { phase: Phase::Presenting, ..m };
                        proof {
                            let i_ = i as int;
                            assert forall|a: int, b: int|
                                0 <= a < b < self.monitors@.len() implies (
                            #[trigger] self.monitors@[a]).id != (
                            #[trigger] self.monitors@[b]).id by {
                                assert(old(self).monitors@[a].id != old(self).monitors@[b].id);
                            }
                            assert forall|j: int|
                                0 <= j < self.monitors@.len() implies (self.store.spec_contains(
                                    (#[trigger] self.monitors@[j]).id,
                                ) <==> self.monitors@[j].phase.spec_has_target()) by {
                                if j != i_ {
                                    assert(self.monitors@[j] == old(self).monitors@[j]);
                                }
                            }
                            assert forall|id2: BarId| #[trigger]
                                self.store.spec_contains(id2) implies self.spec_has_monitor(
                                id2,
                            ) by {
                                assert(old(self).spec_has_monitor(id2));
                                let j = choose|j: int|
                                    0 <= j < old(self).monitors@.len() && (#[trigger] old(
                                        self,
                                    ).monitors@[j]).id == id2;
                                assert(self.monitors@[j].id == id2);
                            }
                            assert forall|j: int|
                                0 <= j < self.monitors@.len() && self.store.spec_contains(
                                    (#[trigger] self.monitors@[j]).id,
                                ) implies self.store.spec_entry(self.monitors@[j].id).scale_120
                                == self.monitors@[j].scale_120 by {
                                assert(self.monitors@[j].id == old(self).monitors@[j].id
                                    && self.monitors@[j].scale_120 == old(
                                    self,
                                ).monitors@[j].scale_120);
                            }
                        }
                    },
                    _ => {},
                }
            },
            Option::None => {},
        }
    }
}

impl Lifecycle {
    /// Whether a new scale can be applied to this monitor: the store's
    /// texture extents must stay representable.
    pub open spec fn spec_scale_applicable(self, id: BarId, scale_120: u32) -> bool {
        self.store.spec_contains(id) ==> spec_scaled(
            self.store.spec_entry(id).logical_width,
            scale_120,
        ) <= u32::MAX && spec_scaled(self.store.spec_entry(id).logical_height, scale_120)
            <= u32::MAX
    }

    /// The manager after a scale change on `id`: the monitor records
    /// the new factor and the store's texture extent is recomputed
    /// from the logical size.
    pub open spec fn spec_scale_applied(self, other: Lifecycle, id: BarId, scale_120: u32) -> bool {
        &&& other.monitors@ == self.monitors@.update(
            self.spec_monitor_index(id),
            Monitor { scale_120, ..self.spec_monitor(id) },
        )
        &&& (self.store.spec_contains(id) ==> other.store.entries@ == self.store.entries@.update(
            self.store.spec_index_of(id),
            self.store.spec_entry(id).spec_with_scale(scale_120),
        ))
        &&& (!self.store.spec_contains(id) ==> other.store == self.store)
    }

    /// Applies a scale change: updates the monitor, resizes the store
    /// entry, and returns the follow-up actions.
    fn apply_scale(&mut self, i: usize, id: BarId, scale_120: u32)
        requires
            old(self).spec_wf(),
            i < old(self).monitors@.len(),
            old(self).monitors@[i as int].id == id,
            i == old(self).spec_monitor_index(id),
            old(self).spec_scale_applicable(id, scale_120),
        ensures
            final(self).spec_wf(),
            *final(self) == (Lifecycle {
                monitors: final(self).monitors,
                store: final(self).store,
                ..*old(self)
            }),
            old(self).spec_scale_applied(*final(self), id, scale_120),
    {
        let m = self.monitors[i];
        self.monitors[i] = Monitor { scale_120, ..m };
        self.store.set_scale(id, scale_120);
        proof {
            let i_ = i as int;
            assert forall|a: int, b: int|
                0 <= a < b < self.monitors@.len() implies (#[trigger] self.monitors@[a]).id != (
            #[trigger] self.monitors@[b]).id by {
                assert(old(self).monitors@[a].id != old(self).monitors@[b].id);
            }
            assert forall|j: int|
                0 <= j < self.monitors@.len() implies (self.store.spec_contains(
                    (#[trigger] self.monitors@[j]).id,
                ) <==> self.monitors@[j].phase.spec_has_target()) by {
                assert(self.monitors@[j].id == old(self).monitors@[j].id && self.monitors@[j].phase
                    == old(self).monitors@[j].phase);
                assert(self.store.spec_contains(self.monitors@[j].id) == old(
                    self,
                ).store.spec_contains(self.monitors@[j].id));
            }
            assert forall|id2: BarId| #[trigger]
                self.store.spec_contains(id2) implies self.spec_has_monitor(id2) by {
                assert(old(self).store.spec_contains(id2));
                assert(old(self).spec_has_monitor(id2));
                let j = choose|j: int|
                    0 <= j < old(self).monitors@.len() && (#[trigger] old(self).monitors@[j]).id
                        == id2;
                assert(self.monitors@[j].id == id2);
            }
            assert forall|j: int|
                0 <= j < self.monitors@.len() && self.store.spec_contains(
                    (#[trigger] self.monitors@[j]).id,
                ) implies self.store.spec_entry(self.monitors@[j].id).scale_120
                == self.monitors@[j].scale_120 by {
                if j == i_ {
                    assert(old(self).store.spec_contains(id) ==> self.store.spec_entry(
                        id,
                    ).scale_120 == scale_120);
                } else {
                    assert(self.monitors@[j] == old(self).monitors@[j]);
                    assert(self.monitors@[j].id != id);
                    if self.store.spec_contains(self.monitors@[j].id) {
                        assert(old(self).store.spec_contains(self.monitors@[j].id));
                        assert(self.store.spec_entry(self.monitors@[j].id) == old(
                            self,
                        ).store.spec_entry(self.monitors@[j].id));
                    }
                }
            }
        }
    }

    /// The surface's preferred integer buffer scale. While the
    /// fractional-scale extension is bound it is authoritative and
    /// this event is ignored; otherwise a changed factor is applied:
    /// the texture is resized from the logical size, the buffer scale
    /// re-issued, the surface recommitted, and the bar re-rendered.
    /// Unusable factors and unknown ids are ignored.
    pub fn handle_integer_scale(&mut self, id: BarId, factor: i32) -> (acts: Vec<Action>)
        requires
            old(self).spec_wf(),
        ensures
            final(self).spec_wf(),
            *final(self) == (Lifecycle {
                monitors: final(self).monitors,
                store: final(self).store,
                ..*old(self)
            }),
            ({
                let applies = {
                    &&& !old(self).fractional
                    &&& old(self).spec_has_monitor(id)
                    &&& 1 <= factor <= 35_791_394
                    &&& old(self).spec_monitor(id).scale_120 != factor * 120
                    &&& old(self).spec_scale_applicable(id, (factor * 120) as u32)
                };
                if applies {
                    old(self).spec_scale_applied(*final(self), id, (factor * 120) as u32) && acts@
                        == seq![
                        Action::SetBufferScale(id, factor),
                        Action::SetBarScale(id, (factor * 120) as u32),
                        Action::CommitSurface(id),
                        Action::RenderBar(id),
                    ]
                } else {
                    *final(self) == *old(self) && acts@ == Seq::<Action>::empty()
                }
            }),
    {
        let mut acts: Vec<Action> = Vec::new();
        if self.fractional {
            return acts;
        }
        if factor < 1 || factor > 35_791_394 {
            return acts;
        }
        let scale_120 = factor as u32 * 120;
        let found = self.find_monitor(id);
        let i = match found {
            Option::Some(i) => i,
            Option::None => {
                return acts;
            },
        };
        let m = self.monitors[i];
        if m.scale_120 == scale_120 {
            return acts;
        }
        if self.store.contains(id) {
            let fits = match self.logical_size(id) {
                Option::Some((lw, lh)) => scale_fits(lw, scale_120) && scale_fits(lh, scale_120),
                Option::None => true,
            };
            if !fits {
                return acts;
            }
        }
        self.apply_scale(i, id, scale_120);
        acts.push(Action::SetBufferScale(id, factor));
        acts.push(Action::SetBarScale(id, scale_120));
        acts.push(Action::CommitSurface(id));
        acts.push(Action::RenderBar(id));
        proof {
            assert(acts@ =~= seq![
                Action::SetBufferScale(id, factor),
                Action::SetBarScale(id, scale_120),
                Action::CommitSurface(id),
                Action::RenderBar(id),
            ]);
        }
        acts
    }

    /// The fractional-scale extension's preferred scale, in 1/120ths;
    /// when present this extension is authoritative. A changed, usable
    /// scale is applied as for the integer path, except that no buffer
    /// scale is re-issued. Unknown ids, monitors without a surface and
    /// unusable scales are ignored.
    pub fn handle_fractional_scale(&mut self, id: BarId, scale_120: u32) -> (acts: Vec<Action>)
        requires
            old(self).spec_wf(),
        ensures
            final(self).spec_wf(),
            *final(self) == (Lifecycle {
                monitors: final(self).monitors,
                store: final(self).store,
                ..*old(self)
            }),
            ({
                let applies = {
                    &&& old(self).spec_has_monitor(id)
                    &&& !(old(self).spec_monitor(id).phase is Unbound)
                    &&& scale_120 >= 1
                    &&& old(self).spec_monitor(id).scale_120 != scale_120
                    &&& old(self).spec_scale_applicable(id, scale_120)
                };
                if applies {
                    old(self).spec_scale_applied(*final(self), id, scale_120) && acts@ == seq![
                        Action::SetBarScale(id, scale_120),
                        Action::CommitSurface(id),
                        Action::RenderBar(id),
                    ]
                } else {
                    *final(self) == *old(self) && acts@ == Seq::<Action>::empty()
                }
            }),
    {
        let mut acts: Vec<Action> = Vec::new();
        if scale_120 < 1 {
            return acts;
        }
        let found = self.find_monitor(id);
        let i = match found {
            Option::Some(i) => i,
            Option::None => {
                return acts;
            },
        };
        let m = self.monitors[i];
        match m.phase {
            Phase::Unbound => {
                return acts;
            },
            _ => {},
        }
        if m.scale_120 == scale_120 {
            return acts;
        }
        if self.store.contains(id) {
            let fits = match self.logical_size(id) {
                Option::Some((lw, lh)) => scale_fits(lw, scale_120) && scale_fits(lh, scale_120),
                Option::None => true,
            };
            if !fits {
                return acts;
            }
        }
        self.apply_scale(i, id, scale_120);
        acts.push(Action::SetBarScale(id, scale_120));
        acts.push(Action::CommitSurface(id));
        acts.push(Action::RenderBar(id));
        proof {
            assert(acts@ =~= seq![
                Action::SetBarScale(id, scale_120),
                Action::CommitSurface(id),
                Action::RenderBar(id),
            ]);
        }
        acts
    }

    /// The logical size the bar was configured with, if its target
    /// exists.
    fn logical_size(&self, id: BarId) -> (r: Option<(u32, u32)>)
        requires
            self.store.spec_wf(),
        ensures
            match r {
                Option::Some(wh) => self.store.spec_contains(id) && wh.0 == self.store.spec_entry(
                    id,
                ).logical_width && wh.1 == self.store.spec_entry(id).logical_height,
                Option::None => !self.store.spec_contains(id),
            },
    {
        match self.store.tex_size(id) {
            Option::Some(_) => {
                let e = self.store.entries[self.store_index(id)];
                Option::Some((e.logical_width, e.logical_height))
            },
            Option::None => Option::None,
        }
    }

    /// Index of `id` in the store; only called when present.
    fn store_index(&self, id: BarId) -> (r: usize)
        requires
            self.store.spec_wf(),
            self.store.spec_contains(id),
        ensures
            r < self.store.entries@.len(),
            r == self.store.spec_index_of(id),
    {
        let mut i: usize = 0;
        while i < self.store.entries.len()
            invariant
                self.store.spec_wf(),
                self.store.spec_contains(id),
                i <= self.store.entries@.len(),
                forall|j: int| 0 <= j < i ==> (#[trigger] self.store.entries@[j]).id != id,
            decreases self.store.entries@.len() - i,
        {
            if self.store.entries[i].id == id {
                proof {
                    let w = self.store.spec_index_of(id);
                    if w != i {
                        assert(self.store.entries@[w].id == id && self.store.entries@[i as int].id
                            == id);
                    }
                }
                return i;
            }
            i = i + 1;
        }
        proof {
            let w = self.store.spec_index_of(id);
            assert(self.store.entries@[w].id == id);
            assert(false);
        }
        0
    }

    /// The output global went away, or the connection is tearing this
    /// output down: the monitor and its presentation target are
    /// destroyed together.
    pub fn remove_output(&mut self, id: BarId)
        requires
            old(self).spec_wf(),
        ensures
            final(self).spec_wf(),
            *final(self) == (Lifecycle {
                monitors: final(self).monitors,
                store: final(self).store,
                ..*old(self)
            }),
            !final(self).spec_has_monitor(id),
            !final(self).store.spec_contains(id),
            !old(self).spec_has_monitor(id) ==> final(self).monitors@ == old(self).monitors@,
            old(self).spec_has_monitor(id) ==> final(self).monitors@ == old(
                self,
            ).monitors@.remove(old(self).spec_monitor_index(id)),
    {
        let found = self.find_monitor(id);
        match found {
            Option::Some(i) => {
                self.monitors.remove(i);
                self.store.remove(id);
                proof {
                    let i_ = i as int;
                    assert forall|a: int, b: int|
                        0 <= a < b < self.monitors@.len() implies (#[trigger] self.monitors@[a]).id
                        != (#[trigger] self.monitors@[b]).id by {
                        if b < i_ {
                            assert(old(self).monitors@[a].id != old(self).monitors@[b].id);
                        } else if a < i_ {
                            assert(old(self).monitors@[a].id != old(self).monitors@[b + 1].id);
                        } else {
                            assert(old(self).monitors@[a + 1].id != old(self).monitors@[b + 1].id);
                        }
                    }
                    assert forall|j: int|
                        0 <= j < self.monitors@.len() implies (self.store.spec_contains(
                            (#[trigger] self.monitors@[j]).id,
                        ) <==> self.monitors@[j].phase.spec_has_target()) by {
                        let jo: int = if j < i_ {
                            j
                        } else {
                            j + 1
                        };
                        assert(self.monitors@[j] == old(self).monitors@[jo]);
                        assert(old(self).monitors@[jo].id != id);
                        assert(self.store.spec_contains(self.monitors@[j].id) == old(
                            self,
                        ).store.spec_contains(self.monitors@[j].id));
                    }
                    assert forall|id2: BarId| #[trigger]
                        self.store.spec_contains(id2) implies self.spec_has_monitor(id2) by {
                        assert(old(self).store.spec_contains(id2) && id2 != id);
                        assert(old(self).spec_has_monitor(id2));
                        let j = choose|j: int|
                            0 <= j < old(self).monitors@.len() && (#[trigger] old(
                                self,
                            ).monitors@[j]).id == id2;
                        if j < i_ {
                            assert(self.monitors@[j].id == id2);
                        } else {
                            assert(j != i_);
                            assert(self.monitors@[j - 1].id == id2);
                        }
                    }
                    assert forall|j: int|
                        0 <= j < self.monitors@.len() && self.store.spec_contains(
                            (#[trigger] self.monitors@[j]).id,
                        ) implies self.store.spec_entry(self.monitors@[j].id).scale_120
                        == self.monitors@[j].scale_120 by {
                        let jo: int = if j < i_ {
                            j
                        } else {
                            j + 1
                        };
                        assert(self.monitors@[j] == old(self).monitors@[jo]);
                        assert(self.monitors@[j].id != id);
                        assert(old(self).store.spec_contains(self.monitors@[j].id));
                        assert(self.store.spec_entry(self.monitors@[j].id) == old(
                            self,
                        ).store.spec_entry(self.monitors@[j].id));
                    }
                    if self.spec_has_monitor(id) {
                        let j = choose|j: int|
                            0 <= j < self.monitors@.len() && (#[trigger] self.monitors@[j]).id
                                == id;
                        if j < i_ {
                            assert(old(self).monitors@[j].id == id);
                            assert(false);
                        } else {
                            assert(old(self).monitors@[j + 1].id == id);
                            assert(false);
                        }
                    }
                }
            },
            Option::None => {
                proof {
                    if old(self).store.spec_contains(id) {
                        assert(old(self).spec_has_monitor(id));
                    }
                }
                self.store.remove(id);
            },
        }
    }
}

/// A GPU presentation target exists for a monitor exactly when that
/// monitor's configure acknowledgment carried non-zero pixel
/// dimensions — that is, exactly in the `Configured` and `Presenting`
/// phases, which are entered nowhere else.
pub proof fn lemma_presentation_target_iff_configured(lc: Lifecycle, i: int)
    requires
        lc.spec_wf(),
        0 <= i < lc.monitors@.len(),
    ensures
        lc.store.spec_contains(lc.monitors@[i].id) <==> lc.monitors@[i].phase.spec_has_target(),
{
}

/// Whether scaling `logical` by `scale_120` stays representable.
fn scale_fits(logical: u32, scale_120: u32) -> (r: bool)
    ensures
        r == (spec_scaled(logical, scale_120) <= u32::MAX),
{
    proof {
        assert(logical * scale_120 <= 0xffff_ffff * 0xffff_ffff) by (nonlinear_arith)
            requires
                logical <= 0xffff_ffff,
                scale_120 <= 0xffff_ffff,
                0 <= logical,
                0 <= scale_120,
        ;
    }
    logical as u64 * scale_120 as u64 / 120 <= u32::MAX as u64
}

} // verus!
