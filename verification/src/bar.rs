//! Per-bar state: module slots in their three groups, the computed
//! positions, hover tracking, and the dirtiness the scheduler reads.
//!
//! The bar does not run modules. The embedding measures each module's
//! width and reports its declared cadence; the bar computes where every
//! module sits, which module the pointer is over, and when a re-layout
//! or re-render is owed.

use vstd::prelude::*;

use crate::module::{
    spec_layout_demand, spec_render_demand, layout_demand, render_demand, ModuleKey, Updater,
};

verus! {

/// The scheduler's record of one module.
#[derive(Clone, Copy, Debug, PartialEq, Eq, Structural)]
pub struct ModuleSlot {
    /// Cadence the module last declared.
    pub updater: Updater,
    /// Level-triggered dirty flag, set by an external data source and
    /// cleared only when a pass has consumed it.
    pub pending: bool,
    /// Measured logical width of the module's content.
    pub width: u32,
    /// Computed offset of the module's left edge within the bar.
    pub pos: u32,
}

impl ModuleSlot {
    pub fn new(updater: Updater) -> (r: ModuleSlot)
        ensures
            r == (ModuleSlot { updater, pending: false, width: 0, pos: 0 }),
    {
        ModuleSlot { updater, pending: false, width: 0, pos: 0 }
    }
}

/// Sum of the widths of the first `n` slots.
pub open spec fn spec_sum(s: Seq<ModuleSlot>, n: int) -> int
    decreases n,
{
    if n <= 0 {
        0
    } else {
        spec_sum(s, n - 1) + s[n - 1].width
    }
}

/// Total width of a group.
pub open spec fn spec_total(s: Seq<ModuleSlot>) -> int {
    spec_sum(s, s.len() as int)
}

pub proof fn lemma_sum_monotone(s: Seq<ModuleSlot>, m: int, n: int)
    requires
        0 <= m <= n,
    ensures
        spec_sum(s, m) <= spec_sum(s, n),
    decreases n,
{
    if m < n {
        lemma_sum_monotone(s, m, n - 1);
    }
}

/// The group with every slot's `pos` filled in: slot `i` sits at
/// `base` plus the widths of the slots before it.
pub open spec fn spec_positioned(s: Seq<ModuleSlot>, base: int) -> Seq<ModuleSlot> {
    Seq::new(s.len(), |i: int| ModuleSlot { pos: (base + spec_sum(s, i)) as u32, ..s[i] })
}

/// One bar: the three module groups with their scheduling state, the
/// hover target, and the draw bookkeeping.
pub struct BarLayout {
    /// Logical width of the strip.
    pub width: u32,
    /// Logical height of the strip.
    pub height: u32,
    /// Scale factor in 1/120ths of a pixel per logical pixel.
    pub scale_120: u32,
    /// Timestamp (ms) of the last completed render.
    pub last_draw: u64,
    /// Redraw regardless of any module's cadence: set on creation, on
    /// pointer changes and on scale changes.
    pub force_dirty: bool,
    /// The module under the pointer, if any. There is at most one.
    pub hover: Option<ModuleKey>,
    pub left: Vec<ModuleSlot>,
    pub center: Vec<ModuleSlot>,
    pub right: Vec<ModuleSlot>,
}

/// A change of hover target: the module left and the module entered.
#[derive(Clone, Copy, Debug, PartialEq, Eq, Structural)]
pub struct HoverChange {
    pub from: Option<ModuleKey>,
    pub to: Option<ModuleKey>,
}

impl BarLayout {
    /// Groups fit in the bar, and every slot's right edge is
    /// representable.
    /// Every slot is reachable by a key: no group outgrows the key
    /// space.
    pub open spec fn spec_keyable(self) -> bool {
        &&& self.left@.len() <= u32::MAX
        &&& self.center@.len() <= u32::MAX
        &&& self.right@.len() <= u32::MAX
    }

    pub open spec fn spec_wf(self) -> bool {
        &&& self.spec_keyable()
        &&& spec_total(self.left@) <= self.width
        &&& spec_total(self.center@) <= self.width
        &&& spec_total(self.right@) <= self.width
        &&& forall|k: ModuleKey|
            self.spec_valid_key(k) ==> (#[trigger] self.spec_slot(k)).pos + self.spec_slot(k).width
                <= u32::MAX
    }

    pub open spec fn spec_group(self, k: ModuleKey) -> Seq<ModuleSlot> {
        match k {
            ModuleKey::Left(_) => self.left@,
            ModuleKey::Middle(_) => self.center@,
            ModuleKey::Right(_) => self.right@,
        }
    }

    pub open spec fn spec_key_index(k: ModuleKey) -> int {
        match k {
            ModuleKey::Left(i) => i as int,
            ModuleKey::Middle(i) => i as int,
            ModuleKey::Right(i) => i as int,
        }
    }

    pub open spec fn spec_key_rank(k: ModuleKey) -> int {
        match k {
            ModuleKey::Left(_) => 0,
            ModuleKey::Middle(_) => 1,
            ModuleKey::Right(_) => 2,
        }
    }

    /// `a` is visited before `b` in left, center, right order.
    pub open spec fn spec_key_before(a: ModuleKey, b: ModuleKey) -> bool {
        Self::spec_key_rank(a) < Self::spec_key_rank(b) || (Self::spec_key_rank(a)
            == Self::spec_key_rank(b) && Self::spec_key_index(a) < Self::spec_key_index(b))
    }

    pub open spec fn spec_valid_key(self, k: ModuleKey) -> bool {
        Self::spec_key_index(k) < self.spec_group(k).len()
    }

    pub open spec fn spec_slot(self, k: ModuleKey) -> ModuleSlot {
        self.spec_group(k)[Self::spec_key_index(k)]
    }

    /// The point lies inside module `k`: between its edges, within the
    /// bar's height band.
    pub open spec fn spec_slot_hit(self, k: ModuleKey, x: u32, y: u32) -> bool {
        &&& self.spec_valid_key(k)
        &&& self.spec_slot(k).pos <= x <= self.spec_slot(k).pos + self.spec_slot(k).width
        &&& y <= self.height
    }

    /// `r` is the first module in paint order that contains the point,
    /// or `None` when none does.
    pub open spec fn spec_hit_result(self, r: Option<ModuleKey>, x: u32, y: u32) -> bool {
        match r {
            Option::None => forall|k: ModuleKey| !self.spec_slot_hit(k, x, y),
            Option::Some(k) => self.spec_slot_hit(k, x, y) && forall|k2: ModuleKey|
                Self::spec_key_before(k2, k) ==> !self.spec_slot_hit(k2, x, y),
        }
    }

    /// An empty bar of the given logical size; its first render is
    /// forced.
    pub fn new(width: u32, height: u32, scale_120: u32) -> (r: BarLayout)
        ensures
            r.width == width,
            r.height == height,
            r.scale_120 == scale_120,
            r.last_draw == 0,
            r.force_dirty,
            r.hover is None,
            r.left@.len() == 0,
            r.center@.len() == 0,
            r.right@.len() == 0,
            r.spec_wf(),
    {
        BarLayout {
            width,
            height,
            scale_120,
            last_draw: 0,
            force_dirty: true,
            hover: Option::None,
            left: Vec::new(),
            center: Vec::new(),
            right: Vec::new(),
        }
    }

    /// Lays the groups out: the left group packed from the left edge,
    /// the center group centered as one block, the right group packed
    /// against the right edge.
    pub fn update_positions(&mut self)
        requires
            old(self).spec_wf(),
        ensures
            final(self).left@ == spec_positioned(old(self).left@, 0),
            final(self).center@ == spec_positioned(
                old(self).center@,
                old(self).width / 2 - spec_total(old(self).center@) / 2,
            ),
            final(self).right@ == spec_positioned(
                old(self).right@,
                old(self).width - spec_total(old(self).right@),
            ),
            *final(self) == (BarLayout {
                left: final(self).left,
                center: final(self).center,
                right: final(self).right,
                ..*old(self)
            }),
            final(self).spec_wf(),
    {
        proof {
            lemma_sum_monotone(self.center@, 0, self.center@.len() as int);
            lemma_sum_monotone(self.right@, 0, self.right@.len() as int);
        }
        let total_center = group_total(&self.center);
        let total_right = group_total(&self.right);
        position_group(&mut self.left, 0);
        position_group(&mut self.center, self.width / 2 - total_center / 2);
        position_group(&mut self.right, self.width - total_right);
        proof {
            lemma_positioned_wf(old(self).left@, 0, self.width as int);
            lemma_positioned_wf(
                old(self).center@,
                old(self).width / 2 - spec_total(old(self).center@) / 2,
                self.width as int,
            );
            lemma_positioned_wf(
                old(self).right@,
                old(self).width - spec_total(old(self).right@),
                self.width as int,
            );
            assert(spec_total(self.left@) == spec_total(old(self).left@)) by {
                lemma_positioned_total(old(self).left@, 0);
            }
            assert(spec_total(self.center@) == spec_total(old(self).center@)) by {
                lemma_positioned_total(
                    old(self).center@,
                    old(self).width / 2 - spec_total(old(self).center@) / 2,
                );
            }
            assert(spec_total(self.right@) == spec_total(old(self).right@)) by {
                lemma_positioned_total(
                    old(self).right@,
                    old(self).width - spec_total(old(self).right@),
                );
            }
        }
    }
}

impl BarLayout {
    /// Appends a module to a group; the slot starts unmeasured, at the
    /// origin, with its flag clear.
    pub fn push_module(&mut self, key_group: ModuleKey, updater: Updater)
        ensures
            *final(self) == (BarLayout {
                left: final(self).left,
                center: final(self).center,
                right: final(self).right,
                ..*old(self)
            }),
            match key_group {
                ModuleKey::Left(_) => final(self).left@ == old(self).left@.push(
                    ModuleSlot { updater, pending: false, width: 0, pos: 0 },
                ) && final(self).center == old(self).center
                    && final(self).right == old(self).right,
                ModuleKey::Middle(_) => final(self).center@ == old(self).center@.push(
                    ModuleSlot { updater, pending: false, width: 0, pos: 0 },
                ) && final(self).left == old(self).left && final(self).right == old(self).right,
                ModuleKey::Right(_) => final(self).right@ == old(self).right@.push(
                    ModuleSlot { updater, pending: false, width: 0, pos: 0 },
                ) && final(self).left == old(self).left && final(self).center == old(self).center,
            },
    {
        let slot = ModuleSlot::new(updater);
        match key_group {
            ModuleKey::Left(_) => self.left.push(slot),
            ModuleKey::Middle(_) => self.center.push(slot),
            ModuleKey::Right(_) => self.right.push(slot),
        }
    }

    /// Replaces the slot at `key`; the groups are otherwise untouched.
    fn set_slot(&mut self, key: ModuleKey, slot: ModuleSlot)
        requires
            old(self).spec_valid_key(key),
        ensures
            *final(self) == (BarLayout {
                left: final(self).left,
                center: final(self).center,
                right: final(self).right,
                ..*old(self)
            }),
            final(self).spec_group(key) == old(self).spec_group(key).update(
                BarLayout::spec_key_index(key),
                slot,
            ),
            forall|k2: ModuleKey|
                BarLayout::spec_key_rank(k2) != BarLayout::spec_key_rank(key)
                    ==> #[trigger] final(self).spec_group(k2) == old(self).spec_group(k2),
    {
        match key {
            ModuleKey::Left(i) => {
                self.left[i as usize] = slot;
            },
            ModuleKey::Middle(i) => {
                self.center[i as usize] = slot;
            },
            ModuleKey::Right(i) => {
                self.right[i as usize] = slot;
            },
        }
    }

    fn get_slot(&self, key: ModuleKey) -> (r: ModuleSlot)
        requires
            self.spec_valid_key(key),
        ensures
            r == self.spec_slot(key),
    {
        match key {
            ModuleKey::Left(i) => self.left[i as usize],
            ModuleKey::Middle(i) => self.center[i as usize],
            ModuleKey::Right(i) => self.right[i as usize],
        }
    }

    /// Records the width the embedding measured for `key`'s content.
    pub fn set_width(&mut self, key: ModuleKey, width: u32)
        requires
            old(self).spec_valid_key(key),
        ensures
            *final(self) == (BarLayout {
                left: final(self).left,
                center: final(self).center,
                right: final(self).right,
                ..*old(self)
            }),
            final(self).spec_group(key) == old(self).spec_group(key).update(
                BarLayout::spec_key_index(key),
                ModuleSlot { width, ..old(self).spec_slot(key) },
            ),
            forall|k2: ModuleKey|
                BarLayout::spec_key_rank(k2) != BarLayout::spec_key_rank(key)
                    ==> #[trigger] final(self).spec_group(k2) == old(self).spec_group(k2),
    {
        let mut slot = self.get_slot(key);
        slot.width = width;
        self.set_slot(key, slot);
    }

    /// Records the cadence the module now declares.
    pub fn set_updater(&mut self, key: ModuleKey, updater: Updater)
        requires
            old(self).spec_valid_key(key),
        ensures
            *final(self) == (BarLayout {
                left: final(self).left,
                center: final(self).center,
                right: final(self).right,
                ..*old(self)
            }),
            final(self).spec_group(key) == old(self).spec_group(key).update(
                BarLayout::spec_key_index(key),
                ModuleSlot { updater, ..old(self).spec_slot(key) },
            ),
            forall|k2: ModuleKey|
                BarLayout::spec_key_rank(k2) != BarLayout::spec_key_rank(key)
                    ==> #[trigger] final(self).spec_group(k2) == old(self).spec_group(k2),
    {
        let mut slot = self.get_slot(key);
        slot.updater = updater;
        self.set_slot(key, slot);
    }

    /// Sets the module's level-triggered flag: its data source has new
    /// content.
    pub fn mark_module_dirty(&mut self, key: ModuleKey)
        requires
            old(self).spec_valid_key(key),
        ensures
            *final(self) == (BarLayout {
                left: final(self).left,
                center: final(self).center,
                right: final(self).right,
                ..*old(self)
            }),
            final(self).spec_group(key) == old(self).spec_group(key).update(
                BarLayout::spec_key_index(key),
                ModuleSlot { pending: true, ..old(self).spec_slot(key) },
            ),
            forall|k2: ModuleKey|
                BarLayout::spec_key_rank(k2) != BarLayout::spec_key_rank(key)
                    ==> #[trigger] final(self).spec_group(k2) == old(self).spec_group(k2),
    {
        let mut slot = self.get_slot(key);
        slot.pending = true;
        self.set_slot(key, slot);
    }

    /// First module containing the point, in left, center, right paint
    /// order.
    pub fn hit_test(&self, x: u32, y: u32) -> (r: Option<ModuleKey>)
        requires
            self.spec_wf(),
        ensures
            self.spec_hit_result(r, x, y),
    {
        if y > self.height {
            return Option::None;
        }
        let mut i: usize = 0;
        while i < self.left.len()
            invariant
                self.spec_wf(),
                y <= self.height,
                i <= self.left@.len(),
                forall|j: u32| j < i ==> !#[trigger] self.spec_slot_hit(ModuleKey::Left(j), x, y),
            decreases self.left@.len() - i,
        {
            let ghost k = ModuleKey::Left(i as u32);
            proof {
                assert(self.spec_valid_key(k));
                assert(self.spec_slot(k).pos + self.spec_slot(k).width <= u32::MAX);
            }
            let s = self.left[i];
            if x >= s.pos && x <= s.pos + s.width {
                proof {
                    assert forall|k2: ModuleKey| BarLayout::spec_key_before(k2, k) implies !self
                        .spec_slot_hit(k2, x, y) by {
                        match k2 {
                            ModuleKey::Left(j) => {
                                if j < i {
                                    assert(!self.spec_slot_hit(ModuleKey::Left(j), x, y));
                                }
                            },
                            ModuleKey::Middle(_) => {},
                            ModuleKey::Right(_) => {},
                        }
                    }
                }
                return Option::Some(ModuleKey::Left(i as u32));
            }
            i = i + 1;
        }
        proof {
            assert forall|k: ModuleKey| BarLayout::spec_key_rank(k) == 0 implies !self.spec_slot_hit(
                k,
                x,
                y,
            ) by {
                match k {
                    ModuleKey::Left(j) => {
                        if j < self.left@.len() {
                            assert(!self.spec_slot_hit(ModuleKey::Left(j), x, y));
                        }
                    },
                    ModuleKey::Middle(_) => {},
                    ModuleKey::Right(_) => {},
                }
            }
        }
        let mut i: usize = 0;
        while i < self.center.len()
            invariant
                self.spec_wf(),
                y <= self.height,
                i <= self.center@.len(),
                forall|k: ModuleKey|
                    BarLayout::spec_key_rank(k) == 0 ==> !self.spec_slot_hit(k, x, y),
                forall|j: u32|
                    j < i ==> !#[trigger] self.spec_slot_hit(ModuleKey::Middle(j), x, y),
            decreases self.center@.len() - i,
        {
            let ghost k = ModuleKey::Middle(i as u32);
            proof {
                assert(self.spec_valid_key(k));
                assert(self.spec_slot(k).pos + self.spec_slot(k).width <= u32::MAX);
            }
            let s = self.center[i];
            if x >= s.pos && x <= s.pos + s.width {
                proof {
                    assert forall|k2: ModuleKey| BarLayout::spec_key_before(k2, k) implies !self
                        .spec_slot_hit(k2, x, y) by {
                        match k2 {
                            ModuleKey::Left(_) => {
                                assert(BarLayout::spec_key_rank(k2) == 0);
                            },
                            ModuleKey::Middle(j) => {
                                if j < i {
                                    assert(!self.spec_slot_hit(ModuleKey::Middle(j), x, y));
                                }
                            },
                            ModuleKey::Right(_) => {},
                        }
                    }
                }
                return Option::Some(ModuleKey::Middle(i as u32));
            }
            i = i + 1;
        }
        proof {
            assert forall|k: ModuleKey| BarLayout::spec_key_rank(k) <= 1 implies !self.spec_slot_hit(
                k,
                x,
                y,
            ) by {
                match k {
                    ModuleKey::Left(_) => {},
                    ModuleKey::Middle(j) => {
                        if j < self.center@.len() {
                            assert(!self.spec_slot_hit(ModuleKey::Middle(j), x, y));
                        }
                    },
                    ModuleKey::Right(_) => {},
                }
            }
        }
        let mut i: usize = 0;
        while i < self.right.len()
            invariant
                self.spec_wf(),
                y <= self.height,
                i <= self.right@.len(),
                forall|k: ModuleKey|
                    BarLayout::spec_key_rank(k) <= 1 ==> !self.spec_slot_hit(k, x, y),
                forall|j: u32| j < i ==> !#[trigger] self.spec_slot_hit(ModuleKey::Right(j), x, y),
            decreases self.right@.len() - i,
        {
            let ghost k = ModuleKey::Right(i as u32);
            proof {
                assert(self.spec_valid_key(k));
                assert(self.spec_slot(k).pos + self.spec_slot(k).width <= u32::MAX);
            }
            let s = self.right[i];
            if x >= s.pos && x <= s.pos + s.width {
                proof {
                    assert forall|k2: ModuleKey| BarLayout::spec_key_before(k2, k) implies !self
                        .spec_slot_hit(k2, x, y) by {
                        match k2 {
                            ModuleKey::Left(_) => {
                                assert(BarLayout::spec_key_rank(k2) == 0);
                            },
                            ModuleKey::Middle(_) => {
                                assert(BarLayout::spec_key_rank(k2) == 1);
                            },
                            ModuleKey::Right(j) => {
                                if j < i {
                                    assert(!self.spec_slot_hit(ModuleKey::Right(j), x, y));
                                }
                            },
                        }
                    }
                }
                return Option::Some(ModuleKey::Right(i as u32));
            }
            i = i + 1;
        }
        proof {
            assert forall|k: ModuleKey| !self.spec_slot_hit(k, x, y) by {
                if self.spec_valid_key(k) {
                    match k {
                        ModuleKey::Left(j) => assert(!self.spec_slot_hit(
                            ModuleKey::Left(j),
                            x,
                            y,
                        )),
                        ModuleKey::Middle(j) => assert(!self.spec_slot_hit(
                            ModuleKey::Middle(j),
                            x,
                            y,
                        )),
                        ModuleKey::Right(j) => assert(!self.spec_slot_hit(
                            ModuleKey::Right(j),
                            x,
                            y,
                        )),
                    }
                }
            }
        }
        Option::None
    }

    /// Routes pointer presence: records the new hover target found by
    /// hit-testing (or none, when the pointer left), and on a change
    /// forces the bar dirty and reports which module was left and which
    /// was entered, so the embedding can notify them.
    pub fn move_mouse(&mut self, pos: Option<(u32, u32)>) -> (r: Option<HoverChange>)
        requires
            old(self).spec_wf(),
        ensures
            final(self).spec_wf(),
            pos is None ==> final(self).hover is None,
            pos matches Option::Some(p) ==> old(self).spec_hit_result(
                final(self).hover,
                p.0,
                p.1,
            ),
            *final(self) == (BarLayout {
                hover: final(self).hover,
                force_dirty: final(self).force_dirty,
                ..*old(self)
            }),
            match r {
                Option::None => final(self).hover == old(self).hover && final(self).force_dirty
                    == old(self).force_dirty,
                Option::Some(change) => change.from == old(self).hover && change.to
                    == final(self).hover && final(self).hover != old(self).hover
                    && final(self).force_dirty,
            },
    {
        let new_hover = match pos {
            Option::Some((x, y)) => self.hit_test(x, y),
            Option::None => Option::None,
        };
        let r = if new_hover != self.hover {
            let change = HoverChange { from: self.hover, to: new_hover };
            self.hover = new_hover;
            self.force_dirty = true;
            Option::Some(change)
        } else {
            Option::None
        };
        proof {
            assert forall|k: ModuleKey| self.spec_valid_key(k) implies (#[trigger] self.spec_slot(
                k,
            )).pos + self.spec_slot(k).width <= u32::MAX by {
                assert(self.spec_slot(k) == old(self).spec_slot(k));
            }
        }
        r
    }

    /// Click dispatch: re-hit-tests at the given position and, on a
    /// hit, names the module and the click position translated into
    /// that module's own coordinates (its top-left corner is `(0, 0)`).
    pub fn click_mouse(&self, x: u32, y: u32) -> (r: Option<(ModuleKey, u32, u32)>)
        requires
            self.spec_wf(),
        ensures
            match r {
                Option::None => forall|k: ModuleKey| !self.spec_slot_hit(k, x, y),
                Option::Some((k, lx, ly)) => self.spec_slot_hit(k, x, y) && lx == x
                    - self.spec_slot(k).pos && ly == y && (forall|k2: ModuleKey|
                    BarLayout::spec_key_before(k2, k) ==> !self.spec_slot_hit(k2, x, y)),
            },
    {
        match self.hit_test(x, y) {
            Option::Some(k) => {
                let s = self.get_slot(k);
                Option::Some((k, x - s.pos, y))
            },
            Option::None => Option::None,
        }
    }
}

/// The group with every slot's level-triggered flag cleared.
pub open spec fn spec_cleared(s: Seq<ModuleSlot>) -> Seq<ModuleSlot> {
    Seq::new(s.len(), |i: int| ModuleSlot { pending: false, ..s[i] })
}

proof fn lemma_cleared_sum(s: Seq<ModuleSlot>, n: int)
    requires
        0 <= n <= s.len(),
    ensures
        spec_sum(spec_cleared(s), n) == spec_sum(s, n),
    decreases n,
{
    if n > 0 {
        lemma_cleared_sum(s, n - 1);
    }
}

impl BarLayout {
    /// Milliseconds since the last completed render, never negative.
    pub open spec fn spec_elapsed(self, now: u64) -> u64 {
        if now >= self.last_draw {
            (now - self.last_draw) as u64
        } else {
            0
        }
    }

    /// The bar must re-render: a forced redraw is owed, or some
    /// module's cadence demands one.
    pub open spec fn spec_render_dirty(self, now: u64) -> bool {
        self.force_dirty || exists|k: ModuleKey|
            self.spec_valid_key(k) && spec_render_demand(
                (#[trigger] self.spec_slot(k)).updater,
                self.spec_elapsed(now),
                self.spec_slot(k).pending,
            )
    }

    /// The bar must re-lay out: as for rendering, except that a
    /// running animation alone never forces layout.
    pub open spec fn spec_layout_dirty(self, now: u64) -> bool {
        self.force_dirty || exists|k: ModuleKey|
            self.spec_valid_key(k) && spec_layout_demand(
                (#[trigger] self.spec_slot(k)).updater,
                self.spec_elapsed(now),
                self.spec_slot(k).pending,
            )
    }

    pub fn render_dirty(&self, now: u64) -> (r: bool)
        requires
            self.spec_keyable(),
        ensures
            r == self.spec_render_dirty(now),
    {
        if self.force_dirty {
            return true;
        }
        let elapsed = if now >= self.last_draw {
            now - self.last_draw
        } else {
            0
        };
        let in_left = group_render_demand(&self.left, elapsed);
        let in_center = group_render_demand(&self.center, elapsed);
        let in_right = group_render_demand(&self.right, elapsed);
        proof {
            lemma_group_demands_cover(*self, now, elapsed);
        }
        in_left || in_center || in_right
    }

    pub fn layout_dirty(&self, now: u64) -> (r: bool)
        requires
            self.spec_keyable(),
        ensures
            r == self.spec_layout_dirty(now),
    {
        if self.force_dirty {
            return true;
        }
        let elapsed = if now >= self.last_draw {
            now - self.last_draw
        } else {
            0
        };
        let in_left = group_layout_demand(&self.left, elapsed);
        let in_center = group_layout_demand(&self.center, elapsed);
        let in_right = group_layout_demand(&self.right, elapsed);
        proof {
            lemma_group_demands_cover(*self, now, elapsed);
        }
        in_left || in_center || in_right
    }

    /// Bookkeeping after a completed render; see
    /// [`BarLayout::spec_mark_rendered`]. Flags are cleared even on a
    /// render whose cadence an animation drove, so a consumed flag
    /// cannot force an immediate spurious extra render.
    pub fn mark_rendered(&mut self, now: u64)
        requires
            old(self).spec_wf(),
        ensures
            *final(self) == (BarLayout {
                last_draw: now,
                force_dirty: false,
                left: final(self).left,
                center: final(self).center,
                right: final(self).right,
                ..*old(self)
            }),
            final(self).left@ == spec_cleared(old(self).left@),
            final(self).center@ == spec_cleared(old(self).center@),
            final(self).right@ == spec_cleared(old(self).right@),
            final(self).spec_wf(),
    {
        self.last_draw = now;
        self.force_dirty = false;
        clear_group(&mut self.left);
        clear_group(&mut self.center);
        clear_group(&mut self.right);
        proof {
            lemma_cleared_sum(old(self).left@, old(self).left@.len() as int);
            lemma_cleared_sum(old(self).center@, old(self).center@.len() as int);
            lemma_cleared_sum(old(self).right@, old(self).right@.len() as int);
            assert forall|k: ModuleKey| self.spec_valid_key(k) implies (#[trigger] self.spec_slot(
                k,
            )).pos + self.spec_slot(k).width <= u32::MAX by {
                assert(old(self).spec_valid_key(k));
                assert(self.spec_slot(k).pos == old(self).spec_slot(k).pos && self.spec_slot(
                    k,
                ).width == old(self).spec_slot(k).width);
            }
        }
    }

    /// Records a new scale factor; any scale change forces the bar's
    /// next render.
    pub fn set_scale(&mut self, scale_120: u32)
        ensures
            *final(self) == (BarLayout {
                scale_120,
                force_dirty: true,
                ..*old(self)
            }),
    {
        self.scale_120 = scale_120;
        self.force_dirty = true;
    }
}

/// The group demands of a bar cover exactly its key space.
proof fn lemma_group_demands_cover(bar: BarLayout, now: u64, elapsed: u64)
    requires
        bar.spec_keyable(),
        elapsed == bar.spec_elapsed(now),
        !bar.force_dirty,
    ensures
        bar.spec_render_dirty(now) <==> spec_group_render_demand(bar.left@, elapsed)
            || spec_group_render_demand(bar.center@, elapsed) || spec_group_render_demand(
            bar.right@,
            elapsed,
        ),
        bar.spec_layout_dirty(now) <==> spec_group_layout_demand(bar.left@, elapsed)
            || spec_group_layout_demand(bar.center@, elapsed) || spec_group_layout_demand(
            bar.right@,
            elapsed,
        ),
{
    if bar.spec_render_dirty(now) {
        let k = choose|k: ModuleKey|
            bar.spec_valid_key(k) && spec_render_demand(
                (#[trigger] bar.spec_slot(k)).updater,
                elapsed,
                bar.spec_slot(k).pending,
            );
        let i = BarLayout::spec_key_index(k);
        match k {
            ModuleKey::Left(_) => {
                assert(spec_group_render_demand(bar.left@, elapsed)) by {
                    assert(0 <= i < bar.left@.len() && spec_render_demand(
                        bar.left@[i].updater,
                        elapsed,
                        bar.left@[i].pending,
                    ));
                }
            },
            ModuleKey::Middle(_) => {
                assert(spec_group_render_demand(bar.center@, elapsed)) by {
                    assert(0 <= i < bar.center@.len() && spec_render_demand(
                        bar.center@[i].updater,
                        elapsed,
                        bar.center@[i].pending,
                    ));
                }
            },
            ModuleKey::Right(_) => {
                assert(spec_group_render_demand(bar.right@, elapsed)) by {
                    assert(0 <= i < bar.right@.len() && spec_render_demand(
                        bar.right@[i].updater,
                        elapsed,
                        bar.right@[i].pending,
                    ));
                }
            },
        }
    }
    if spec_group_render_demand(bar.left@, elapsed) {
        let i = choose|i: int|
            0 <= i < bar.left@.len() && spec_render_demand(
                (#[trigger] bar.left@[i]).updater,
                elapsed,
                bar.left@[i].pending,
            );
        assert(bar.spec_valid_key(ModuleKey::Left(i as u32)) && spec_render_demand(
            bar.spec_slot(ModuleKey::Left(i as u32)).updater,
            elapsed,
            bar.spec_slot(ModuleKey::Left(i as u32)).pending,
        ));
    }
    if spec_group_render_demand(bar.center@, elapsed) {
        let i = choose|i: int|
            0 <= i < bar.center@.len() && spec_render_demand(
                (#[trigger] bar.center@[i]).updater,
                elapsed,
                bar.center@[i].pending,
            );
        assert(bar.spec_valid_key(ModuleKey::Middle(i as u32)) && spec_render_demand(
            bar.spec_slot(ModuleKey::Middle(i as u32)).updater,
            elapsed,
            bar.spec_slot(ModuleKey::Middle(i as u32)).pending,
        ));
    }
    if spec_group_render_demand(bar.right@, elapsed) {
        let i = choose|i: int|
            0 <= i < bar.right@.len() && spec_render_demand(
                (#[trigger] bar.right@[i]).updater,
                elapsed,
                bar.right@[i].pending,
            );
        assert(bar.spec_valid_key(ModuleKey::Right(i as u32)) && spec_render_demand(
            bar.spec_slot(ModuleKey::Right(i as u32)).updater,
            elapsed,
            bar.spec_slot(ModuleKey::Right(i as u32)).pending,
        ));
    }
    if bar.spec_layout_dirty(now) {
        let k = choose|k: ModuleKey|
            bar.spec_valid_key(k) && spec_layout_demand(
                (#[trigger] bar.spec_slot(k)).updater,
                elapsed,
                bar.spec_slot(k).pending,
            );
        let i = BarLayout::spec_key_index(k);
        match k {
            ModuleKey::Left(_) => {
                assert(spec_group_layout_demand(bar.left@, elapsed)) by {
                    assert(0 <= i < bar.left@.len() && spec_layout_demand(
                        bar.left@[i].updater,
                        elapsed,
                        bar.left@[i].pending,
                    ));
                }
            },
            ModuleKey::Middle(_) => {
                assert(spec_group_layout_demand(bar.center@, elapsed)) by {
                    assert(0 <= i < bar.center@.len() && spec_layout_demand(
                        bar.center@[i].updater,
                        elapsed,
                        bar.center@[i].pending,
                    ));
                }
            },
            ModuleKey::Right(_) => {
                assert(spec_group_layout_demand(bar.right@, elapsed)) by {
                    assert(0 <= i < bar.right@.len() && spec_layout_demand(
                        bar.right@[i].updater,
                        elapsed,
                        bar.right@[i].pending,
                    ));
                }
            },
        }
    }
    if spec_group_layout_demand(bar.left@, elapsed) {
        let i = choose|i: int|
            0 <= i < bar.left@.len() && spec_layout_demand(
                (#[trigger] bar.left@[i]).updater,
                elapsed,
                bar.left@[i].pending,
            );
        assert(bar.spec_valid_key(ModuleKey::Left(i as u32)) && spec_layout_demand(
            bar.spec_slot(ModuleKey::Left(i as u32)).updater,
            elapsed,
            bar.spec_slot(ModuleKey::Left(i as u32)).pending,
        ));
    }
    if spec_group_layout_demand(bar.center@, elapsed) {
        let i = choose|i: int|
            0 <= i < bar.center@.len() && spec_layout_demand(
                (#[trigger] bar.center@[i]).updater,
                elapsed,
                bar.center@[i].pending,
            );
        assert(bar.spec_valid_key(ModuleKey::Middle(i as u32)) && spec_layout_demand(
            bar.spec_slot(ModuleKey::Middle(i as u32)).updater,
            elapsed,
            bar.spec_slot(ModuleKey::Middle(i as u32)).pending,
        ));
    }
    if spec_group_layout_demand(bar.right@, elapsed) {
        let i = choose|i: int|
            0 <= i < bar.right@.len() && spec_layout_demand(
                (#[trigger] bar.right@[i]).updater,
                elapsed,
                bar.right@[i].pending,
            );
        assert(bar.spec_valid_key(ModuleKey::Right(i as u32)) && spec_layout_demand(
            bar.spec_slot(ModuleKey::Right(i as u32)).updater,
            elapsed,
            bar.spec_slot(ModuleKey::Right(i as u32)).pending,
        ));
    }
}

/// Some slot in the group demands a re-render.
pub open spec fn spec_group_render_demand(s: Seq<ModuleSlot>, elapsed: u64) -> bool {
    exists|i: int|
        0 <= i < s.len() && spec_render_demand(
            (#[trigger] s[i]).updater,
            elapsed,
            s[i].pending,
        )
}

/// Some slot in the group demands a re-layout.
pub open spec fn spec_group_layout_demand(s: Seq<ModuleSlot>, elapsed: u64) -> bool {
    exists|i: int|
        0 <= i < s.len() && spec_layout_demand(
            (#[trigger] s[i]).updater,
            elapsed,
            s[i].pending,
        )
}

fn group_render_demand(slots: &Vec<ModuleSlot>, elapsed: u64) -> (r: bool)
    ensures
        r == spec_group_render_demand(slots@, elapsed),
{
    let mut i: usize = 0;
    while i < slots.len()
        invariant
            i <= slots@.len(),
            forall|j: int|
                0 <= j < i ==> !spec_render_demand(
                    (#[trigger] slots@[j]).updater,
                    elapsed,
                    slots@[j].pending,
                ),
        decreases slots@.len() - i,
    {
        let s = slots[i];
        if render_demand(&s.updater, elapsed, s.pending) {
            return true;
        }
        i = i + 1;
    }
    false
}

fn group_layout_demand(slots: &Vec<ModuleSlot>, elapsed: u64) -> (r: bool)
    ensures
        r == spec_group_layout_demand(slots@, elapsed),
{
    let mut i: usize = 0;
    while i < slots.len()
        invariant
            i <= slots@.len(),
            forall|j: int|
                0 <= j < i ==> !spec_layout_demand(
                    (#[trigger] slots@[j]).updater,
                    elapsed,
                    slots@[j].pending,
                ),
        decreases slots@.len() - i,
    {
        let s = slots[i];
        if layout_demand(&s.updater, elapsed, s.pending) {
            return true;
        }
        i = i + 1;
    }
    false
}

/// Clears every slot's level-triggered flag.
fn clear_group(slots: &mut Vec<ModuleSlot>)
    ensures
        final(slots)@ == spec_cleared(old(slots)@),
{
    let ghost orig = slots@;
    let mut i: usize = 0;
    while i < slots.len()
        invariant
            i <= orig.len(),
            slots@.len() == orig.len(),
            forall|j: int| 0 <= j < i ==> slots@[j] == spec_cleared(orig)[j],
            forall|j: int| i <= j < orig.len() ==> slots@[j] == orig[j],
        decreases orig.len() - i,
    {
        let mut slot = slots[i];
        slot.pending = false;
        slots[i] = slot;
        i = i + 1;
    }
    proof {
        assert(slots@ =~= spec_cleared(orig));
    }
}

/// Whether any bar in the collection must re-render: the whole
/// process presents a frame exactly when some bar does.
pub fn needs_render(bars: &Vec<BarLayout>, now: u64) -> (r: bool)
    requires
        forall|i: int| 0 <= i < bars@.len() ==> (#[trigger] bars@[i]).spec_keyable(),
    ensures
        r == exists|i: int| 0 <= i < bars@.len() && (#[trigger] bars@[i]).spec_render_dirty(now),
{
    let mut i: usize = 0;
    while i < bars.len()
        invariant
            i <= bars@.len(),
            forall|j: int| 0 <= j < bars@.len() ==> (#[trigger] bars@[j]).spec_keyable(),
            forall|j: int| 0 <= j < i ==> !(#[trigger] bars@[j]).spec_render_dirty(now),
        decreases bars@.len() - i,
    {
        if bars[i].render_dirty(now) {
            return true;
        }
        i = i + 1;
    }
    false
}

/// At most one module is hovered at any time: the hover target is a
/// single optional key, so two simultaneously hovered keys are the
/// same key. A pointer that left hovers nothing; see `move_mouse`.
pub proof fn lemma_hover_at_most_one(bar: BarLayout, k1: ModuleKey, k2: ModuleKey)
    requires
        bar.hover == Option::Some(k1),
        bar.hover == Option::Some(k2),
    ensures
        k1 == k2,
{
}

/// A module that reports a running animation makes its bar
/// render-dirty, whatever the other modules report.
pub proof fn lemma_animation_forces_render(bar: BarLayout, now: u64, k: ModuleKey)
    requires
        bar.spec_valid_key(k),
        bar.spec_slot(k).updater == Updater::Animation,
    ensures
        bar.spec_render_dirty(now),
{
    assert(spec_render_demand(
        bar.spec_slot(k).updater,
        bar.spec_elapsed(now),
        bar.spec_slot(k).pending,
    ));
}

/// A module that reports `Never` contributes no dirtiness: a bar whose
/// modules all report `Never` is dirty only while a forced redraw is
/// owed.
pub proof fn lemma_never_contributes_nothing(bar: BarLayout, now: u64)
    requires
        forall|k: ModuleKey|
            bar.spec_valid_key(k) ==> (#[trigger] bar.spec_slot(k)).updater == Updater::Never,
    ensures
        bar.spec_render_dirty(now) == bar.force_dirty,
        bar.spec_layout_dirty(now) == bar.force_dirty,
{
}

/// Directly after a completed render — the forced redraw spent, every
/// level-triggered flag consumed, the draw timestamp at `now` — the bar
/// is render-dirty exactly when some module still reports a running
/// animation: a consumed flag or an elapsed interval cannot force an
/// immediate spurious extra render.
pub proof fn lemma_render_consumes_flags(bar: BarLayout, now: u64)
    requires
        !bar.force_dirty,
        bar.last_draw == now,
        forall|k: ModuleKey| bar.spec_valid_key(k) ==> !(#[trigger] bar.spec_slot(k)).pending,
    ensures
        bar.spec_render_dirty(now) <==> exists|k: ModuleKey|
            bar.spec_valid_key(k) && (#[trigger] bar.spec_slot(k)).updater == Updater::Animation,
{
    assert(bar.spec_elapsed(now) == 0);
    if bar.spec_render_dirty(now) {
        let k = choose|k: ModuleKey|
            bar.spec_valid_key(k) && spec_render_demand(
                (#[trigger] bar.spec_slot(k)).updater,
                bar.spec_elapsed(now),
                bar.spec_slot(k).pending,
            );
        assert(bar.spec_slot(k).updater is Animation);
    }
    if exists|k: ModuleKey|
        bar.spec_valid_key(k) && (#[trigger] bar.spec_slot(k)).updater == Updater::Animation {
        let k = choose|k: ModuleKey|
            bar.spec_valid_key(k) && (#[trigger] bar.spec_slot(k)).updater == Updater::Animation;
        lemma_animation_forces_render(bar, now, k);
    }
}

/// Total width of a group, as the machine value.
fn group_total(slots: &Vec<ModuleSlot>) -> (r: u32)
    requires
        spec_total(slots@) <= u32::MAX,
    ensures
        r == spec_total(slots@),
{
    let mut total: u32 = 0;
    let mut i: usize = 0;
    while i < slots.len()
        invariant
            i <= slots@.len(),
            total == spec_sum(slots@, i as int),
            spec_total(slots@) <= u32::MAX,
        decreases slots@.len() - i,
    {
        proof {
            lemma_sum_monotone(slots@, i + 1, slots@.len() as int);
        }
        total = total + slots[i].width;
        i = i + 1;
    }
    total
}

/// Writes each slot's `pos`: `base` plus the widths of the slots
/// before it.
fn position_group(slots: &mut Vec<ModuleSlot>, base: u32)
    requires
        base + spec_total(old(slots)@) <= u32::MAX,
    ensures
        final(slots)@ == spec_positioned(old(slots)@, base as int),
{
    let ghost orig = slots@;
    let mut x: u32 = base;
    let mut i: usize = 0;
    while i < slots.len()
        invariant
            i <= orig.len(),
            slots@.len() == orig.len(),
            x == base + spec_sum(orig, i as int),
            base + spec_total(orig) <= u32::MAX,
            forall|j: int| 0 <= j < i ==> slots@[j] == spec_positioned(orig, base as int)[j],
            forall|j: int| i <= j < orig.len() ==> slots@[j] == orig[j],
        decreases orig.len() - i,
    {
        proof {
            lemma_sum_monotone(orig, i + 1, orig.len() as int);
        }
        let w = slots[i].width;
        let mut slot = slots[i];
        slot.pos = x;
        slots[i] = slot;
        x = x + w;
        i = i + 1;
    }
    proof {
        assert(slots@ =~= spec_positioned(orig, base as int));
    }
}

/// A positioned group keeps every right edge within `base` plus the
/// group's total, so within the bar when the group fits.
proof fn lemma_positioned_wf(s: Seq<ModuleSlot>, base: int, width: int)
    requires
        0 <= base,
        base + spec_total(s) <= width <= u32::MAX,
    ensures
        forall|i: int|
            0 <= i < s.len() ==> (#[trigger] spec_positioned(s, base)[i]).pos + spec_positioned(
                s,
                base,
            )[i].width <= width,
{
    assert forall|i: int| 0 <= i < s.len() implies (#[trigger] spec_positioned(s, base)[i]).pos
        + spec_positioned(s, base)[i].width <= width by {
        lemma_sum_monotone(s, 0, i);
        lemma_sum_monotone(s, i + 1, s.len() as int);
    }
}

/// Positioning changes no widths, so group totals are stable.
proof fn lemma_positioned_sum(s: Seq<ModuleSlot>, base: int, n: int)
    requires
        0 <= n <= s.len(),
    ensures
        spec_sum(spec_positioned(s, base), n) == spec_sum(s, n),
    decreases n,
{
    if n > 0 {
        lemma_positioned_sum(s, base, n - 1);
    }
}

proof fn lemma_positioned_total(s: Seq<ModuleSlot>, base: int)
    ensures
        spec_total(spec_positioned(s, base)) == spec_total(s),
{
    lemma_positioned_sum(s, base, s.len() as int);
}

} // verus!
