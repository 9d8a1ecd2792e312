//! The render store: per-bar GPU-side bookkeeping the render pipeline
//! owns — the offscreen texture's dimensions, the scale they were
//! computed from, and the last known pointer position.
//!
//! The texture always measures the bar's logical size times the scale
//! factor, recomputed from the logical size on every scale change, so
//! scale changes never compound.

use vstd::prelude::*;

use crate::math::Pos;
use crate::BarId;

verus! {

/// One 120th of a pixel per logical pixel: the unit scale factor.
pub const SCALE_UNIT_120: u32 = 120;

/// Physical extent of `logical` units under a scale in 1/120ths,
/// rounded down.
pub open spec fn spec_scaled(logical: u32, scale_120: u32) -> int {
    logical * scale_120 / 120
}

/// The bookkeeping for one bar's offscreen target.
#[derive(Clone, Copy, Debug, PartialEq, Eq, Structural)]
pub struct RenderEntry {
    pub id: BarId,
    /// Logical size of the bar strip.
    pub logical_width: u32,
    pub logical_height: u32,
    /// Scale factor in 1/120ths.
    pub scale_120: u32,
    /// Offscreen texture extent: always the logical size scaled.
    pub tex_width: u32,
    pub tex_height: u32,
    /// Surface-local pointer position; absent means the pointer is
    /// outside this bar.
    pub cursor: Option<Pos>,
}

impl RenderEntry {
    /// The texture extent agrees with the logical size and scale.
    pub open spec fn spec_wf(self) -> bool {
        &&& self.tex_width == spec_scaled(self.logical_width, self.scale_120)
        &&& self.tex_height == spec_scaled(self.logical_height, self.scale_120)
    }

    /// The entry as a scale change leaves it: the texture extent is
    /// recomputed from the logical size, never from the old extent.
    pub open spec fn spec_with_scale(self, scale_120: u32) -> RenderEntry {
        RenderEntry {
            scale_120,
            tex_width: spec_scaled(self.logical_width, scale_120) as u32,
            tex_height: spec_scaled(self.logical_height, scale_120) as u32,
            ..self
        }
    }
}

/// A scale excursion and return: changing the scale away and back
/// restores the original texture extent exactly.
pub proof fn lemma_scale_round_trip(e: RenderEntry, s2: u32)
    requires
        e.spec_wf(),
        spec_scaled(e.logical_width, e.scale_120) <= u32::MAX,
        spec_scaled(e.logical_height, e.scale_120) <= u32::MAX,
    ensures
        e.spec_with_scale(s2).spec_with_scale(e.scale_120) == e,
{
    let back = e.spec_with_scale(s2).spec_with_scale(e.scale_120);
    assert(back.tex_width == e.tex_width);
    assert(back.tex_height == e.tex_height);
}

/// The per-bar store, keyed by `BarId`; ids are unique.
pub struct RenderStore {
    pub entries: Vec<RenderEntry>,
}

impl RenderStore {
    pub open spec fn spec_contains(self, id: BarId) -> bool {
        exists|i: int| 0 <= i < self.entries@.len() && (#[trigger] self.entries@[i]).id == id
    }

    pub open spec fn spec_index_of(self, id: BarId) -> int {
        choose|i: int| 0 <= i < self.entries@.len() && (#[trigger] self.entries@[i]).id == id
    }

    pub open spec fn spec_entry(self, id: BarId) -> RenderEntry {
        self.entries@[self.spec_index_of(id)]
    }

    /// Ids are unique and every entry's texture agrees with its scale.
    pub open spec fn spec_wf(self) -> bool {
        &&& forall|i: int, j: int|
            0 <= i < j < self.entries@.len() ==> (#[trigger] self.entries@[i]).id != (
            #[trigger] self.entries@[j]).id
        &&& forall|i: int|
            0 <= i < self.entries@.len() ==> (#[trigger] self.entries@[i]).spec_wf()
    }

    pub fn new() -> (r: RenderStore)
        ensures
            r.spec_wf(),
            r.entries@.len() == 0,
    {
        RenderStore { entries: Vec::new() }
    }

    /// Index of the entry for `id`, if present.
    fn find(&self, id: BarId) -> (r: Option<usize>)
        requires
            self.spec_wf(),
        ensures
            match r {
                Option::Some(i) => i < self.entries@.len() && self.entries@[i as int].id == id
                    && i == self.spec_index_of(id),
                Option::None => !self.spec_contains(id),
            },
    {
        let mut i: usize = 0;
        while i < self.entries.len()
            invariant
                self.spec_wf(),
                i <= self.entries@.len(),
                forall|j: int| 0 <= j < i ==> (#[trigger] self.entries@[j]).id != id,
            decreases self.entries@.len() - i,
        {
            if self.entries[i].id == id {
                proof {
                    let w = self.spec_index_of(id);
                    if w != i {
                        assert(self.entries@[w].id == id && self.entries@[i as int].id == id);
                    }
                }
                return Option::Some(i);
            }
            i = i + 1;
        }
        Option::None
    }

    pub fn contains(&self, id: BarId) -> (r: bool)
        requires
            self.spec_wf(),
        ensures
            r == self.spec_contains(id),
    {
        self.find(id).is_some()
    }

    /// Registers a bar's offscreen target at its configured logical
    /// size: the texture measures the logical size times the scale.
    pub fn create_bar(&mut self, id: BarId, logical_width: u32, logical_height: u32, scale_120: u32)
        requires
            old(self).spec_wf(),
            !old(self).spec_contains(id),
            spec_scaled(logical_width, scale_120) <= u32::MAX,
            spec_scaled(logical_height, scale_120) <= u32::MAX,
        ensures
            final(self).spec_wf(),
            final(self).entries@ == old(self).entries@.push(
                RenderEntry {
                    id,
                    logical_width,
                    logical_height,
                    scale_120,
                    tex_width: spec_scaled(logical_width, scale_120) as u32,
                    tex_height: spec_scaled(logical_height, scale_120) as u32,
                    cursor: Option::<Pos>::None,
                },
            ),
            forall|id2: BarId|
                #![trigger final(self).spec_contains(id2)]
                final(self).spec_contains(id2) == (old(self).spec_contains(id2) || id2 == id),
            final(self).spec_entry(id) == (RenderEntry {
                id,
                logical_width,
                logical_height,
                scale_120,
                tex_width: spec_scaled(logical_width, scale_120) as u32,
                tex_height: spec_scaled(logical_height, scale_120) as u32,
                cursor: Option::<Pos>::None,
            }),
            forall|id2: BarId|
                #![trigger final(self).spec_entry(id2)]
                id2 != id && old(self).spec_contains(id2) ==> final(self).spec_entry(id2) == old(
                    self,
                ).spec_entry(id2),
    {
        let tex_width = scaled(logical_width, scale_120);
        let tex_height = scaled(logical_height, scale_120);
        let entry = RenderEntry {
            id,
            logical_width,
            logical_height,
            scale_120,
            tex_width,
            tex_height,
            cursor: Option::None,
        };
        self.entries.push(entry);
        proof {
            assert forall|id2: BarId|
                final(self).spec_contains(id2) == (old(self).spec_contains(id2) || id2 == id) by {
                let n = old(self).entries@.len() as int;
                if old(self).spec_contains(id2) {
                    let i = choose|i: int|
                        0 <= i < old(self).entries@.len() && (#[trigger] old(
                            self,
                        ).entries@[i]).id == id2;
                    assert(self.entries@[i].id == id2);
                }
                if id2 == id {
                    assert(self.entries@[n].id == id2);
                }
                if self.spec_contains(id2) {
                    let i = choose|i: int|
                        0 <= i < self.entries@.len() && (#[trigger] self.entries@[i]).id == id2;
                    if i < n {
                        assert(old(self).entries@[i].id == id2);
                    }
                }
            }
        }
    }

    /// Applies a new scale factor to `id`'s entry, recomputing the
    /// texture extent from the logical size. An unknown id is a stale
    /// event and is ignored.
    pub fn set_scale(&mut self, id: BarId, scale_120: u32)
        requires
            old(self).spec_wf(),
            old(self).spec_contains(id) ==> spec_scaled(
                old(self).spec_entry(id).logical_width,
                scale_120,
            ) <= u32::MAX && spec_scaled(old(self).spec_entry(id).logical_height, scale_120)
                <= u32::MAX,
        ensures
            final(self).spec_wf(),
            !old(self).spec_contains(id) ==> *final(self) == *old(self),
            old(self).spec_contains(id) ==> final(self).entries@ == old(self).entries@.update(
                old(self).spec_index_of(id),
                old(self).spec_entry(id).spec_with_scale(scale_120),
            ),
            forall|id2: BarId|
                #![trigger final(self).spec_contains(id2)]
                final(self).spec_contains(id2) == old(self).spec_contains(id2),
            old(self).spec_contains(id) ==> final(self).spec_entry(id) == old(self).spec_entry(
                id,
            ).spec_with_scale(scale_120),
            forall|id2: BarId|
                #![trigger final(self).spec_entry(id2)]
                id2 != id && old(self).spec_contains(id2) ==> final(self).spec_entry(id2) == old(
                    self,
                ).spec_entry(id2),
    {
        let found = self.find(id);
        match found {
            Option::Some(i) => {
                let e = self.entries[i];
                let tex_width = scaled(e.logical_width, scale_120);
                let tex_height = scaled(e.logical_height, scale_120);
                self.entries[i] = RenderEntry { scale_120, tex_width, tex_height, ..e };
                proof {
                    assert forall|j: int|
                        0 <= j < self.entries@.len() implies (
                    #[trigger] self.entries@[j]).spec_wf() by {
                        assert(old(self).entries@[j].spec_wf());
                    }
                }
                proof {
                    let ghost i_ = i as int;
                    assert(old(self).entries@[i_].id == id);
                    assert(self.entries@[i_].id == id);
                    assert forall|id2: BarId|
                        final(self).spec_contains(id2) == old(self).spec_contains(id2) by {
                        if old(self).spec_contains(id2) {
                            let j = choose|j: int|
                                0 <= j < old(self).entries@.len() && (#[trigger] old(
                                    self,
                                ).entries@[j]).id == id2;
                            assert(self.entries@[j].id == id2);
                        }
                        if self.spec_contains(id2) {
                            let j = choose|j: int|
                                0 <= j < self.entries@.len() && (#[trigger] self.entries@[j]).id
                                    == id2;
                            assert(old(self).entries@[j].id == id2);
                        }
                    }
                    assert forall|id2: BarId|
                        id2 != id && old(self).spec_contains(id2) implies final(self).spec_entry(
                        id2,
                    ) == old(self).spec_entry(id2) by {
                        let jo = old(self).spec_index_of(id2);
                        assert(old(self).entries@[jo].id == id2);
                        assert(jo != i_);
                        assert(self.entries@[jo].id == id2);
                        assert(self.spec_contains(id2));
                        let jn = self.spec_index_of(id2);
                        assert(self.entries@[jn].id == id2);
                        if jn != jo {
                            assert(jn != i_);
                            assert(old(self).entries@[jn].id == id2);
                            assert(false);
                        }
                        assert(self.entries@[jn] == old(self).entries@[jo]);
                    }
                }
            },
            Option::None => {},
        }
    }

    /// Records the pointer position against `id`'s bar, or clears it
    /// when the pointer left. An unknown id is ignored.
    pub fn move_mouse(&mut self, id: BarId, pos: Option<Pos>)
        requires
            old(self).spec_wf(),
        ensures
            final(self).spec_wf(),
            !old(self).spec_contains(id) ==> *final(self) == *old(self),
            old(self).spec_contains(id) ==> final(self).entries@ == old(self).entries@.update(
                old(self).spec_index_of(id),
                RenderEntry { cursor: pos, ..old(self).spec_entry(id) },
            ),
            forall|id2: BarId|
                #![trigger final(self).spec_contains(id2)]
                final(self).spec_contains(id2) == old(self).spec_contains(id2),
            old(self).spec_contains(id) ==> final(self).spec_entry(id) == (RenderEntry {
                cursor: pos,
                ..old(self).spec_entry(id)
            }),
            forall|id2: BarId|
                #![trigger final(self).spec_entry(id2)]
                id2 != id && old(self).spec_contains(id2) ==> final(self).spec_entry(id2) == old(
                    self,
                ).spec_entry(id2),
    {
        let found = self.find(id);
        match found {
            Option::Some(i) => {
                let e = self.entries[i];
                self.entries[i] = RenderEntry { cursor: pos, ..e };
                proof {
                    assert forall|j: int|
                        0 <= j < self.entries@.len() implies (
                    #[trigger] self.entries@[j]).spec_wf() by {
                        assert(old(self).entries@[j].spec_wf());
                    }
                }
                proof {
                    let ghost i_ = i as int;
                    assert(old(self).entries@[i_].id == id);
                    assert(self.entries@[i_].id == id);
                    assert forall|id2: BarId|
                        final(self).spec_contains(id2) == old(self).spec_contains(id2) by {
                        if old(self).spec_contains(id2) {
                            let j = choose|j: int|
                                0 <= j < old(self).entries@.len() && (#[trigger] old(
                                    self,
                                ).entries@[j]).id == id2;
                            assert(self.entries@[j].id == id2);
                        }
                        if self.spec_contains(id2) {
                            let j = choose|j: int|
                                0 <= j < self.entries@.len() && (#[trigger] self.entries@[j]).id
                                    == id2;
                            assert(old(self).entries@[j].id == id2);
                        }
                    }
                    assert forall|id2: BarId|
                        id2 != id && old(self).spec_contains(id2) implies final(self).spec_entry(
                        id2,
                    ) == old(self).spec_entry(id2) by {
                        let jo = old(self).spec_index_of(id2);
                        assert(old(self).entries@[jo].id == id2);
                        assert(jo != i_);
                        assert(self.entries@[jo].id == id2);
                        assert(self.spec_contains(id2));
                        let jn = self.spec_index_of(id2);
                        assert(self.entries@[jn].id == id2);
                        if jn != jo {
                            assert(jn != i_);
                            assert(old(self).entries@[jn].id == id2);
                            assert(false);
                        }
                        assert(self.entries@[jn] == old(self).entries@[jo]);
                    }
                }
            },
            Option::None => {},
        }
    }

    /// Drops `id`'s entry when its output goes away; other entries
    /// are untouched.
    pub fn remove(&mut self, id: BarId)
        requires
            old(self).spec_wf(),
        ensures
            final(self).spec_wf(),
            !final(self).spec_contains(id),
            !old(self).spec_contains(id) ==> *final(self) == *old(self),
            old(self).spec_contains(id) ==> final(self).entries@ == old(self).entries@.remove(
                old(self).spec_index_of(id),
            ),
            forall|id2: BarId|
                #![trigger final(self).spec_contains(id2)]
                final(self).spec_contains(id2) == (old(self).spec_contains(id2) && id2 != id),
            forall|id2: BarId|
                #![trigger final(self).spec_entry(id2)]
                id2 != id && old(self).spec_contains(id2) ==> final(self).spec_entry(id2) == old(
                    self,
                ).spec_entry(id2),
    {
        let found = self.find(id);
        match found {
            Option::Some(i) => {
                self.entries.remove(i);
                proof {
                    assert forall|j: int|
                        0 <= j < self.entries@.len() implies (
                    #[trigger] self.entries@[j]).spec_wf() by {
                        if j < i {
                            assert(old(self).entries@[j].spec_wf());
                        } else {
                            assert(old(self).entries@[j + 1].spec_wf());
                        }
                    }
                    assert forall|a: int, b: int|
                        0 <= a < b < self.entries@.len() implies (#[trigger] self.entries@[a]).id
                        != (#[trigger] self.entries@[b]).id by {
                        if b < i {
                            assert(old(self).entries@[a].id != old(self).entries@[b].id);
                        } else if a < i {
                            assert(old(self).entries@[a].id != old(self).entries@[b + 1].id);
                        } else {
                            assert(old(self).entries@[a + 1].id != old(self).entries@[b + 1].id);
                        }
                    }
                    if self.spec_contains(id) {
                        let j = choose|j: int|
                            0 <= j < self.entries@.len() && (#[trigger] self.entries@[j]).id
                                == id;
                        if j < i {
                            assert(old(self).entries@[j].id == id);
                            assert(false);
                        } else {
                            assert(old(self).entries@[j + 1].id == id);
                            assert(false);
                        }
                    }
                    let ghost i_ = i as int;
                    assert(old(self).entries@[i_].id == id);
                    assert forall|id2: BarId|
                        final(self).spec_contains(id2) == (old(self).spec_contains(id2) && id2
                            != id) by {
                        if old(self).spec_contains(id2) && id2 != id {
                            let j = choose|j: int|
                                0 <= j < old(self).entries@.len() && (#[trigger] old(
                                    self,
                                ).entries@[j]).id == id2;
                            if j < i_ {
                                assert(self.entries@[j].id == id2);
                            } else {
                                assert(j != i_);
                                assert(self.entries@[j - 1].id == id2);
                            }
                        }
                        if self.spec_contains(id2) {
                            let j = choose|j: int|
                                0 <= j < self.entries@.len() && (#[trigger] self.entries@[j]).id
                                    == id2;
                            if j < i_ {
                                assert(old(self).entries@[j].id == id2);
                            } else {
                                assert(old(self).entries@[j + 1].id == id2);
                            }
                        }
                    }
                    assert forall|id2: BarId|
                        id2 != id && old(self).spec_contains(id2) implies final(self).spec_entry(
                        id2,
                    ) == old(self).spec_entry(id2) by {
                        let jo = old(self).spec_index_of(id2);
                        assert(old(self).entries@[jo].id == id2);
                        assert(jo != i_);
                        assert(self.spec_contains(id2));
                        let jn = self.spec_index_of(id2);
                        assert(self.entries@[jn].id == id2);
                        let ghost jn_old: int = if jn < i_ {
                            jn
                        } else {
                            jn + 1
                        };
                        assert(old(self).entries@[jn_old].id == id2);
                        if jn_old != jo {
                            assert(false);
                        }
                        assert(self.entries@[jn] == old(self).entries@[jo]);
                    }
                }
            },
            Option::None => {},
        }
    }

    /// The texture extent for `id`, if a target exists.
    pub fn tex_size(&self, id: BarId) -> (r: Option<(u32, u32)>)
        requires
            self.spec_wf(),
        ensures
            match r {
                Option::Some(wh) => self.spec_contains(id) && wh.0 == self.spec_entry(id).tex_width
                    && wh.1 == self.spec_entry(id).tex_height,
                Option::None => !self.spec_contains(id),
            },
    {
        match self.find(id) {
            Option::Some(i) => {
                let e = self.entries[i];
                Option::Some((e.tex_width, e.tex_height))
            },
            Option::None => Option::None,
        }
    }

    /// The stored pointer position for `id`, if a target exists.
    pub fn cursor(&self, id: BarId) -> (r: Option<Option<Pos>>)
        requires
            self.spec_wf(),
        ensures
            match r {
                Option::Some(c) => self.spec_contains(id) && c == self.spec_entry(id).cursor,
                Option::None => !self.spec_contains(id),
            },
    {
        match self.find(id) {
            Option::Some(i) => Option::Some(self.entries[i].cursor),
            Option::None => Option::None,
        }
    }
}

/// Exact machine computation of `spec_scaled`.
fn scaled(logical: u32, scale_120: u32) -> (r: u32)
    requires
        spec_scaled(logical, scale_120) <= u32::MAX,
    ensures
        r == spec_scaled(logical, scale_120),
{
    ((logical as u64 * scale_120 as u64) / 120) as u32
}

} // verus!
