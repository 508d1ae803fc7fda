//! The compositor's layer table: identifiers, stacking order, visibility
//! and what must be redrawn. The geometry and colours of the layers, and
//! the damaged regions themselves, are floating point and kept by the
//! compositor beside this table.

use std::collections::HashMap;
use vstd::prelude::*;

verus! {

broadcast use vstd::std_specs::hash::group_hash_axioms;

/// Unique identifier of a layer.
pub type LayerId = u64;

/// What of a layer must be redrawn.
#[derive(Debug, Clone, Copy, PartialEq, Eq, Structural)]
pub enum Damage {
    /// Nothing: the layer is drawn as it was.
    Clean,
    /// The whole layer.
    Full,
    /// A region of it, which the compositor keeps.
    Region,
}

/// The state of one layer.
#[derive(Debug, Clone, Copy, PartialEq, Eq, Structural)]
pub struct LayerState {
    pub z: u32,
    pub visible: bool,
    pub damage: Damage,
}

/// All layers, by identifier, and the next identifier to hand out.
pub struct LayerRegistry {
    layers: HashMap<LayerId, LayerState>,
    /// Every layer's identifier once, in the order of insertion.
    order: Vec<LayerId>,
    next_layer_id: LayerId,
}

impl View for LayerRegistry {
    type V = Map<LayerId, LayerState>;

    closed spec fn view(&self) -> Map<LayerId, LayerState> {
        self.layers@
    }
}

/// A layer after any change of its stacking or visibility: it is redrawn
/// in full.
pub open spec fn redrawn(l: LayerState) -> LayerState {
    LayerState { damage: Damage::Full, ..l }
}

/// A layer after compositing: nothing of it is damaged.
pub open spec fn cleaned(l: LayerState) -> LayerState {
    LayerState { damage: Damage::Clean, ..l }
}

/// `ids` holds the visible layers of `m`, each once, from the lowest `z`
/// to the highest.
pub open spec fn is_stacking(m: Map<LayerId, LayerState>, ids: Seq<LayerId>) -> bool {
    &&& ids.no_duplicates()
    &&& forall|i: int| 0 <= i < ids.len() ==> m.contains_key(#[trigger] ids[i]) && m[ids[i]].visible
    &&& forall|k: LayerId| m.contains_key(k) && m[k].visible ==> ids.contains(k)
    &&& forall|i: int, j: int| 0 <= i < j < ids.len() ==> m[#[trigger] ids[i]].z <= m[#[trigger] ids[j]].z
}

impl LayerRegistry {
    /// The identifier the next inserted layer gets.
    pub closed spec fn next_id(&self) -> LayerId {
        self.next_layer_id
    }

    /// Internal consistency: the order lists each layer once, and every
    /// layer's identifier is below the next one.
    pub closed spec fn wf(&self) -> bool {
        &&& self.order@.no_duplicates()
        &&& forall|i: int| 0 <= i < self.order@.len() ==> self.layers@.contains_key(#[trigger] self.order@[i])
        &&& forall|k: LayerId| self.layers@.contains_key(k) ==> self.order@.contains(k)
        &&& forall|k: LayerId| self.layers@.contains_key(k) ==> k < self.next_layer_id
    }

    /// An empty table; the first layer gets identifier 1.
    pub fn new() -> (r: Self)
        ensures
            r.wf(),
            r@ == Map::<LayerId, LayerState>::empty(),
            r.next_id() == 1,
    {
        LayerRegistry { layers: HashMap::new(), order: Vec::new(), next_layer_id: 1 }
    }

    /// The identifier the next inserted layer gets.
    pub fn next_layer_id(&self) -> (r: LayerId)
        ensures
            r == self.next_id(),
    {
        self.next_layer_id
    }

    /// Hands out the next identifier.
    pub fn allocate_id(&mut self) -> (r: LayerId)
        requires
            old(self).wf(),
            old(self).next_id() < u64::MAX,
        ensures
            final(self).wf(),
            r == old(self).next_id(),
            final(self).next_id() == old(self).next_id() + 1,
            final(self)@ == old(self)@,
    {
        let id = self.next_layer_id;
        self.next_layer_id = self.next_layer_id + 1;
        id
    }

    /// Adds a visible layer at stacking level `z`, to be drawn in full;
    /// returns its new identifier.
    pub fn insert_layer(&mut self, z: u32) -> (r: LayerId)
        requires
            old(self).wf(),
            old(self).next_id() < u64::MAX,
        ensures
            final(self).wf(),
            r == old(self).next_id(),
            !old(self)@.contains_key(r),
            final(self).next_id() == old(self).next_id() + 1,
            final(self)@ == old(self)@.insert(r, LayerState { z, visible: true, damage: Damage::Full }),
    {
        let id = self.next_layer_id;
        self.next_layer_id = id + 1;
        let ghost before = self.order@;
        self.layers.insert(id, LayerState { z, visible: true, damage: Damage::Full });
        self.order.push(id);
        proof {
            assert(!before.contains(id));
            assert forall|i: int| 0 <= i < self.order@.len() implies self.layers@.contains_key(#[trigger] self.order@[i]) by {
                if i < before.len() {
                    assert(self.order@[i] == before[i]);
                }
            }
            assert forall|k: LayerId| self.layers@.contains_key(k) implies self.order@.contains(k) by {
                if k == id {
                    assert(self.order@[before.len() as int] == id);
                } else {
                    assert(old(self).layers@.contains_key(k));
                    assert(before.contains(k));
                    let i = choose|i: int| 0 <= i < before.len() && before[i] == k;
                    assert(self.order@[i] == k);
                }
            }
        }
        id
    }

    /// Removes a layer, if there is one with this identifier.
    pub fn remove_layer(&mut self, id: LayerId)
        requires
            old(self).wf(),
        ensures
            final(self).wf(),
            final(self)@ == old(self)@.remove(id),
            final(self).next_id() == old(self).next_id(),
    {
        self.layers.remove(&id);
        match position_of(&self.order, id) {
            Some(p) => {
                let ghost before = self.order@;
                self.order.remove(p);
                proof {
                    lemma_remove_unique(before, p as int);
                    assert(self.order@ == before.remove(p as int));
                    assert forall|k: LayerId| self.layers@.contains_key(k) implies self.order@.contains(k) by {
                        assert(old(self).layers@.contains_key(k));
                        assert(before.contains(k));
                        assert(k != before[p as int]);
                    }
                }
            },
            None => {
                proof {
                    assert forall|k: LayerId| self.layers@.contains_key(k) implies self.order@.contains(k) by {
                        assert(old(self).layers@.contains_key(k));
                    }
                }
            },
        }
        proof {
            assert forall|j: int| 0 <= j < self.order@.len() implies self.layers@.contains_key(#[trigger] self.order@[j]) by {
                assert(old(self).order@.contains(self.order@[j]));
                let i = choose|i: int| 0 <= i < old(self).order@.len() && old(self).order@[i] == self.order@[j];
                assert(old(self).layers@.contains_key(old(self).order@[i]));
            }
        }
    }

    /// The state of a layer, if there is one with this identifier.
    pub fn get_layer(&self, id: LayerId) -> (r: Option<LayerState>)
        ensures
            r == (if self@.contains_key(id) { Some(self@[id]) } else { None::<LayerState> }),
    {
        match self.layers.get(&id) {
            Some(l) => Some(*l),
            None => None,
        }
    }

    /// Replaces the state of an existing layer.
    fn replace(&mut self, id: LayerId, l: LayerState)
        requires
            old(self).wf(),
            old(self)@.contains_key(id),
        ensures
            final(self).wf(),
            final(self)@ == old(self)@.insert(id, l),
            final(self).next_id() == old(self).next_id(),
            final(self).order@ == old(self).order@,
    {
        self.layers.insert(id, l);
        proof {
            assert forall|k: LayerId| self.layers@.contains_key(k) implies self.order@.contains(k) by {
                assert(old(self).layers@.contains_key(k));
            }
        }
    }

    /// Marks a layer to be drawn in full after its colour or rectangle
    /// changed; nothing happens without such a layer.
    pub fn update_layer(&mut self, id: LayerId)
        requires
            old(self).wf(),
        ensures
            final(self).wf(),
            final(self)@ == (if old(self)@.contains_key(id) {
                old(self)@.insert(id, redrawn(old(self)@[id]))
            } else {
                old(self)@
            }),
            final(self).next_id() == old(self).next_id(),
    {
        if let Some(l) = self.get_layer(id) {
            self.replace(id, LayerState { damage: Damage::Full, ..l });
        }
    }

    /// Moves a layer to stacking level `z`; it is drawn in full.
    pub fn set_layer_z(&mut self, id: LayerId, z: u32)
        requires
            old(self).wf(),
        ensures
            final(self).wf(),
            final(self)@ == (if old(self)@.contains_key(id) {
                old(self)@.insert(id, LayerState { z, ..redrawn(old(self)@[id]) })
            } else {
                old(self)@
            }),
            final(self).next_id() == old(self).next_id(),
    {
        if let Some(l) = self.get_layer(id) {
            self.replace(id, LayerState { z, visible: l.visible, damage: Damage::Full });
        }
    }

    /// Shows or hides a layer; it is drawn in full.
    pub fn set_visibility(&mut self, id: LayerId, visible: bool)
        requires
            old(self).wf(),
        ensures
            final(self).wf(),
            final(self)@ == (if old(self)@.contains_key(id) {
                old(self)@.insert(id, LayerState { visible, ..redrawn(old(self)@[id]) })
            } else {
                old(self)@
            }),
            final(self).next_id() == old(self).next_id(),
    {
        if let Some(l) = self.get_layer(id) {
            self.replace(id, LayerState { z: l.z, visible, damage: Damage::Full });
        }
    }

    /// Records that a region of a layer is damaged (the compositor merges
    /// the region itself): a pending full redraw stays pending, otherwise
    /// the layer has a damaged region; nothing happens without such a layer.
    pub fn mark_region(&mut self, id: LayerId)
        requires
            old(self).wf(),
        ensures
            final(self).wf(),
            final(self)@ == (if old(self)@.contains_key(id) && old(self)@[id].damage != Damage::Full {
                old(self)@.insert(id, LayerState { damage: Damage::Region, ..old(self)@[id] })
            } else {
                old(self)@
            }),
            final(self).next_id() == old(self).next_id(),
    {
        if let Some(l) = self.get_layer(id) {
            if l.damage != Damage::Full {
                self.replace(id, LayerState { damage: Damage::Region, ..l });
            }
        }
    }

    /// After compositing no layer is damaged any more.
    pub fn clear_dirty(&mut self)
        requires
            old(self).wf(),
        ensures
            final(self).wf(),
            final(self)@.dom() == old(self)@.dom(),
            forall|k: LayerId| #[trigger] final(self)@.contains_key(k) ==> final(self)@[k] == cleaned(old(self)@[k]),
            final(self).next_id() == old(self).next_id(),
    {
        let n = self.order.len();
        let mut i: usize = 0;
        while i < n
            invariant
                self.wf(),
                n == self.order@.len(),
                self.order@ == old(self).order@,
                self.next_layer_id == old(self).next_layer_id,
                i <= n,
                self.layers@.dom() == old(self).layers@.dom(),
                forall|j: int| 0 <= j < i ==> self.layers@[#[trigger] self.order@[j]] == cleaned(old(self).layers@[self.order@[j]]),
                forall|j: int| i <= j < n ==> self.layers@[#[trigger] self.order@[j]] == old(self).layers@[self.order@[j]],
            decreases n - i,
        {
            let id = self.order[i];
            match self.get_layer(id) {
                Some(l) => {
                    let ghost before = self.layers@;
                    self.replace(id, LayerState { damage: Damage::Clean, ..l });
                    proof {
                        assert(self.layers@.dom() =~= before.dom());
                        assert forall|j: int| 0 <= j < n && j != i implies self.order@[j] != id by {
                            assert(self.order@[i as int] == id);
                        }
                    }
                },
                None => {
                    assert(self.layers@.contains_key(id));
                },
            }
            i += 1;
        }
        proof {
            assert forall|k: LayerId| #[trigger] self.layers@.contains_key(k) implies
                self.layers@[k] == cleaned(old(self).layers@[k]) by {
                assert(self.order@.contains(k));
                let j = choose|j: int| 0 <= j < self.order@.len() && self.order@[j] == k;
                assert(self.layers@[self.order@[j]] == cleaned(old(self).layers@[self.order@[j]]));
            }
        }
    }

    /// Whether some visible layer must be drawn in full, so that the whole
    /// surface is redrawn.
    pub fn needs_full_redraw(&self) -> (r: bool)
        requires
            self.wf(),
        ensures
            r == exists|k: LayerId| #[trigger] self@.contains_key(k) && needs_full(self@[k]),
    {
        let n = self.order.len();
        let mut i: usize = 0;
        while i < n
            invariant
                self.wf(),
                n == self.order@.len(),
                i <= n,
                forall|j: int| 0 <= j < i ==> !needs_full(self@[#[trigger] self.order@[j]]),
            decreases n - i,
        {
            let id = self.order[i];
            match self.get_layer(id) {
                Some(l) => {
                    if l.visible && l.damage == Damage::Full {
                        assert(self@.contains_key(id) && needs_full(self@[id]));
                        return true;
                    }
                },
                None => {},
            }
            i += 1;
        }
        proof {
            assert forall|k: LayerId| #[trigger] self@.contains_key(k) implies !needs_full(self@[k]) by {
                assert(self.order@.contains(k));
                let j = choose|j: int| 0 <= j < self.order@.len() && self.order@[j] == k;
                assert(!needs_full(self@[self.order@[j]]));
            }
        }
        false
    }

    /// The visible layers with a damaged region, from the lowest stacking
    /// level to the highest; `None` when some visible layer must be drawn
    /// in full, so that the whole surface is redrawn.
    pub fn damaged_layers(&self) -> (r: Option<Vec<LayerId>>)
        requires
            self.wf(),
        ensures
            r is None <==> exists|k: LayerId| #[trigger] self@.contains_key(k) && needs_full(self@[k]),
            r matches Some(v) ==> {
                &&& v@.no_duplicates()
                &&& sorted_by_z(self@, v@)
                &&& forall|i: int| 0 <= i < v@.len() ==> has_region(self@, #[trigger] v@[i])
                &&& forall|k: LayerId| has_region(self@, k) ==> v@.contains(k)
            },
    {
        if self.needs_full_redraw() {
            return None;
        }
        let all = self.sorted_visible();
        let mut out: Vec<LayerId> = Vec::new();
        let n = all.len();
        let mut i: usize = 0;
        while i < n
            invariant
                self.wf(),
                is_stacking(self@, all@),
                n == all@.len(),
                i <= n,
                out@.no_duplicates(),
                forall|q: int| 0 <= q < out@.len() ==> has_region(self@, #[trigger] out@[q]),
                forall|q: int| 0 <= q < out@.len() ==> exists|j: int| 0 <= j < i && #[trigger] all@[j] == #[trigger] out@[q],
                sorted_by_z(self@, out@),
                forall|j: int| 0 <= j < i && has_region(self@, #[trigger] all@[j]) ==> out@.contains(all@[j]),
            decreases n - i,
        {
            let id = all[i];
            let ghost before = out@;
            match self.get_layer(id) {
                Some(l) => {
                    if l.damage == Damage::Region {
                        proof {
                            assert forall|q: int| 0 <= q < before.len() implies before[q] != id by {
                                let j = choose|j: int| 0 <= j < i && #[trigger] all@[j] == before[q];
                                assert(all@[j] != all@[i as int]);
                            }
                        }
                        out.push(id);
                        proof {
                            assert forall|q: int| 0 <= q < out@.len() implies exists|j: int| 0 <= j < i + 1 && #[trigger] all@[j] == #[trigger] out@[q] by {
                                if q < before.len() {
                                    let j = choose|j: int| 0 <= j < i && #[trigger] all@[j] == before[q];
                                    assert(all@[j] == out@[q]);
                                } else {
                                    assert(all@[i as int] == out@[q]);
                                }
                            }
                            assert forall|a: int, b: int| 0 <= a < b < out@.len() implies
                                self@[#[trigger] out@[a]].z <= self@[#[trigger] out@[b]].z by {
                                if b == before.len() {
                                    let ja = choose|j: int| 0 <= j < i && #[trigger] all@[j] == #[trigger] before[a];
                                    assert(self@[all@[ja]].z <= self@[all@[i as int]].z);
                                } else {
                                    assert(out@[a] == before[a] && out@[b] == before[b]);
                                }
                            }
                            assert forall|j: int| 0 <= j < i + 1 && has_region(self@, #[trigger] all@[j]) implies out@.contains(all@[j]) by {
                                if j < i {
                                    assert(before.contains(all@[j]));
                                    let q = choose|q: int| 0 <= q < before.len() && before[q] == all@[j];
                                    assert(out@[q] == all@[j]);
                                } else {
                                    assert(out@[before.len() as int] == all@[j]);
                                }
                            }
                        }
                    }
                },
                None => {
                    assert(self@.contains_key(all@[i as int]));
                },
            }
            i += 1;
        }
        proof {
            assert forall|k: LayerId| has_region(self@, k) implies out@.contains(k) by {
                assert(all@.contains(k));
                let j = choose|j: int| 0 <= j < all@.len() && all@[j] == k;
                assert(has_region(self@, all@[j]));
            }
        }
        Some(out)
    }

    /// The first position of `out` holding a layer stacked above `z`
    /// (its length when there is none).
    fn first_above(&self, out: &Vec<LayerId>, z: u32) -> (p: usize)
        requires
            all_visible_in(self@, out@),
        ensures
            p <= out@.len(),
            forall|q: int| 0 <= q < p ==> self@[#[trigger] out@[q]].z <= z,
            p < out@.len() ==> self@[out@[p as int]].z > z,
    {
        let m = out.len();
        let mut p: usize = 0;
        while p < m
            invariant
                all_visible_in(self@, out@),
                m == out@.len(),
                p <= m,
                forall|q: int| 0 <= q < p ==> self@[#[trigger] out@[q]].z <= z,
            decreases m - p,
        {
            match self.get_layer(out[p]) {
                Some(o) => {
                    if o.z > z {
                        return p;
                    }
                },
                None => {
                    assert(self@.contains_key(out@[p as int]));
                },
            }
            p += 1;
        }
        p
    }

    /// Inserts a visible layer into a list kept in stacking order.
    fn insert_sorted(&self, out: &mut Vec<LayerId>, id: LayerId, z: u32)
        requires
            self@.contains_key(id),
            self@[id].visible,
            self@[id].z == z,
            !old(out)@.contains(id),
            old(out)@.no_duplicates(),
            all_visible_in(self@, old(out)@),
            sorted_by_z(self@, old(out)@),
        ensures
            final(out)@.no_duplicates(),
            all_visible_in(self@, final(out)@),
            sorted_by_z(self@, final(out)@),
            forall|x: LayerId| final(out)@.contains(x) <==> (old(out)@.contains(x) || x == id),
    {
        let p = self.first_above(out, z);
        let ghost before = out@;
        out.insert(p, id);
        proof {
            lemma_insert_sorted(self@, before, p as int, id);
        }
    }

    /// The visible layers, from the lowest stacking level to the highest.
    pub fn sorted_visible(&self) -> (r: Vec<LayerId>)
        requires
            self.wf(),
        ensures
            is_stacking(self@, r@),
    {
        let mut out: Vec<LayerId> = Vec::new();
        let n = self.order.len();
        let mut i: usize = 0;
        while i < n
            invariant
                self.wf(),
                n == self.order@.len(),
                i <= n,
                out@.no_duplicates(),
                all_visible_in(self@, out@),
                sorted_by_z(self@, out@),
                forall|x: LayerId| out@.contains(x) ==> exists|j: int| 0 <= j < i && self.order@[j] == x,
                forall|j: int| 0 <= j < i && #[trigger] self@[self.order@[j]].visible ==> out@.contains(self.order@[j]),
            decreases n - i,
        {
            let id = self.order[i];
            let ghost before = out@;
            match self.get_layer(id) {
                Some(l) => {
                    if l.visible {
                        proof {
                            if before.contains(id) {
                                let j = choose|j: int| 0 <= j < i && self.order@[j] == id;
                                assert(self.order@[j] == self.order@[i as int]);
                            }
                        }
                        self.insert_sorted(&mut out, id, l.z);
                    }
                },
                None => {},
            }
            proof {
                assert forall|x: LayerId| out@.contains(x) implies exists|j: int| 0 <= j < i + 1 && self.order@[j] == x by {
                    if x != id {
                        assert(before.contains(x));
                        let j = choose|j: int| 0 <= j < i && self.order@[j] == x;
                        assert(self.order@[j] == x);
                    } else {
                        assert(self.order@[i as int] == x);
                    }
                }
                assert forall|j: int| 0 <= j < i + 1 && #[trigger] self@[self.order@[j]].visible implies out@.contains(self.order@[j]) by {
                    if j < i {
                        assert(before.contains(self.order@[j]));
                    } else {
                        assert(self@.contains_key(self.order@[j]));
                    }
                }
            }
            i += 1;
        }
        proof {
            assert forall|k: LayerId| self@.contains_key(k) && self@[k].visible implies out@.contains(k) by {
                assert(self.order@.contains(k));
                let j = choose|j: int| 0 <= j < self.order@.len() && self.order@[j] == k;
                assert(self@[self.order@[j]].visible);
            }
            assert forall|i2: int| 0 <= i2 < out@.len() implies self@.contains_key(#[trigger] out@[i2]) && self@[out@[i2]].visible by {
            }
        }
        out
    }
}

/// After clearing, nothing is damaged: no layer is pending a redraw, so
/// the surface needs no full redraw and no layer has a damaged region.
pub proof fn lemma_nothing_damaged_after_clear(before: Map<LayerId, LayerState>, after: Map<LayerId, LayerState>)
    requires
        after.dom() == before.dom(),
        forall|k: LayerId| #[trigger] after.contains_key(k) ==> after[k] == cleaned(before[k]),
    ensures
        forall|k: LayerId| #[trigger] after.contains_key(k) ==> after[k].damage == Damage::Clean,
        !exists|k: LayerId| #[trigger] after.contains_key(k) && needs_full(after[k]),
        forall|k: LayerId| !#[trigger] has_region(after, k),
{
}

/// `k` is a visible layer of `m` with a damaged region.
pub open spec fn has_region(m: Map<LayerId, LayerState>, k: LayerId) -> bool {
    m.contains_key(k) && m[k].visible && m[k].damage == Damage::Region
}

/// A layer that makes the whole surface be redrawn.
pub open spec fn needs_full(l: LayerState) -> bool {
    l.visible && l.damage == Damage::Full
}

/// Every entry of `s` is a visible layer of `m`.
pub open spec fn all_visible_in(m: Map<LayerId, LayerState>, s: Seq<LayerId>) -> bool {
    forall|q: int| 0 <= q < s.len() ==> m.contains_key(#[trigger] s[q]) && m[s[q]].visible
}

/// The entries of `s` go up in stacking level.
pub open spec fn sorted_by_z(m: Map<LayerId, LayerState>, s: Seq<LayerId>) -> bool {
    forall|a: int, b: int| 0 <= a < b < s.len() ==> m[#[trigger] s[a]].z <= m[#[trigger] s[b]].z
}

/// The position of `id` in `v`, if it is there.
fn position_of(v: &Vec<LayerId>, id: LayerId) -> (r: Option<usize>)
    ensures
        r matches Some(p) ==> p < v@.len() && v@[p as int] == id,
        r is None ==> !v@.contains(id),
{
    let n = v.len();
    let mut i: usize = 0;
    while i < n
        invariant
            n == v@.len(),
            i <= n,
            forall|j: int| 0 <= j < i ==> v@[j] != id,
        decreases n - i,
    {
        if v[i] == id {
            return Some(i);
        }
        i += 1;
    }
    None
}

proof fn lemma_remove_unique(s: Seq<LayerId>, p: int)
    requires
        s.no_duplicates(),
        0 <= p < s.len(),
    ensures
        s.remove(p).no_duplicates(),
        forall|x: LayerId| s.remove(p).contains(x) <==> (s.contains(x) && x != s[p]),
{
    let r = s.remove(p);
    assert forall|a: int, b: int| 0 <= a < b < r.len() implies r[a] != r[b] by {
        let a0 = if a < p { a } else { a + 1 };
        let b0 = if b < p { b } else { b + 1 };
        assert(r[a] == s[a0] && r[b] == s[b0]);
    }
    assert forall|x: LayerId| r.contains(x) <==> (s.contains(x) && x != s[p]) by {
        if r.contains(x) {
            let q = choose|q: int| 0 <= q < r.len() && r[q] == x;
            let q0 = if q < p { q } else { q + 1 };
            assert(s[q0] == x);
        }
        if s.contains(x) && x != s[p] {
            let q = choose|q: int| 0 <= q < s.len() && s[q] == x;
            if q < p {
                assert(r[q] == x);
            } else {
                assert(r[q - 1] == x);
            }
        }
    }
}

proof fn lemma_insert_sorted(m: Map<LayerId, LayerState>, s: Seq<LayerId>, p: int, id: LayerId)
    requires
        0 <= p <= s.len(),
        m.contains_key(id),
        m[id].visible,
        !s.contains(id),
        s.no_duplicates(),
        all_visible_in(m, s),
        sorted_by_z(m, s),
        forall|q: int| 0 <= q < p ==> m[#[trigger] s[q]].z <= m[id].z,
        p < s.len() ==> m[s[p]].z > m[id].z,
    ensures
        s.insert(p, id).no_duplicates(),
        all_visible_in(m, s.insert(p, id)),
        sorted_by_z(m, s.insert(p, id)),
        forall|x: LayerId| s.insert(p, id).contains(x) <==> (s.contains(x) || x == id),
{
    let t = s.insert(p, id);
    assert forall|q: int| 0 <= q < t.len() implies (q < p ==> t[q] == s[q]) && (q == p ==> t[q] == id)
        && (q > p ==> t[q] == s[q - 1]) by {}
    assert forall|a: int, b: int| 0 <= a < b < t.len() implies t[a] != t[b] by {
        if a != p && b != p {
            let a0 = if a < p { a } else { a - 1 };
            let b0 = if b < p { b } else { b - 1 };
            assert(t[a] == s[a0] && t[b] == s[b0]);
        } else if a == p {
            assert(t[b] == s[b - 1]);
        } else {
            assert(t[a] == s[a]);
        }
    }
    assert forall|q: int| 0 <= q < t.len() implies m.contains_key(#[trigger] t[q]) && m[t[q]].visible by {
        if q < p {
            assert(t[q] == s[q]);
        } else if q > p {
            assert(t[q] == s[q - 1]);
        }
    }
    assert forall|a: int, b: int| 0 <= a < b < t.len() implies m[#[trigger] t[a]].z <= m[#[trigger] t[b]].z by {
        if b < p {
            assert(t[a] == s[a] && t[b] == s[b]);
        } else if b == p {
            assert(t[a] == s[a]);
        } else if a < p {
            assert(t[a] == s[a] && t[b] == s[b - 1]);
            if b - 1 > p {
                assert(m[s[p]].z <= m[s[b - 1]].z);
            }
        } else if a == p {
            assert(t[b] == s[b - 1]);
            if b - 1 > p {
                assert(m[s[p]].z <= m[s[b - 1]].z);
            }
        } else {
            assert(t[a] == s[a - 1] && t[b] == s[b - 1]);
        }
    }
    assert forall|x: LayerId| t.contains(x) <==> (s.contains(x) || x == id) by {
        if t.contains(x) {
            let q = choose|q: int| 0 <= q < t.len() && t[q] == x;
            if q < p {
                assert(s[q] == x);
            } else if q > p {
                assert(s[q - 1] == x);
            }
        }
        if s.contains(x) {
            let q = choose|q: int| 0 <= q < s.len() && s[q] == x;
            if q < p {
                assert(t[q] == x);
            } else {
                assert(t[q + 1] == x);
            }
        }
        if x == id {
            assert(t[p] == x);
        }
    }
}

} // verus!
