//! The object store: a structure-of-arrays pool of renderable objects whose
//! slots are recycled through a free list. This part holds every column that
//! is not floating point: liveness, kinds, dirty flags, packed attribute
//! caches, texts and hit groups.

use vstd::prelude::*;
use crate::objects::{ObjectDirty, ObjectId, ObjectType, object_id_bits};
use crate::text::FontId;

verus! {

/// Packed colour of opaque white, the default colour of a new object.
pub const PACKED_WHITE: u32 = 0xFFFF_FFFF;

/// Packed texture coordinates covering the whole texture.
pub const PACKED_FULL_UV: [u16; 4] = [0, 0, 65535, 65535];

/// Packed gradient parameters meaning "no gradient" (negative inner radius).
pub const PACKED_NO_GRADIENT: [i16; 4] = [0, 0, -32767, 0];

/// The pool of objects.
pub struct ObjectStore {
    pub alive: Vec<bool>,
    pub object_types: Vec<ObjectType>,
    pub rect_ids: Vec<ObjectId>,
    pub text_aligns: Vec<u8>,
    pub free_slots: Vec<usize>,
    pub texture_ids: Vec<u32>,
    pub dirty: bool,
    pub dirty_objects: Vec<ObjectDirty>,
    pub colors_cache: Vec<u32>,
    pub colors2_cache: Vec<u32>,
    pub rect_radii_cache: Vec<[u16; 4]>,
    pub uvs_cache: Vec<[u16; 4]>,
    pub gradient_data_cache: Vec<[i16; 4]>,
    pub effect_data_cache: Vec<[u16; 2]>,
    pub text_ids: Vec<ObjectId>,
    pub text_contents: Vec<String>,
    pub font_ids: Vec<FontId>,
    pub hit_groups: Vec<u16>,
}

/// The store as sequences.
pub struct StoreView {
    pub alive: Seq<bool>,
    pub object_types: Seq<ObjectType>,
    pub rect_ids: Seq<ObjectId>,
    pub text_aligns: Seq<u8>,
    pub free_slots: Seq<usize>,
    pub texture_ids: Seq<u32>,
    pub dirty: bool,
    pub dirty_objects: Seq<bool>,
    pub colors_cache: Seq<u32>,
    pub colors2_cache: Seq<u32>,
    pub rect_radii_cache: Seq<[u16; 4]>,
    pub uvs_cache: Seq<[u16; 4]>,
    pub gradient_data_cache: Seq<[i16; 4]>,
    pub effect_data_cache: Seq<[u16; 2]>,
    pub text_ids: Seq<ObjectId>,
    pub text_contents: Seq<Seq<char>>,
    pub font_ids: Seq<FontId>,
    pub hit_groups: Seq<u16>,
}

impl View for ObjectStore {
    type V = StoreView;

    open spec fn view(&self) -> StoreView {
        StoreView {
            alive: self.alive@,
            object_types: self.object_types@,
            rect_ids: self.rect_ids@,
            text_aligns: self.text_aligns@,
            free_slots: self.free_slots@,
            texture_ids: self.texture_ids@,
            dirty: self.dirty,
            dirty_objects: self.dirty_objects@.map_values(|d: ObjectDirty| d.0),
            colors_cache: self.colors_cache@,
            colors2_cache: self.colors2_cache@,
            rect_radii_cache: self.rect_radii_cache@,
            uvs_cache: self.uvs_cache@,
            gradient_data_cache: self.gradient_data_cache@,
            effect_data_cache: self.effect_data_cache@,
            text_ids: self.text_ids@,
            text_contents: self.text_contents@.map_values(|s: String| s@),
            font_ids: self.font_ids@,
            hit_groups: self.hit_groups@,
        }
    }
}

/// Number of slots in the store.
pub open spec fn slot_count(v: StoreView) -> nat {
    v.alive.len()
}

/// The store's invariant: every per-slot column has one entry per slot, and
/// the free list holds, once each, exactly the slots that are not alive.
pub open spec fn store_wf(v: StoreView) -> bool {
    let n = v.alive.len();
    &&& v.object_types.len() == n
    &&& v.text_aligns.len() == n
    &&& v.texture_ids.len() == n
    &&& v.dirty_objects.len() == n
    &&& v.colors_cache.len() == n
    &&& v.colors2_cache.len() == n
    &&& v.rect_radii_cache.len() == n
    &&& v.uvs_cache.len() == n
    &&& v.gradient_data_cache.len() == n
    &&& v.effect_data_cache.len() == n
    &&& v.text_contents.len() == n
    &&& v.font_ids.len() == n
    &&& v.hit_groups.len() == n
    &&& v.free_slots.no_duplicates()
    &&& forall|k: int| 0 <= k < v.free_slots.len() ==> #[trigger] v.free_slots[k] < n
    &&& forall|i: int| 0 <= i < n ==> (!#[trigger] v.alive[i] <==> v.free_slots.contains(i as usize))
    &&& forall|k: int| 0 <= k < v.rect_ids.len() ==> slot_of(#[trigger] v.rect_ids[k]) < n
    &&& forall|k: int| 0 <= k < v.text_ids.len() ==> slot_of(#[trigger] v.text_ids[k]) < n
}

/// The slots below `n` of live objects in hit group `g`, in slot order.
pub open spec fn hit_candidate_slots(alive: Seq<bool>, groups: Seq<u16>, g: u16, n: nat) -> Seq<usize>
    decreases n,
{
    if n == 0 {
        Seq::empty()
    } else {
        let prev = hit_candidate_slots(alive, groups, g, (n - 1) as nat);
        if alive[n - 1] && groups[n - 1] == g {
            prev.push((n - 1) as usize)
        } else {
            prev
        }
    }
}

/// The slot an identifier refers to.
pub open spec fn slot_of(id: ObjectId) -> int {
    (id.0 % 0x0100_0000) as int
}

/// The store with slot `i` given the defaults of a new object and taken off
/// the free list (its kind is kept).
pub open spec fn reset_slot(v: StoreView, i: int) -> StoreView {
    StoreView {
        alive: v.alive.update(i, true),
        text_aligns: v.text_aligns.update(i, 0),
        texture_ids: v.texture_ids.update(i, 0),
        free_slots: v.free_slots.drop_last(),
        dirty: true,
        dirty_objects: v.dirty_objects.update(i, true),
        colors_cache: v.colors_cache.update(i, PACKED_WHITE),
        colors2_cache: v.colors2_cache.update(i, PACKED_WHITE),
        rect_radii_cache: v.rect_radii_cache.update(i, [0u16, 0u16, 0u16, 0u16]),
        uvs_cache: v.uvs_cache.update(i, PACKED_FULL_UV),
        gradient_data_cache: v.gradient_data_cache.update(i, PACKED_NO_GRADIENT),
        effect_data_cache: v.effect_data_cache.update(i, [0u16, 0u16]),
        text_contents: v.text_contents.update(i, Seq::empty()),
        font_ids: v.font_ids.update(i, FontId(0)),
        hit_groups: v.hit_groups.update(i, 0),
        ..v
    }
}

/// The store with a new slot of defaults appended (its kind unknown).
pub open spec fn push_slot(v: StoreView) -> StoreView {
    StoreView {
        alive: v.alive.push(true),
        object_types: v.object_types.push(ObjectType::Unknown),
        text_aligns: v.text_aligns.push(0),
        texture_ids: v.texture_ids.push(0),
        dirty: true,
        dirty_objects: v.dirty_objects.push(true),
        colors_cache: v.colors_cache.push(PACKED_WHITE),
        colors2_cache: v.colors2_cache.push(PACKED_WHITE),
        rect_radii_cache: v.rect_radii_cache.push([0u16, 0u16, 0u16, 0u16]),
        uvs_cache: v.uvs_cache.push(PACKED_FULL_UV),
        gradient_data_cache: v.gradient_data_cache.push(PACKED_NO_GRADIENT),
        effect_data_cache: v.effect_data_cache.push([0u16, 0u16]),
        text_contents: v.text_contents.push(Seq::empty()),
        font_ids: v.font_ids.push(FontId(0)),
        hit_groups: v.hit_groups.push(0),
        ..v
    }
}

/// The slot the next allocation takes: the most recently freed one, else a
/// new one at the end.
pub open spec fn next_slot(v: StoreView) -> int {
    if v.free_slots.len() > 0 {
        v.free_slots.last() as int
    } else {
        v.alive.len() as int
    }
}

/// The store after allocating a slot.
pub open spec fn alloc_store(v: StoreView) -> StoreView {
    if v.free_slots.len() > 0 {
        reset_slot(v, v.free_slots.last() as int)
    } else {
        push_slot(v)
    }
}

/// Gives slot `i` the kind `ty`, recording `id` in `ids` when the kind changes.
pub open spec fn with_kind(v: StoreView, i: int, ty: ObjectType, id: ObjectId) -> StoreView {
    if v.object_types[i] != ty {
        if ty == ObjectType::Rect {
            StoreView { rect_ids: v.rect_ids.push(id), object_types: v.object_types.update(i, ty), ..v }
        } else {
            StoreView { text_ids: v.text_ids.push(id), object_types: v.object_types.update(i, ty), ..v }
        }
    } else {
        v
    }
}

/// The store after `new_rect`.
pub open spec fn new_rect_store(v: StoreView) -> StoreView {
    let i = next_slot(v);
    with_kind(alloc_store(v), i, ObjectType::Rect, ObjectId(object_id_bits(ObjectType::Rect, i as usize)))
}

/// The store after `new_text` with the given text and font.
pub open spec fn new_text_store(v: StoreView, text: Seq<char>, font: FontId) -> StoreView {
    let i = next_slot(v);
    let w = with_kind(alloc_store(v), i, ObjectType::Text, ObjectId(object_id_bits(ObjectType::Text, i as usize)));
    StoreView {
        text_contents: w.text_contents.update(i, text),
        font_ids: w.font_ids.update(i, font),
        dirty: true,
        ..w
    }
}

/// The store after removing the object in slot `i`: a live object dies and
/// its slot goes on the free list; anything else is left as it is.
pub open spec fn remove_store(v: StoreView, i: int) -> StoreView {
    if i < v.alive.len() && v.alive[i] {
        StoreView {
            alive: v.alive.update(i, false),
            dirty: true,
            dirty_objects: v.dirty_objects.update(i, true),
            free_slots: v.free_slots.push(i as usize),
            ..v
        }
    } else {
        v
    }
}

/// The store with slot `i` marked as changed.
pub open spec fn touch(v: StoreView, i: int) -> StoreView {
    StoreView { dirty: true, dirty_objects: v.dirty_objects.update(i, true), ..v }
}

proof fn lemma_drop_last_no_dup(s: Seq<usize>)
    requires
        s.len() > 0,
        s.no_duplicates(),
    ensures
        s.drop_last().no_duplicates(),
        !s.drop_last().contains(s.last()),
        forall|x: usize| #[trigger] s.drop_last().contains(x) <==> (s.contains(x) && x != s.last()),
{
    assert forall|x: usize| #[trigger] s.drop_last().contains(x) <==> (s.contains(x) && x != s.last()) by {
        if s.contains(x) && x != s.last() {
            let k = choose|k: int| 0 <= k < s.len() && s[k] == x;
            assert(k != s.len() - 1);
            assert(s.drop_last()[k] == x);
        }
        if s.drop_last().contains(x) {
            let k = choose|k: int| 0 <= k < s.drop_last().len() && s.drop_last()[k] == x;
            assert(s[k] == x);
            assert(k != s.len() - 1);
        }
    }
}

proof fn lemma_push_no_dup(s: Seq<usize>, x: usize)
    requires
        s.no_duplicates(),
        !s.contains(x),
    ensures
        s.push(x).no_duplicates(),
        forall|y: usize| #[trigger] s.push(x).contains(y) <==> (s.contains(y) || y == x),
{
    assert forall|y: usize| #[trigger] s.push(x).contains(y) <==> (s.contains(y) || y == x) by {
        if s.contains(y) {
            let k = choose|k: int| 0 <= k < s.len() && s[k] == y;
            assert(s.push(x)[k] == y);
        }
        if y == x {
            assert(s.push(x)[s.len() as int] == y);
        }
        if s.push(x).contains(y) {
            let k = choose|k: int| 0 <= k < s.push(x).len() && s.push(x)[k] == y;
            if k < s.len() {
                assert(s[k] == y);
            }
        }
    }
}

proof fn lemma_id_slot(ty: ObjectType, i: usize)
    ensures
        slot_of(ObjectId(object_id_bits(ty, i))) == i % 0x0100_0000,
{
    crate::objects::law_object_id_round_trip(ty, i);
    let w = object_id_bits(ty, i);
    assert((w & 0x00FF_FFFFusize) == w % 0x0100_0000) by (bit_vector);
}

impl ObjectStore {
    /// An empty store.
    pub fn new() -> (r: ObjectStore)
        ensures
            store_wf(r@),
            slot_count(r@) == 0,
            r@.free_slots.len() == 0,
            r@.rect_ids.len() == 0,
            r@.text_ids.len() == 0,
            !r@.dirty,
    {
        let r = ObjectStore {
            alive: Vec::with_capacity(1024),
            object_types: Vec::with_capacity(1024),
            rect_ids: Vec::with_capacity(1024),
            text_aligns: Vec::with_capacity(128),
            free_slots: Vec::with_capacity(128),
            texture_ids: Vec::with_capacity(1024),
            dirty: false,
            dirty_objects: Vec::with_capacity(1024),
            colors_cache: Vec::with_capacity(1024),
            colors2_cache: Vec::with_capacity(1024),
            rect_radii_cache: Vec::with_capacity(1024),
            uvs_cache: Vec::with_capacity(1024),
            gradient_data_cache: Vec::with_capacity(1024),
            effect_data_cache: Vec::with_capacity(1024),
            text_ids: Vec::with_capacity(128),
            text_contents: Vec::with_capacity(128),
            font_ids: Vec::with_capacity(128),
            hit_groups: Vec::with_capacity(1024),
        };
        assert(r@.dirty_objects =~= Seq::<bool>::empty());
        assert(r@.text_contents =~= Seq::<Seq<char>>::empty());
        r
    }

    /// Takes a slot for a new object: the most recently freed slot, reset to
    /// the defaults of a new object, or else a new slot at the end.
    fn alloc_common(&mut self) -> (r: usize)
        requires
            store_wf(old(self)@),
        ensures
            r == next_slot(old(self)@),
            final(self)@ == alloc_store(old(self)@),
            store_wf(final(self)@),
            r < slot_count(final(self)@),
    {
        let ghost v = self@;
        if let Some(idx) = self.free_slots.pop() {
            proof {
                lemma_drop_last_no_dup(v.free_slots);
                assert(v.free_slots[v.free_slots.len() - 1] == idx);
            }
            self.alive[idx] = true;
            self.text_aligns[idx] = 0;
            self.texture_ids[idx] = 0;
            self.dirty = true;
            self.dirty_objects[idx] = ObjectDirty::new();
            self.colors_cache[idx] = PACKED_WHITE;
            self.colors2_cache[idx] = PACKED_WHITE;
            self.rect_radii_cache[idx] = [0u16, 0u16, 0u16, 0u16];
            self.uvs_cache[idx] = PACKED_FULL_UV;
            self.gradient_data_cache[idx] = PACKED_NO_GRADIENT;
            self.effect_data_cache[idx] = [0u16, 0u16];
            self.text_contents[idx] = String::new();
            self.font_ids[idx] = FontId(0);
            self.hit_groups[idx] = 0;
            proof {
                let w = reset_slot(v, idx as int);
                assert(self@.dirty_objects =~= w.dirty_objects);
                assert(self@.text_contents =~= w.text_contents);
                assert(self@.alive =~= w.alive);
                assert(self@ == w);
                assert forall|i: int| 0 <= i < slot_count(w) implies (!#[trigger] w.alive[i]
                    <==> w.free_slots.contains(i as usize)) by {
                    assert(w.free_slots == v.free_slots.drop_last());
                    assert(v.free_slots.drop_last().contains(i as usize) <==> (v.free_slots.contains(i as usize)
                        && i as usize != v.free_slots.last()));
                    assert(v.free_slots.last() == idx);
                    assert(self.alive@.len() == self.alive.len());
                    assert((i as usize) as int == i);
                    if i != idx {
                        assert(v.alive[i] == w.alive[i]);
                        assert(!v.alive[i] <==> v.free_slots.contains(i as usize));
                        assert(!w.alive[i] <==> w.free_slots.contains(i as usize));
                    } else {
                        assert(w.alive[i]);
                        assert(!w.free_slots.contains(i as usize));
                    }
                }
                assert forall|k: int| 0 <= k < w.free_slots.len() implies #[trigger] w.free_slots[k]
                    < slot_count(w) by {
                    assert(w.free_slots[k] == v.free_slots[k]);
                }
            }
            return idx;
        }
        let index = self.alive.len();
        self.alive.push(true);
        self.object_types.push(ObjectType::Unknown);
        self.text_aligns.push(0);
        self.texture_ids.push(0);
        self.dirty = true;
        self.dirty_objects.push(ObjectDirty::new());
        self.colors_cache.push(PACKED_WHITE);
        self.colors2_cache.push(PACKED_WHITE);
        self.rect_radii_cache.push([0u16, 0u16, 0u16, 0u16]);
        self.uvs_cache.push(PACKED_FULL_UV);
        self.gradient_data_cache.push(PACKED_NO_GRADIENT);
        self.effect_data_cache.push([0u16, 0u16]);
        self.text_contents.push(String::new());
        self.font_ids.push(FontId(0));
        self.hit_groups.push(0);
        proof {
            let w = push_slot(v);
            assert(self@.dirty_objects =~= w.dirty_objects);
            assert(self@.text_contents =~= w.text_contents);
            assert(self@ == w);
            assert forall|i: int| 0 <= i < slot_count(w) implies (!#[trigger] w.alive[i]
                <==> w.free_slots.contains(i as usize)) by {
                if i < index {
                    assert(v.alive[i] == w.alive[i]);
                } else {
                    if w.free_slots.contains(i as usize) {
                        let k = choose|k: int| 0 <= k < w.free_slots.len() && w.free_slots[k] == i as usize;
                        assert(v.free_slots[k] < index);
                    }
                }
            }
        }
        index
    }

    /// Creates a rectangle. The slot it takes is the most recently freed one,
    /// else a new one; the slot is recorded among the rectangles when it held
    /// another kind before.
    pub fn new_rect(&mut self) -> (r: ObjectId)
        requires
            store_wf(old(self)@),
        ensures
            r == ObjectId(object_id_bits(ObjectType::Rect, next_slot(old(self)@) as usize)),
            final(self)@ == new_rect_store(old(self)@),
            store_wf(final(self)@),
            final(self)@.alive[next_slot(old(self)@)],
            final(self)@.object_types[next_slot(old(self)@)] == ObjectType::Rect,
    {
        let ghost v = self@;
        let index = self.alloc_common();
        let id = ObjectId::new(ObjectType::Rect, index);
        proof {
            lemma_id_slot(ObjectType::Rect, index);
        }
        if self.object_types[index] != ObjectType::Rect {
            self.rect_ids.push(id);
            self.object_types[index] = ObjectType::Rect;
            assert forall|k: int| 0 <= k < self@.rect_ids.len() implies slot_of(#[trigger] self@.rect_ids[k])
                < slot_count(self@) by {
                if k < self@.rect_ids.len() - 1 {
                    assert(self@.rect_ids[k] == alloc_store(v).rect_ids[k]);
                }
            }
        }
        id
    }

    /// Creates a text object with the given contents and font. The slot is
    /// taken as for `new_rect`; it is recorded among the texts when it held
    /// another kind before.
    pub fn new_text(&mut self, text: String, font_id: FontId) -> (r: ObjectId)
        requires
            store_wf(old(self)@),
        ensures
            r == ObjectId(object_id_bits(ObjectType::Text, next_slot(old(self)@) as usize)),
            final(self)@ == new_text_store(old(self)@, text@, font_id),
            store_wf(final(self)@),
            final(self)@.alive[next_slot(old(self)@)],
            final(self)@.object_types[next_slot(old(self)@)] == ObjectType::Text,
    {
        let ghost t = text@;
        let ghost v = self@;
        let index = self.alloc_common();
        let id = ObjectId::new(ObjectType::Text, index);
        proof {
            lemma_id_slot(ObjectType::Text, index);
        }
        if self.object_types[index] != ObjectType::Text {
            self.text_ids.push(id);
            self.object_types[index] = ObjectType::Text;
            assert forall|k: int| 0 <= k < self@.text_ids.len() implies slot_of(#[trigger] self@.text_ids[k])
                < slot_count(self@) by {
                if k < self@.text_ids.len() - 1 {
                    assert(self@.text_ids[k] == alloc_store(v).text_ids[k]);
                }
            }
        }
        let ghost w = self@;
        self.text_contents[index] = text;
        self.font_ids[index] = font_id;
        self.dirty = true;
        assert(self@.text_contents =~= w.text_contents.update(index as int, t));
        id
    }

    /// Replaces the text of an object, marking it changed when the text differs.
    pub fn set_text(&mut self, id: ObjectId, text: String)
        requires
            store_wf(old(self)@),
            slot_of(id) < slot_count(old(self)@),
        ensures
            final(self)@ == (if old(self)@.text_contents[slot_of(id)] != text@ {
                StoreView {
                    text_contents: old(self)@.text_contents.update(slot_of(id), text@),
                    ..touch(old(self)@, slot_of(id))
                }
            } else {
                old(self)@
            }),
            store_wf(final(self)@),
    {
        let idx = id.index();
        let ghost v = self@;
        let ghost t = text@;
        if self.text_contents[idx] != text {
            self.text_contents[idx] = text;
            self.dirty = true;
            self.dirty_objects[idx].update();
            assert(self@.text_contents =~= v.text_contents.update(idx as int, t));
            assert(self@.dirty_objects =~= v.dirty_objects.update(idx as int, true));
        }
    }

    /// Marks an object (and so the store) as changed; every setter of an
    /// object's attributes ends with this.
    pub fn mark_changed(&mut self, id: ObjectId)
        requires
            store_wf(old(self)@),
            slot_of(id) < slot_count(old(self)@),
        ensures
            final(self)@ == touch(old(self)@, slot_of(id)),
            store_wf(final(self)@),
    {
        let idx = id.index();
        let ghost v = self@;
        self.dirty = true;
        self.dirty_objects[idx].update();
        assert(self@.dirty_objects =~= v.dirty_objects.update(idx as int, true));
        assert(self@.rect_ids == v.rect_ids);
        assert(self@.text_ids == v.text_ids);
    }

    /// Removes an object: a live object dies and its slot goes on the free
    /// list for reuse; a dead or unknown slot is left alone.
    pub fn remove(&mut self, id: ObjectId)
        requires
            store_wf(old(self)@),
        ensures
            final(self)@ == remove_store(old(self)@, slot_of(id)),
            store_wf(final(self)@),
    {
        let idx = id.index();
        let ghost v = self@;
        if idx < self.alive.len() {
            if self.alive[idx] {
                self.alive[idx] = false;
                self.dirty = true;
                self.dirty_objects[idx].update();
                self.free_slots.push(idx);
                proof {
                    let w = remove_store(v, idx as int);
                    assert(self@.dirty_objects =~= w.dirty_objects);
                    assert(self@ == w);
                    assert(!v.free_slots.contains(idx));
                    lemma_push_no_dup(v.free_slots, idx);
                    assert forall|i: int| 0 <= i < slot_count(w) implies (!#[trigger] w.alive[i]
                        <==> w.free_slots.contains(i as usize)) by {
                        if i != idx {
                            assert(v.alive[i] == w.alive[i]);
                        }
                    }
                    assert forall|k: int| 0 <= k < w.free_slots.len() implies #[trigger] w.free_slots[k]
                        < slot_count(w) by {
                        if k < v.free_slots.len() {
                            assert(w.free_slots[k] == v.free_slots[k]);
                        }
                    }
                }
            }
        }
    }

    /// Sets the packed colour of an object.
    pub fn config_color(&mut self, id: ObjectId, packed: u32)
        requires
            store_wf(old(self)@),
            slot_of(id) < slot_count(old(self)@),
        ensures
            final(self)@ == (StoreView {
                colors_cache: old(self)@.colors_cache.update(slot_of(id), packed),
                ..touch(old(self)@, slot_of(id))
            }),
            store_wf(final(self)@),
    {
        let idx = id.index();
        let ghost v = self@;
        self.colors_cache[idx] = packed;
        self.dirty = true;
        self.dirty_objects[idx].update();
        assert(self@.dirty_objects =~= v.dirty_objects.update(idx as int, true));
    }

    /// Sets the packed second (gradient) colour of an object.
    pub fn config_color2(&mut self, id: ObjectId, packed: u32)
        requires
            store_wf(old(self)@),
            slot_of(id) < slot_count(old(self)@),
        ensures
            final(self)@ == (StoreView {
                colors2_cache: old(self)@.colors2_cache.update(slot_of(id), packed),
                ..touch(old(self)@, slot_of(id))
            }),
            store_wf(final(self)@),
    {
        let idx = id.index();
        let ghost v = self@;
        self.colors2_cache[idx] = packed;
        self.dirty = true;
        self.dirty_objects[idx].update();
        assert(self@.dirty_objects =~= v.dirty_objects.update(idx as int, true));
    }

    /// Sets the packed texture coordinates of an object.
    pub fn config_uv(&mut self, id: ObjectId, packed: [u16; 4])
        requires
            store_wf(old(self)@),
            slot_of(id) < slot_count(old(self)@),
        ensures
            final(self)@ == (StoreView {
                uvs_cache: old(self)@.uvs_cache.update(slot_of(id), packed),
                ..touch(old(self)@, slot_of(id))
            }),
            store_wf(final(self)@),
    {
        let idx = id.index();
        let ghost v = self@;
        self.uvs_cache[idx] = packed;
        self.dirty = true;
        self.dirty_objects[idx].update();
        assert(self@.dirty_objects =~= v.dirty_objects.update(idx as int, true));
    }

    /// Sets the packed corner radii of an object; an identifier beyond the
    /// store is ignored.
    pub fn set_rounded(&mut self, id: ObjectId, packed: [u16; 4])
        requires
            store_wf(old(self)@),
        ensures
            final(self)@ == (if slot_of(id) < slot_count(old(self)@) {
                StoreView {
                    rect_radii_cache: old(self)@.rect_radii_cache.update(slot_of(id), packed),
                    ..touch(old(self)@, slot_of(id))
                }
            } else {
                old(self)@
            }),
            store_wf(final(self)@),
    {
        let idx = id.index();
        let ghost v = self@;
        if idx < self.rect_radii_cache.len() {
            self.rect_radii_cache[idx] = packed;
            self.dirty = true;
            self.dirty_objects[idx].update();
            assert(self@.dirty_objects =~= v.dirty_objects.update(idx as int, true));
        }
    }

    /// Sets the texture of an object (0 for none).
    pub fn config_texture(&mut self, id: ObjectId, texture_id: u32)
        requires
            store_wf(old(self)@),
            slot_of(id) < slot_count(old(self)@),
        ensures
            final(self)@ == (StoreView {
                texture_ids: old(self)@.texture_ids.update(slot_of(id), texture_id),
                ..touch(old(self)@, slot_of(id))
            }),
            store_wf(final(self)@),
    {
        let idx = id.index();
        let ghost v = self@;
        self.texture_ids[idx] = texture_id;
        self.dirty = true;
        self.dirty_objects[idx].update();
        assert(self@.dirty_objects =~= v.dirty_objects.update(idx as int, true));
    }

    /// Sets the packed gradient parameters of an object.
    pub fn config_gradient_data(&mut self, id: ObjectId, packed: [i16; 4])
        requires
            store_wf(old(self)@),
            slot_of(id) < slot_count(old(self)@),
        ensures
            final(self)@ == (StoreView {
                gradient_data_cache: old(self)@.gradient_data_cache.update(slot_of(id), packed),
                ..touch(old(self)@, slot_of(id))
            }),
            store_wf(final(self)@),
    {
        let idx = id.index();
        let ghost v = self@;
        self.gradient_data_cache[idx] = packed;
        self.dirty_objects[idx].update();
        self.dirty = true;
        assert(self@.dirty_objects =~= v.dirty_objects.update(idx as int, true));
    }

    /// Sets the packed border and shadow parameters of an object.
    pub fn config_effect_data(&mut self, id: ObjectId, packed: [u16; 2])
        requires
            store_wf(old(self)@),
            slot_of(id) < slot_count(old(self)@),
        ensures
            final(self)@ == (StoreView {
                effect_data_cache: old(self)@.effect_data_cache.update(slot_of(id), packed),
                ..touch(old(self)@, slot_of(id))
            }),
            store_wf(final(self)@),
    {
        let idx = id.index();
        let ghost v = self@;
        self.effect_data_cache[idx] = packed;
        self.dirty_objects[idx].update();
        self.dirty = true;
        assert(self@.dirty_objects =~= v.dirty_objects.update(idx as int, true));
    }

    /// Sets the text alignment byte of an object, marking it changed when it differs.
    pub fn set_text_align(&mut self, id: ObjectId, align: u8)
        requires
            store_wf(old(self)@),
            slot_of(id) < slot_count(old(self)@),
        ensures
            final(self)@ == (if old(self)@.text_aligns[slot_of(id)] != align {
                StoreView {
                    text_aligns: old(self)@.text_aligns.update(slot_of(id), align),
                    ..touch(old(self)@, slot_of(id))
                }
            } else {
                old(self)@
            }),
            store_wf(final(self)@),
    {
        let idx = id.index();
        let ghost v = self@;
        if self.text_aligns[idx] != align {
            self.text_aligns[idx] = align;
            self.dirty = true;
            self.dirty_objects[idx].update();
            assert(self@.dirty_objects =~= v.dirty_objects.update(idx as int, true));
        }
    }

    /// Sets the hit group of an object, marking it changed when it differs.
    pub fn set_hit_group(&mut self, id: ObjectId, group: u16)
        requires
            store_wf(old(self)@),
            slot_of(id) < slot_count(old(self)@),
        ensures
            final(self)@ == (if old(self)@.hit_groups[slot_of(id)] != group {
                StoreView {
                    hit_groups: old(self)@.hit_groups.update(slot_of(id), group),
                    ..touch(old(self)@, slot_of(id))
                }
            } else {
                old(self)@
            }),
            store_wf(final(self)@),
    {
        let idx = id.index();
        let ghost v = self@;
        if self.hit_groups[idx] != group {
            self.hit_groups[idx] = group;
            self.dirty = true;
            self.dirty_objects[idx].update();
            assert(self@.dirty_objects =~= v.dirty_objects.update(idx as int, true));
        }
    }

    /// The hit group of an object.
    pub fn get_hit_group(&self, id: ObjectId) -> (r: u16)
        requires
            store_wf(self@),
            slot_of(id) < slot_count(self@),
        ensures
            r == self@.hit_groups[slot_of(id)],
    {
        self.hit_groups[id.index()]
    }

    /// The text of an object; empty for an identifier beyond the store.
    pub fn get_text(&self, id: ObjectId) -> (r: &str)
        requires
            store_wf(self@),
        ensures
            r@ == (if slot_of(id) < slot_count(self@) {
                self@.text_contents[slot_of(id)]
            } else {
                ""@
            }),
    {
        let idx = id.index();
        if idx < self.text_contents.len() {
            self.text_contents[idx].as_str()
        } else {
            ""
        }
    }

    /// The text alignment byte of an object; 0 for an identifier beyond the store.
    pub fn get_text_align(&self, id: ObjectId) -> (r: u8)
        requires
            store_wf(self@),
        ensures
            r == (if slot_of(id) < slot_count(self@) {
                self@.text_aligns[slot_of(id)]
            } else {
                0
            }),
    {
        let idx = id.index();
        if idx < self.text_aligns.len() {
            self.text_aligns[idx]
        } else {
            0
        }
    }

    /// Whether the object is alive; `false` for an identifier beyond the store.
    pub fn is_alive(&self, id: ObjectId) -> (r: bool)
        requires
            store_wf(self@),
        ensures
            r == (slot_of(id) < slot_count(self@) && self@.alive[slot_of(id)]),
    {
        let idx = id.index();
        if idx < self.alive.len() {
            self.alive[idx]
        } else {
            false
        }
    }

    /// The slots a hit test of `group` considers: the live objects of that
    /// hit group, in slot order.
    pub fn hit_candidates(&self, group: u16) -> (r: Vec<usize>)
        requires
            store_wf(self@),
        ensures
            r@ == hit_candidate_slots(self@.alive, self@.hit_groups, group, slot_count(self@)),
    {
        let n = self.alive.len();
        let mut out: Vec<usize> = Vec::new();
        let mut i: usize = 0;
        while i < n
            invariant
                store_wf(self@),
                n == slot_count(self@),
                i <= n,
                out@ == hit_candidate_slots(self@.alive, self@.hit_groups, group, i as nat),
            decreases n - i,
        {
            if self.alive[i] && self.hit_groups[i] == group {
                out.push(i);
            }
            i = i + 1;
        }
        out
    }

    /// The identifier of the object in a slot: its kind and the slot.
    pub fn id_of_slot(&self, idx: usize) -> (r: ObjectId)
        requires
            store_wf(self@),
            idx < slot_count(self@),
        ensures
            r == ObjectId(object_id_bits(self@.object_types[idx as int], idx)),
    {
        ObjectId::new(self.object_types[idx], idx)
    }

    /// Number of slots, live or free.
    pub fn len(&self) -> (r: usize)
        ensures
            r == slot_count(self@),
    {
        self.alive.len()
    }
}

/// Removing a live object puts its slot first in line: the next object
/// created takes that slot again, so a rectangle removed and re-created gets
/// back the same identifier (for slots below 2^24).
pub proof fn law_removed_slot_is_reused(v: StoreView, j: usize)
    requires
        store_wf(v),
        j < slot_count(v),
        j < 0x0100_0000,
        v.alive[j as int],
    ensures
        next_slot(remove_store(v, j as int)) == j,
        slot_of(ObjectId(object_id_bits(ObjectType::Rect, j))) == j,
        ({
            let id = ObjectId(object_id_bits(ObjectType::Rect, j));
            let again = next_slot(remove_store(v, slot_of(id)));
            ObjectId(object_id_bits(ObjectType::Rect, again as usize)) == id
        }),
        new_rect_store(remove_store(v, j as int)).alive[j as int],
        slot_count(new_rect_store(remove_store(v, j as int))) == slot_count(v),
{
    crate::objects::law_object_id_round_trip(ObjectType::Rect, j);
    let w = object_id_bits(ObjectType::Rect, j);
    assert((w & 0x00FF_FFFFusize) == w % 0x0100_0000) by (bit_vector);
    assert(j % 0x0100_0000 == j);
}

/// Removing an object makes it dead and frees its slot; creating an object
/// makes its slot live and takes it off the free list.
pub proof fn law_remove_then_alive(v: StoreView, i: int)
    requires
        store_wf(v),
        0 <= i < slot_count(v),
    ensures
        !remove_store(v, i).alive[i],
        remove_store(v, i).free_slots.contains(i as usize),
        new_rect_store(v).alive[next_slot(v)],
        !new_rect_store(v).free_slots.contains(next_slot(v) as usize),
        next_slot(v) <= slot_count(v),
{
    if v.alive[i] {
        assert(remove_store(v, i).free_slots[v.free_slots.len() as int] == i as usize);
    }
    if v.free_slots.len() > 0 {
        lemma_drop_last_no_dup(v.free_slots);
    } else {
        if new_rect_store(v).free_slots.contains(next_slot(v) as usize) {
            assert(false);
        }
    }
}

/// The free list holds exactly the dead slots.
pub proof fn law_free_slots_are_dead_slots(v: StoreView)
    requires
        store_wf(v),
    ensures
        v.free_slots.to_set() == Set::new(|i: usize| i < slot_count(v) && !v.alive[i as int]),
{
    assert forall|i: usize| #[trigger] v.free_slots.to_set().contains(i) <==> (i < slot_count(v)
        && !v.alive[i as int]) by {
        if v.free_slots.contains(i) {
            let k = choose|k: int| 0 <= k < v.free_slots.len() && v.free_slots[k] == i;
            assert(v.free_slots[k] < slot_count(v));
        }
    }
    assert(v.free_slots.to_set() =~= Set::new(|i: usize| i < slot_count(v) && !v.alive[i as int]));
}

/// A read gives back what the last write wrote: after `set_text`,
/// `set_hit_group` or `set_text_align` on a slot, the matching getter reads
/// the value written, and every other slot reads as before.
pub proof fn law_store_read_after_write(v: StoreView, i: int, j: int, t: Seq<char>, g: u16, a: u8)
    requires
        store_wf(v),
        0 <= i < slot_count(v),
        0 <= j < slot_count(v),
        j != i,
    ensures
        ({
            let w = if v.text_contents[i] != t {
                StoreView { text_contents: v.text_contents.update(i, t), ..touch(v, i) }
            } else {
                v
            };
            w.text_contents[i] == t && w.text_contents[j] == v.text_contents[j]
        }),
        ({
            let w = if v.hit_groups[i] != g {
                StoreView { hit_groups: v.hit_groups.update(i, g), ..touch(v, i) }
            } else {
                v
            };
            w.hit_groups[i] == g && w.hit_groups[j] == v.hit_groups[j]
        }),
        ({
            let w = if v.text_aligns[i] != a {
                StoreView { text_aligns: v.text_aligns.update(i, a), ..touch(v, i) }
            } else {
                v
            };
            w.text_aligns[i] == a && w.text_aligns[j] == v.text_aligns[j]
        }),
{
}

/// The identifier `new_text` gives the object in slot `i`.
pub open spec fn text_id_of_slot(i: int) -> ObjectId {
    ObjectId(object_id_bits(ObjectType::Text, i as usize))
}

/// Creating a text records its slot among the texts only when the slot did
/// not hold a text already: a slot that held a text leaves the text list as
/// it was, and any other slot's identifier is appended once.
pub proof fn law_new_text_records_slot_once(v: StoreView, text: Seq<char>, font: FontId)
    requires
        store_wf(v),
    ensures
        ({
            let i = next_slot(v);
            let w = new_text_store(v, text, font);
            let held_text = i < slot_count(v) && v.object_types[i] == ObjectType::Text;
            &&& held_text ==> w.text_ids == v.text_ids
            &&& !held_text ==> w.text_ids == v.text_ids.push(text_id_of_slot(i))
            &&& w.object_types[i] == ObjectType::Text
        }),
{
}

/// Creating a text never records an identifier twice: when the text list
/// holds no identifier twice, and holds the new slot's identifier only while
/// that slot holds a text, the list after `new_text` holds none twice
/// either.
pub proof fn law_new_text_keeps_text_ids_distinct(v: StoreView, text: Seq<char>, font: FontId)
    requires
        store_wf(v),
        v.text_ids.no_duplicates(),
        v.text_ids.contains(text_id_of_slot(next_slot(v))) ==> next_slot(v) < slot_count(v)
            && v.object_types[next_slot(v)] == ObjectType::Text,
    ensures
        new_text_store(v, text, font).text_ids.no_duplicates(),
{
    law_new_text_records_slot_once(v, text, font);
    let i = next_slot(v);
    let w = new_text_store(v, text, font);
    if !(i < slot_count(v) && v.object_types[i] == ObjectType::Text) {
        assert(!v.text_ids.contains(text_id_of_slot(i)));
        assert forall|a: int, b: int| 0 <= a < b < w.text_ids.len() implies w.text_ids[a] != w.text_ids[b] by {
            if b == w.text_ids.len() - 1 {
                assert(w.text_ids[a] == v.text_ids[a]);
            } else {
                assert(w.text_ids[a] == v.text_ids[a] && w.text_ids[b] == v.text_ids[b]);
            }
        }
    }
}

/// Removing a text and creating another reuses its slot without recording
/// it again: the text list is the one after the first text was created.
pub proof fn law_text_slot_reuse_records_nothing(v: StoreView, a: Seq<char>, f: FontId, b: Seq<char>, g: FontId)
    requires
        store_wf(v),
        next_slot(v) < 0x0100_0000,
    ensures
        ({
            let i = next_slot(v);
            let v1 = new_text_store(v, a, f);
            let v2 = remove_store(v1, slot_of(text_id_of_slot(i)));
            let v3 = new_text_store(v2, b, g);
            &&& next_slot(v2) == i
            &&& v3.text_ids == v1.text_ids
            &&& v3.alive[i] && v3.text_contents[i] == b
        }),
{
    let i = next_slot(v);
    lemma_id_slot(ObjectType::Text, i as usize);
    let v1 = new_text_store(v, a, f);
    assert(slot_of(text_id_of_slot(i)) == i);
    assert(i < slot_count(v1));
    assert(v1.alive[i]);
    let v2 = remove_store(v1, i);
    assert(v2.free_slots.last() == i as usize);
    assert(v2.object_types[i] == ObjectType::Text);
    assert(next_slot(v2) == i);
    assert(alloc_store(v2) == reset_slot(v2, i));
    assert(alloc_store(v2).object_types[i] == ObjectType::Text);
}

} // verus!
