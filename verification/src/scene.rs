//! Identifiers, options and vertex layouts of the 3D scene.

use vstd::prelude::*;
use crate::pipeline::{
    layout_check, BindGroup, BindGroupEntry, BindEntryType, Format, LayoutView, SamplerType,
    ShaderStage, StepMode, TextureType, VertexAttr, VertexLayout,
};
use crate::moon_pipeline::{attr, scan_locations};
use crate::pipeline::running_max_offset;

verus! {

/// Most lights a scene holds.
pub const MAX_LIGHTS: usize = 4;

/// Size in bytes of one mesh vertex: position, normal, uv and tangent, 11 floats.
pub const VERTEX3D_SIZE: u32 = 44;

/// Size in bytes of one instance record: model matrix, three normal-matrix
/// rows, colour, metallic, roughness and unlit flag, 35 floats.
pub const INSTANCE_RAW_SIZE: u32 = 140;

#[derive(Debug, Clone, Copy, PartialEq, Eq, Hash, Structural)]
pub struct MeshId(pub usize);

#[derive(Debug, Clone, Copy, PartialEq, Eq, Hash, Structural)]
pub struct InstanceId(pub usize);

#[derive(Debug, Clone, Copy, PartialEq, Eq, Hash, Structural)]
pub struct LightId(pub usize);

/// Shadow quality; all but `Off` select a shadow map size.
#[derive(Debug, Clone, Copy, PartialEq, Eq, Hash, Structural)]
pub enum ShadowQuality {
    Off,
    Low,
    Medium,
    High,
    Ultra,
}

/// Lighting model of the scene.
#[derive(Debug, Clone, Copy, PartialEq, Eq, Hash, Structural)]
pub enum LightingModel {
    Pbr,
    Phong,
    Custom,
}

/// Edge length of the shadow map for a quality (1 when shadows are off).
pub open spec fn shadow_map_size_for(q: ShadowQuality) -> u32 {
    match q {
        ShadowQuality::Low => 512,
        ShadowQuality::Medium => 1024,
        ShadowQuality::High => 2048,
        ShadowQuality::Ultra => 4096,
        ShadowQuality::Off => 1,
    }
}

impl ShadowQuality {
    /// Edge length of the shadow map for this quality (1 when shadows are off).
    pub fn map_size(&self) -> (r: u32)
        ensures
            r == shadow_map_size_for(*self),
    {
        match self {
            ShadowQuality::Low => 512,
            ShadowQuality::Medium => 1024,
            ShadowQuality::High => 2048,
            ShadowQuality::Ultra => 4096,
            ShadowQuality::Off => 1,
        }
    }
}

/// What changing the shadow quality from `current` to `quality` asks for:
/// nothing when it is unchanged or turned off, else a shadow map of the
/// returned size.
pub open spec fn shadow_resize(current: ShadowQuality, quality: ShadowQuality) -> Option<u32> {
    if current == quality || quality == ShadowQuality::Off {
        None
    } else {
        Some(shadow_map_size_for(quality))
    }
}

/// Decides whether a change of shadow quality needs a new shadow map, and of
/// what size.
pub fn shadow_resize_plan(current: ShadowQuality, quality: ShadowQuality) -> (r: Option<u32>)
    ensures
        r == shadow_resize(current, quality),
{
    if current == quality {
        return None;
    }
    if quality == ShadowQuality::Off {
        return None;
    }
    Some(quality.map_size())
}

/// The per-vertex layout of scene meshes.
pub open spec fn mesh_vertex_layout() -> LayoutView {
    LayoutView {
        stride: 44,
        step_mode: StepMode::Vertex,
        attributes: seq![
            attr(Format::Float32x3, 0, 0),
            attr(Format::Float32x3, 1, 12),
            attr(Format::Float32x2, 2, 24),
            attr(Format::Float32x3, 3, 32),
        ],
    }
}

/// The per-instance layout of scene instances.
pub open spec fn mesh_instance_layout() -> LayoutView {
    LayoutView {
        stride: 140,
        step_mode: StepMode::Instance,
        attributes: seq![
            attr(Format::Float32x4, 4, 0),
            attr(Format::Float32x4, 5, 16),
            attr(Format::Float32x4, 6, 32),
            attr(Format::Float32x4, 7, 48),
            attr(Format::Float32x4, 8, 64),
            attr(Format::Float32x4, 9, 80),
            attr(Format::Float32x4, 10, 96),
            attr(Format::Float32x4, 11, 112),
            attr(Format::Float32, 12, 128),
            attr(Format::Float32, 13, 132),
        ],
    }
}

/// The per-vertex layout of scene meshes: position, normal, uv, tangent.
pub fn vertex_layout() -> (r: VertexLayout)
    ensures
        r@ == mesh_vertex_layout(),
{
    let r = VertexLayout::new()
        .stride(VERTEX3D_SIZE)
        .step_mode(StepMode::Vertex)
        .add_attr(VertexAttr::new().format(Format::Float32x3).location(0).offset(0))
        .add_attr(VertexAttr::new().format(Format::Float32x3).location(1).offset(12))
        .add_attr(VertexAttr::new().format(Format::Float32x2).location(2).offset(24))
        .add_attr(VertexAttr::new().format(Format::Float32x3).location(3).offset(32));
    assert(r@.attributes =~= mesh_vertex_layout().attributes);
    r
}

/// The per-instance layout of scene instances: the model matrix's four
/// columns, three normal-matrix rows, colour, metallic and roughness.
pub fn instance_layout() -> (r: VertexLayout)
    ensures
        r@ == mesh_instance_layout(),
{
    let r = VertexLayout::new()
        .stride(INSTANCE_RAW_SIZE)
        .step_mode(StepMode::Instance)
        .add_attr(VertexAttr::new().format(Format::Float32x4).location(4).offset(0))
        .add_attr(VertexAttr::new().format(Format::Float32x4).location(5).offset(16))
        .add_attr(VertexAttr::new().format(Format::Float32x4).location(6).offset(32))
        .add_attr(VertexAttr::new().format(Format::Float32x4).location(7).offset(48))
        .add_attr(VertexAttr::new().format(Format::Float32x4).location(8).offset(64))
        .add_attr(VertexAttr::new().format(Format::Float32x4).location(9).offset(80))
        .add_attr(VertexAttr::new().format(Format::Float32x4).location(10).offset(96))
        .add_attr(VertexAttr::new().format(Format::Float32x4).location(11).offset(112))
        .add_attr(VertexAttr::new().format(Format::Float32).location(12).offset(128))
        .add_attr(VertexAttr::new().format(Format::Float32).location(13).offset(132));
    assert(r@.attributes =~= mesh_instance_layout().attributes);
    r
}

/// The scene's mesh and instance layouts pass validation, and together their
/// shader locations (0 to 13) are distinct.
pub proof fn law_scene_layouts_are_valid()
    ensures
        layout_check(mesh_vertex_layout()) is Ok,
        layout_check(mesh_instance_layout()) is Ok,
        scan_locations(mesh_vertex_layout().attributes, Seq::empty()) is Ok,
        scan_locations(
            mesh_instance_layout().attributes,
            seq![0u32, 1u32, 2u32, 3u32],
        ) is Ok,
{
    reveal_with_fuel(running_max_offset, 11);
    reveal_with_fuel(scan_locations, 11);
    let a = mesh_vertex_layout().attributes;
    let b = mesh_instance_layout().attributes;
    assert(a.drop_last().drop_last().drop_last().drop_last() =~= Seq::<VertexAttr>::empty());
    assert(b.drop_last().drop_last().drop_last().drop_last().drop_last().drop_last().drop_last().drop_last().drop_last().drop_last() =~= Seq::<VertexAttr>::empty());
}

/// The bind groups of the scene: the global one (uniforms, shadow depth map
/// and comparison sampler), the shadow pass's global one, and the material one
/// (albedo, sampler, normal map, metallic-roughness map, material flags).
pub fn scene_bind_groups() -> (r: (BindGroup, BindGroup, BindGroup))
    ensures
        r.0@ == seq![
            BindGroupEntry { binding: 0, entry_type: BindEntryType::Uniform, visibility: ShaderStage::Both, sample_type: None, sampler_type: None },
            BindGroupEntry { binding: 1, entry_type: BindEntryType::Texture, visibility: ShaderStage::Fragment, sample_type: Some(TextureType::Depth), sampler_type: None },
            BindGroupEntry { binding: 2, entry_type: BindEntryType::Sampler, visibility: ShaderStage::Fragment, sample_type: None, sampler_type: Some(SamplerType::Comparison) },
        ],
        r.1@ == seq![
            BindGroupEntry { binding: 0, entry_type: BindEntryType::Uniform, visibility: ShaderStage::Vertex, sample_type: None, sampler_type: None },
        ],
        r.2@ == seq![
            BindGroupEntry { binding: 0, entry_type: BindEntryType::Texture, visibility: ShaderStage::Fragment, sample_type: Some(TextureType::Float), sampler_type: None },
            BindGroupEntry { binding: 1, entry_type: BindEntryType::Sampler, visibility: ShaderStage::Fragment, sample_type: None, sampler_type: Some(SamplerType::Linear) },
            BindGroupEntry { binding: 2, entry_type: BindEntryType::Texture, visibility: ShaderStage::Fragment, sample_type: Some(TextureType::Float), sampler_type: None },
            BindGroupEntry { binding: 3, entry_type: BindEntryType::Texture, visibility: ShaderStage::Fragment, sample_type: Some(TextureType::Float), sampler_type: None },
            BindGroupEntry { binding: 4, entry_type: BindEntryType::Uniform, visibility: ShaderStage::Fragment, sample_type: None, sampler_type: None },
        ],
{
    let global = BindGroup::new()
        .add_uniform(0, ShaderStage::Both)
        .add_texture(1, TextureType::Depth)
        .add_sampler(2, SamplerType::Comparison);
    let shadow_global = BindGroup::new().add_uniform(0, ShaderStage::Vertex);
    let material = BindGroup::new()
        .add_texture(0, TextureType::Float)
        .add_sampler(1, SamplerType::Linear)
        .add_texture(2, TextureType::Float)
        .add_texture(3, TextureType::Float)
        .add_uniform(4, ShaderStage::Fragment);
    assert(global@ =~= seq![
        BindGroupEntry { binding: 0, entry_type: BindEntryType::Uniform, visibility: ShaderStage::Both, sample_type: None, sampler_type: None },
        BindGroupEntry { binding: 1, entry_type: BindEntryType::Texture, visibility: ShaderStage::Fragment, sample_type: Some(TextureType::Depth), sampler_type: None },
        BindGroupEntry { binding: 2, entry_type: BindEntryType::Sampler, visibility: ShaderStage::Fragment, sample_type: None, sampler_type: Some(SamplerType::Comparison) },
    ]);
    assert(shadow_global@ =~= seq![
        BindGroupEntry { binding: 0, entry_type: BindEntryType::Uniform, visibility: ShaderStage::Vertex, sample_type: None, sampler_type: None },
    ]);
    assert(material@ =~= seq![
        BindGroupEntry { binding: 0, entry_type: BindEntryType::Texture, visibility: ShaderStage::Fragment, sample_type: Some(TextureType::Float), sampler_type: None },
        BindGroupEntry { binding: 1, entry_type: BindEntryType::Sampler, visibility: ShaderStage::Fragment, sample_type: None, sampler_type: Some(SamplerType::Linear) },
        BindGroupEntry { binding: 2, entry_type: BindEntryType::Texture, visibility: ShaderStage::Fragment, sample_type: Some(TextureType::Float), sampler_type: None },
        BindGroupEntry { binding: 3, entry_type: BindEntryType::Texture, visibility: ShaderStage::Fragment, sample_type: Some(TextureType::Float), sampler_type: None },
        BindGroupEntry { binding: 4, entry_type: BindEntryType::Uniform, visibility: ShaderStage::Fragment, sample_type: None, sampler_type: None },
    ]);
    (global, shadow_global, material)
}


/// The bookkeeping of a scene's instances and lights: which slots are live,
/// the free lists that recycle them, each instance's mesh, parent, unlit flag
/// and material textures. Transforms, colours and light parameters are kept
/// beside it, slot for slot.
pub struct SceneObjects {
    pub inst_mesh_ids: Vec<usize>,
    pub inst_alive: Vec<bool>,
    pub inst_free_slots: Vec<usize>,
    pub inst_parents: Vec<Option<usize>>,
    pub inst_unlit: Vec<bool>,
    pub inst_mat_albedo_id: Vec<Option<u32>>,
    pub inst_mat_normal_id: Vec<Option<u32>>,
    pub inst_mat_mr_id: Vec<Option<u32>>,
    pub lights_active: Vec<bool>,
    pub lights_free_slots: Vec<usize>,
}

/// The scene bookkeeping as sequences.
pub struct SceneView {
    pub inst_mesh_ids: Seq<usize>,
    pub inst_alive: Seq<bool>,
    pub inst_free_slots: Seq<usize>,
    pub inst_parents: Seq<Option<usize>>,
    pub inst_unlit: Seq<bool>,
    pub inst_mat_albedo_id: Seq<Option<u32>>,
    pub inst_mat_normal_id: Seq<Option<u32>>,
    pub inst_mat_mr_id: Seq<Option<u32>>,
    pub lights_active: Seq<bool>,
    pub lights_free_slots: Seq<usize>,
}

impl View for SceneObjects {
    type V = SceneView;

    open spec fn view(&self) -> SceneView {
        SceneView {
            inst_mesh_ids: self.inst_mesh_ids@,
            inst_alive: self.inst_alive@,
            inst_free_slots: self.inst_free_slots@,
            inst_parents: self.inst_parents@,
            inst_unlit: self.inst_unlit@,
            inst_mat_albedo_id: self.inst_mat_albedo_id@,
            inst_mat_normal_id: self.inst_mat_normal_id@,
            inst_mat_mr_id: self.inst_mat_mr_id@,
            lights_active: self.lights_active@,
            lights_free_slots: self.lights_free_slots@,
        }
    }
}

/// The scene's invariant: instance columns line up, the instance free list
/// holds each dead instance once, no instance is its own parent, at most
/// `MAX_LIGHTS` light slots exist and freed light slots are in range.
pub open spec fn scene_wf(v: SceneView) -> bool {
    let n = v.inst_alive.len();
    &&& v.inst_mesh_ids.len() == n
    &&& v.inst_parents.len() == n
    &&& v.inst_unlit.len() == n
    &&& v.inst_mat_albedo_id.len() == n
    &&& v.inst_mat_normal_id.len() == n
    &&& v.inst_mat_mr_id.len() == n
    &&& v.inst_free_slots.no_duplicates()
    &&& forall|k: int| 0 <= k < v.inst_free_slots.len() ==> #[trigger] v.inst_free_slots[k] < n
    &&& forall|i: int| 0 <= i < n ==> (!#[trigger] v.inst_alive[i] <==> v.inst_free_slots.contains(i as usize))
    &&& forall|i: int| 0 <= i < n ==> #[trigger] v.inst_parents[i] != Some(i as usize)
    &&& v.lights_active.len() <= MAX_LIGHTS
    &&& forall|k: int| 0 <= k < v.lights_free_slots.len() ==> #[trigger] v.lights_free_slots[k] < v.lights_active.len()
}

/// The slot the next instance takes: the most recently freed, else a new one.
pub open spec fn next_instance_slot(v: SceneView) -> int {
    if v.inst_free_slots.len() > 0 {
        v.inst_free_slots.last() as int
    } else {
        v.inst_alive.len() as int
    }
}

/// The scene after creating an instance of `mesh`: the slot becomes live with
/// that mesh, no parent, lit, and no material textures.
pub open spec fn new_instance_scene(v: SceneView, mesh: usize) -> SceneView {
    if v.inst_free_slots.len() > 0 {
        let i = v.inst_free_slots.last() as int;
        SceneView {
            inst_alive: v.inst_alive.update(i, true),
            inst_mesh_ids: v.inst_mesh_ids.update(i, mesh),
            inst_parents: v.inst_parents.update(i, None),
            inst_unlit: v.inst_unlit.update(i, false),
            inst_mat_albedo_id: v.inst_mat_albedo_id.update(i, None),
            inst_mat_normal_id: v.inst_mat_normal_id.update(i, None),
            inst_mat_mr_id: v.inst_mat_mr_id.update(i, None),
            inst_free_slots: v.inst_free_slots.drop_last(),
            ..v
        }
    } else {
        SceneView {
            inst_alive: v.inst_alive.push(true),
            inst_mesh_ids: v.inst_mesh_ids.push(mesh),
            inst_parents: v.inst_parents.push(None),
            inst_unlit: v.inst_unlit.push(false),
            inst_mat_albedo_id: v.inst_mat_albedo_id.push(None),
            inst_mat_normal_id: v.inst_mat_normal_id.push(None),
            inst_mat_mr_id: v.inst_mat_mr_id.push(None),
            ..v
        }
    }
}

/// The scene after removing instance `i`: a live instance dies and its slot
/// is freed; anything else is left as it is.
pub open spec fn remove_instance_scene(v: SceneView, i: int) -> SceneView {
    if 0 <= i < v.inst_alive.len() && v.inst_alive[i] {
        SceneView {
            inst_alive: v.inst_alive.update(i, false),
            inst_free_slots: v.inst_free_slots.push(i as usize),
            ..v
        }
    } else {
        v
    }
}

/// The light a new light takes and the scene after: a freed light slot is
/// reactivated; else a new slot while fewer than `MAX_LIGHTS` exist; else
/// light 0 is returned and nothing changes.
pub open spec fn new_light_scene(v: SceneView) -> (SceneView, usize) {
    if v.lights_free_slots.len() > 0 {
        let i = v.lights_free_slots.last();
        (
            SceneView {
                lights_active: v.lights_active.update(i as int, true),
                lights_free_slots: v.lights_free_slots.drop_last(),
                ..v
            },
            i,
        )
    } else if v.lights_active.len() >= MAX_LIGHTS {
        (v, 0)
    } else {
        (SceneView { lights_active: v.lights_active.push(true), ..v }, v.lights_active.len() as usize)
    }
}

/// The scene after removing light `i`: an existing light slot is deactivated
/// and put on the free list (every time it is removed).
pub open spec fn remove_light_scene(v: SceneView, i: int) -> SceneView {
    if 0 <= i < v.lights_active.len() {
        SceneView {
            lights_active: v.lights_active.update(i, false),
            lights_free_slots: v.lights_free_slots.push(i as usize),
            ..v
        }
    } else {
        v
    }
}

proof fn lemma_drop_last_no_dup_scene(s: Seq<usize>)
    requires
        s.len() > 0,
        s.no_duplicates(),
    ensures
        s.drop_last().no_duplicates(),
        !s.drop_last().contains(s.last()),
        forall|x: usize| #[trigger] s.drop_last().contains(x) <==> (s.contains(x) && x != s.last()),
{
    assert forall|x: usize| #[trigger] s.drop_last().contains(x) <==> (s.contains(x) && x != s.last()) by {
        if s.contains(x) && x != s.last() {
            let k = choose|k: int| 0 <= k < s.len() && s[k] == x;
            assert(k != s.len() - 1);
            assert(s.drop_last()[k] == x);
        }
        if s.drop_last().contains(x) {
            let k = choose|k: int| 0 <= k < s.drop_last().len() && s.drop_last()[k] == x;
            assert(s[k] == x);
            assert(k != s.len() - 1);
        }
    }
}

proof fn lemma_push_no_dup_scene(s: Seq<usize>, x: usize)
    requires
        s.no_duplicates(),
        !s.contains(x),
    ensures
        s.push(x).no_duplicates(),
        forall|y: usize| #[trigger] s.push(x).contains(y) <==> (s.contains(y) || y == x),
{
    assert forall|y: usize| #[trigger] s.push(x).contains(y) <==> (s.contains(y) || y == x) by {
        if s.contains(y) {
            let k = choose|k: int| 0 <= k < s.len() && s[k] == y;
            assert(s.push(x)[k] == y);
        }
        if y == x {
            assert(s.push(x)[s.len() as int] == y);
        }
        if s.push(x).contains(y) {
            let k = choose|k: int| 0 <= k < s.push(x).len() && s.push(x)[k] == y;
            if k < s.len() {
                assert(s[k] == y);
            }
        }
    }
}

impl SceneObjects {
    /// A scene with no instances and no lights.
    pub fn new() -> (r: SceneObjects)
        ensures
            scene_wf(r@),
            r@.inst_alive.len() == 0,
            r@.lights_active.len() == 0,
            r@.inst_free_slots.len() == 0,
            r@.lights_free_slots.len() == 0,
    {
        SceneObjects {
            inst_mesh_ids: Vec::new(),
            inst_alive: Vec::new(),
            inst_free_slots: Vec::new(),
            inst_parents: Vec::new(),
            inst_unlit: Vec::new(),
            inst_mat_albedo_id: Vec::new(),
            inst_mat_normal_id: Vec::new(),
            inst_mat_mr_id: Vec::new(),
            lights_active: Vec::new(),
            lights_free_slots: Vec::new(),
        }
    }

    /// Creates an instance of a mesh in the most recently freed slot, else in
    /// a new slot at the end.
    pub fn new_instance(&mut self, mesh_id: MeshId) -> (r: InstanceId)
        requires
            scene_wf(old(self)@),
        ensures
            r.0 == next_instance_slot(old(self)@),
            final(self)@ == new_instance_scene(old(self)@, mesh_id.0),
            scene_wf(final(self)@),
    {
        let ghost v = self@;
        if let Some(idx) = self.inst_free_slots.pop() {
            proof {
                lemma_drop_last_no_dup_scene(v.inst_free_slots);
                assert(v.inst_free_slots[v.inst_free_slots.len() - 1] == idx);
            }
            self.inst_alive[idx] = true;
            self.inst_mesh_ids[idx] = mesh_id.0;
            self.inst_mat_albedo_id[idx] = None;
            self.inst_mat_normal_id[idx] = None;
            self.inst_mat_mr_id[idx] = None;
            self.inst_parents[idx] = None;
            self.inst_unlit[idx] = false;
            proof {
                let w = new_instance_scene(v, mesh_id.0);
                assert(self@ == w);
                assert forall|i: int| 0 <= i < w.inst_alive.len() implies (!#[trigger] w.inst_alive[i]
                    <==> w.inst_free_slots.contains(i as usize)) by {
                    assert(w.inst_free_slots == v.inst_free_slots.drop_last());
                    assert(v.inst_free_slots.last() == idx);
                    assert(self.inst_alive@.len() == self.inst_alive.len());
                    assert((i as usize) as int == i);
                    if i != idx {
                        assert(v.inst_alive[i] == w.inst_alive[i]);
                    }
                }
                assert forall|i: int| 0 <= i < w.inst_alive.len() implies #[trigger] w.inst_parents[i] != Some(
                    i as usize,
                ) by {
                    if i != idx {
                        assert(v.inst_parents[i] == w.inst_parents[i]);
                    }
                }
                assert forall|k: int| 0 <= k < w.inst_free_slots.len() implies #[trigger] w.inst_free_slots[k]
                    < w.inst_alive.len() by {
                    assert(w.inst_free_slots[k] == v.inst_free_slots[k]);
                }
            }
            return InstanceId(idx);
        }
        let idx = self.inst_alive.len();
        self.inst_alive.push(true);
        self.inst_mesh_ids.push(mesh_id.0);
        self.inst_mat_albedo_id.push(None);
        self.inst_mat_normal_id.push(None);
        self.inst_mat_mr_id.push(None);
        self.inst_parents.push(None);
        self.inst_unlit.push(false);
        proof {
            let w = new_instance_scene(v, mesh_id.0);
            assert(self@ == w);
            assert forall|i: int| 0 <= i < w.inst_alive.len() implies (!#[trigger] w.inst_alive[i]
                <==> w.inst_free_slots.contains(i as usize)) by {
                if i < idx {
                    assert(v.inst_alive[i] == w.inst_alive[i]);
                } else {
                    if w.inst_free_slots.contains(i as usize) {
                        let k = choose|k: int| 0 <= k < w.inst_free_slots.len() && w.inst_free_slots[k] == i as usize;
                        assert(v.inst_free_slots[k] < idx);
                    }
                }
            }
            assert forall|i: int| 0 <= i < w.inst_alive.len() implies #[trigger] w.inst_parents[i] != Some(
                i as usize,
            ) by {
                if i < idx {
                    assert(v.inst_parents[i] == w.inst_parents[i]);
                }
            }
        }
        InstanceId(idx)
    }

    /// Removes an instance: a live one dies and its slot is freed for reuse.
    pub fn remove_instance(&mut self, id: InstanceId)
        requires
            scene_wf(old(self)@),
        ensures
            final(self)@ == remove_instance_scene(old(self)@, id.0 as int),
            scene_wf(final(self)@),
    {
        let ghost v = self@;
        if id.0 < self.inst_alive.len() {
            if self.inst_alive[id.0] {
                self.inst_alive[id.0] = false;
                self.inst_free_slots.push(id.0);
                proof {
                    let w = remove_instance_scene(v, id.0 as int);
                    assert(self@ == w);
                    assert(!v.inst_free_slots.contains(id.0));
                    lemma_push_no_dup_scene(v.inst_free_slots, id.0);
                    assert forall|i: int| 0 <= i < w.inst_alive.len() implies (!#[trigger] w.inst_alive[i]
                        <==> w.inst_free_slots.contains(i as usize)) by {
                        if i != id.0 {
                            assert(v.inst_alive[i] == w.inst_alive[i]);
                        }
                    }
                    assert forall|k: int| 0 <= k < w.inst_free_slots.len() implies #[trigger] w.inst_free_slots[k]
                        < w.inst_alive.len() by {
                        if k < v.inst_free_slots.len() {
                            assert(w.inst_free_slots[k] == v.inst_free_slots[k]);
                        }
                    }
                }
            }
        }
    }

    /// Makes an instance ignore lights, or not; unknown identifiers are ignored.
    pub fn set_unlit(&mut self, id: InstanceId, unlit: bool)
        requires
            scene_wf(old(self)@),
        ensures
            final(self)@ == (if id.0 < old(self)@.inst_unlit.len() {
                SceneView { inst_unlit: old(self)@.inst_unlit.update(id.0 as int, unlit), ..old(self)@ }
            } else {
                old(self)@
            }),
            scene_wf(final(self)@),
    {
        if id.0 < self.inst_unlit.len() {
            self.inst_unlit[id.0] = unlit;
        }
    }

    /// Makes `parent` the parent of `child`; an unknown child, or an instance
    /// made its own parent, is ignored.
    pub fn set_parent(&mut self, child: InstanceId, parent: InstanceId)
        requires
            scene_wf(old(self)@),
        ensures
            final(self)@ == (if child.0 < old(self)@.inst_parents.len() && child.0 != parent.0 {
                SceneView {
                    inst_parents: old(self)@.inst_parents.update(child.0 as int, Some(parent.0)),
                    ..old(self)@
                }
            } else {
                old(self)@
            }),
            scene_wf(final(self)@),
    {
        let ghost v = self@;
        if child.0 < self.inst_parents.len() && child.0 != parent.0 {
            self.inst_parents[child.0] = Some(parent.0);
            proof {
                assert forall|i: int| 0 <= i < self@.inst_alive.len() implies #[trigger] self@.inst_parents[i]
                    != Some(i as usize) by {
                    if i != child.0 {
                        assert(v.inst_parents[i] == self@.inst_parents[i]);
                    }
                }
            }
        }
    }

    /// Removes the parent of `child`; an unknown child is ignored.
    pub fn clear_parent(&mut self, child: InstanceId)
        requires
            scene_wf(old(self)@),
        ensures
            final(self)@ == (if child.0 < old(self)@.inst_parents.len() {
                SceneView { inst_parents: old(self)@.inst_parents.update(child.0 as int, None), ..old(self)@ }
            } else {
                old(self)@
            }),
            scene_wf(final(self)@),
    {
        let ghost v = self@;
        if child.0 < self.inst_parents.len() {
            self.inst_parents[child.0] = None;
            proof {
                assert forall|i: int| 0 <= i < self@.inst_alive.len() implies #[trigger] self@.inst_parents[i]
                    != Some(i as usize) by {
                    if i != child.0 {
                        assert(v.inst_parents[i] == self@.inst_parents[i]);
                    }
                }
            }
        }
    }

    /// Sets the albedo texture of an instance; unknown identifiers are ignored.
    pub fn set_texture(&mut self, id: InstanceId, tex_id: u32)
        requires
            scene_wf(old(self)@),
        ensures
            final(self)@ == (if id.0 < old(self)@.inst_mat_albedo_id.len() {
                SceneView {
                    inst_mat_albedo_id: old(self)@.inst_mat_albedo_id.update(id.0 as int, Some(tex_id)),
                    ..old(self)@
                }
            } else {
                old(self)@
            }),
            scene_wf(final(self)@),
    {
        if id.0 < self.inst_mat_albedo_id.len() {
            self.inst_mat_albedo_id[id.0] = Some(tex_id);
        }
    }

    /// Sets the normal map of an instance; unknown identifiers are ignored.
    pub fn set_normal_map(&mut self, id: InstanceId, tex_id: u32)
        requires
            scene_wf(old(self)@),
        ensures
            final(self)@ == (if id.0 < old(self)@.inst_mat_normal_id.len() {
                SceneView {
                    inst_mat_normal_id: old(self)@.inst_mat_normal_id.update(id.0 as int, Some(tex_id)),
                    ..old(self)@
                }
            } else {
                old(self)@
            }),
            scene_wf(final(self)@),
    {
        if id.0 < self.inst_mat_normal_id.len() {
            self.inst_mat_normal_id[id.0] = Some(tex_id);
        }
    }

    /// Sets the metallic-roughness map of an instance; unknown identifiers are ignored.
    pub fn set_mr_map(&mut self, id: InstanceId, tex_id: u32)
        requires
            scene_wf(old(self)@),
        ensures
            final(self)@ == (if id.0 < old(self)@.inst_mat_mr_id.len() {
                SceneView {
                    inst_mat_mr_id: old(self)@.inst_mat_mr_id.update(id.0 as int, Some(tex_id)),
                    ..old(self)@
                }
            } else {
                old(self)@
            }),
            scene_wf(final(self)@),
    {
        if id.0 < self.inst_mat_mr_id.len() {
            self.inst_mat_mr_id[id.0] = Some(tex_id);
        }
    }

    /// Creates a light: a freed light slot if there is one, else a new slot
    /// while fewer than `MAX_LIGHTS` exist, else light 0 with nothing changed.
    pub fn new_light(&mut self) -> (r: LightId)
        requires
            scene_wf(old(self)@),
        ensures
            (final(self)@, r.0) == new_light_scene(old(self)@),
            scene_wf(final(self)@),
            r.0 < MAX_LIGHTS,
    {
        let ghost v = self@;
        if let Some(idx) = self.lights_free_slots.pop() {
            proof {
                assert(v.lights_free_slots[v.lights_free_slots.len() - 1] == idx);
            }
            self.lights_active[idx] = true;
            proof {
                assert forall|k: int| 0 <= k < self@.lights_free_slots.len() implies #[trigger] self@.lights_free_slots[k]
                    < self@.lights_active.len() by {
                    assert(self@.lights_free_slots[k] == v.lights_free_slots[k]);
                }
            }
            return LightId(idx);
        }
        let idx = self.lights_active.len();
        if idx >= MAX_LIGHTS {
            return LightId(0);
        }
        self.lights_active.push(true);
        LightId(idx)
    }

    /// Removes a light: an existing light slot is deactivated and freed.
    pub fn remove_light(&mut self, id: LightId)
        requires
            scene_wf(old(self)@),
        ensures
            final(self)@ == remove_light_scene(old(self)@, id.0 as int),
            scene_wf(final(self)@),
    {
        let ghost v = self@;
        if id.0 < self.lights_active.len() {
            self.lights_active[id.0] = false;
            self.lights_free_slots.push(id.0);
            proof {
                assert forall|k: int| 0 <= k < self@.lights_free_slots.len() implies #[trigger] self@.lights_free_slots[k]
                    < self@.lights_active.len() by {
                    if k < v.lights_free_slots.len() {
                        assert(self@.lights_free_slots[k] == v.lights_free_slots[k]);
                    }
                }
            }
        }
    }
}

/// What the instances of one draw call of the scene share: the mesh and the
/// three material textures.
#[derive(Debug, Clone, Copy, PartialEq, Eq, Hash, Structural)]
pub struct BatchKey {
    pub mesh_id: usize,
    pub albedo_id: u32,
    pub normal_id: u32,
    pub mr_id: u32,
}

/// Which material maps the shader samples (1) or replaces by constants (0).
#[derive(Debug, Clone, Copy, PartialEq, Eq, Hash, Structural)]
pub struct MaterialFlags {
    pub use_albedo_map: u32,
    pub use_normal_map: u32,
    pub use_mr_map: u32,
    pub pad: u32,
}

/// A texture, or the default one when none is set.
pub open spec fn texture_or(t: Option<u32>, default: u32) -> u32 {
    match t {
        Some(id) => id,
        None => default,
    }
}

/// The batch key of instance `i`: its mesh, and its textures with the white
/// texture standing for a missing albedo or metallic-roughness map and the
/// flat normal texture for a missing normal map.
pub open spec fn instance_batch_key(v: SceneView, i: int, default_white: u32, default_normal: u32) -> BatchKey {
    BatchKey {
        mesh_id: v.inst_mesh_ids[i],
        albedo_id: texture_or(v.inst_mat_albedo_id[i], default_white),
        normal_id: texture_or(v.inst_mat_normal_id[i], default_normal),
        mr_id: texture_or(v.inst_mat_mr_id[i], default_white),
    }
}

/// The material flags of a batch: the albedo map is always sampled; the
/// normal and metallic-roughness maps only when they are not the defaults.
pub open spec fn batch_material_flags(key: BatchKey, default_normal: u32, default_white: u32) -> MaterialFlags {
    MaterialFlags {
        use_albedo_map: 1,
        use_normal_map: if key.normal_id != default_normal { 1 } else { 0 },
        use_mr_map: if key.mr_id != default_white { 1 } else { 0 },
        pad: 0,
    }
}

/// Each material map is sampled exactly when the batch has a texture of its
/// own for it, whatever its other textures are: the albedo map always, the
/// normal map exactly when it is not the flat default, the
/// metallic-roughness map exactly when it is not the white default; every
/// flag is 0 or 1.
pub proof fn law_material_flags_follow_own_map(key: BatchKey, default_normal: u32, default_white: u32, other: BatchKey)
    ensures
        ({
            let f = batch_material_flags(key, default_normal, default_white);
            &&& f.use_albedo_map == 1
            &&& (f.use_normal_map == 1 <==> key.normal_id != default_normal)
            &&& (f.use_normal_map == 0 <==> key.normal_id == default_normal)
            &&& (f.use_mr_map == 1 <==> key.mr_id != default_white)
            &&& (f.use_mr_map == 0 <==> key.mr_id == default_white)
            &&& f.pad == 0
        }),
        other.normal_id == key.normal_id ==> batch_material_flags(other, default_normal, default_white).use_normal_map
            == batch_material_flags(key, default_normal, default_white).use_normal_map,
        other.mr_id == key.mr_id ==> batch_material_flags(other, default_normal, default_white).use_mr_map
            == batch_material_flags(key, default_normal, default_white).use_mr_map,
{
}

fn texture_or_default(t: Option<u32>, default: u32) -> (r: u32)
    ensures
        r == texture_or(t, default),
{
    match t {
        Some(id) => id,
        None => default,
    }
}

impl SceneObjects {
    /// The batch key of an instance.
    pub fn batch_key(&self, i: usize, default_white: u32, default_normal: u32) -> (r: BatchKey)
        requires
            scene_wf(self@),
            i < self@.inst_alive.len(),
        ensures
            r == instance_batch_key(self@, i as int, default_white, default_normal),
    {
        BatchKey {
            mesh_id: self.inst_mesh_ids[i],
            albedo_id: texture_or_default(self.inst_mat_albedo_id[i], default_white),
            normal_id: texture_or_default(self.inst_mat_normal_id[i], default_normal),
            mr_id: texture_or_default(self.inst_mat_mr_id[i], default_white),
        }
    }
}

/// The material flags of a batch.
pub fn material_flags(key: &BatchKey, default_normal: u32, default_white: u32) -> (r: MaterialFlags)
    ensures
        r == batch_material_flags(*key, default_normal, default_white),
{
    MaterialFlags {
        use_albedo_map: 1,
        use_normal_map: if key.normal_id != default_normal { 1 } else { 0 },
        use_mr_map: if key.mr_id != default_white { 1 } else { 0 },
        pad: 0,
    }
}

/// The light slots the shader receives: the active ones, in slot order, at
/// most `MAX_LIGHTS` of them.
pub open spec fn shader_light_slots(active: Seq<bool>) -> Seq<usize>
    decreases active.len(),
{
    if active.len() == 0 {
        Seq::empty()
    } else {
        let prev = shader_light_slots(active.drop_last());
        if active.last() && prev.len() < MAX_LIGHTS {
            prev.push((active.len() - 1) as usize)
        } else {
            prev
        }
    }
}

proof fn lemma_shader_light_slots_len(active: Seq<bool>)
    ensures
        shader_light_slots(active).len() <= MAX_LIGHTS,
    decreases active.len(),
{
    if active.len() > 0 {
        lemma_shader_light_slots_len(active.drop_last());
    }
}

impl SceneObjects {
    /// The light slots whose data goes to the shader: the active lights in
    /// slot order, at most `MAX_LIGHTS`.
    pub fn active_light_slots(&self) -> (r: Vec<usize>)
        ensures
            r@ == shader_light_slots(self@.lights_active),
            r@.len() <= MAX_LIGHTS,
    {
        let ghost a = self@.lights_active;
        let n = self.lights_active.len();
        let mut out: Vec<usize> = Vec::new();
        let mut i: usize = 0;
        while i < n
            invariant
                a == self@.lights_active,
                n == a.len(),
                i <= n,
                out@ == shader_light_slots(a.take(i as int)),
            decreases n - i,
        {
            proof {
                assert(a.take(i + 1).drop_last() =~= a.take(i as int));
                lemma_shader_light_slots_len(a.take(i as int));
            }
            if self.lights_active[i] && out.len() < MAX_LIGHTS {
                out.push(i);
            }
            i = i + 1;
        }
        proof {
            assert(a.take(n as int) =~= a);
            lemma_shader_light_slots_len(a);
        }
        out
    }
}

/// The instance buffer's capacity after a frame of `needed` instances: kept
/// while it suffices, else twice the need, and at least 1024.
pub open spec fn instance_capacity_after(needed: int, capacity: int) -> int {
    if needed > capacity {
        if 2 * needed > 1024 {
            2 * needed
        } else {
            1024
        }
    } else {
        capacity
    }
}

/// Grows the instance buffer's capacity to hold `needed` instances.
pub fn grow_instance_capacity(needed: usize, capacity: usize) -> (r: usize)
    requires
        needed <= usize::MAX / 2,
    ensures
        r == instance_capacity_after(needed as int, capacity as int),
        r >= needed,
{
    if needed > capacity {
        let doubled = needed * 2;
        if doubled > 1024 {
            doubled
        } else {
            1024
        }
    } else {
        capacity
    }
}

/// The triangles of an index list, three indices each, that refer only to
/// existing vertices (fewer than `vertex_count`), in order.
pub open spec fn triangles_in_range(indices: Seq<u32>, vertex_count: nat, k: nat) -> Seq<(usize, usize, usize)>
    decreases k,
{
    if k == 0 {
        Seq::empty()
    } else {
        let prev = triangles_in_range(indices, vertex_count, (k - 1) as nat);
        let b = 3 * (k - 1);
        let (a0, a1, a2) = (indices[b], indices[b + 1], indices[b + 2]);
        if a0 < vertex_count && a1 < vertex_count && a2 < vertex_count {
            prev.push((a0 as usize, a1 as usize, a2 as usize))
        } else {
            prev
        }
    }
}

/// The triangles of a triangulated mesh whose three vertices exist; a
/// triangle referring past the vertex list is skipped.
pub fn valid_triangles(indices: &Vec<u32>, vertex_count: usize) -> (r: Vec<(usize, usize, usize)>)
    requires
        indices@.len() % 3 == 0,
    ensures
        r@ == triangles_in_range(indices@, vertex_count as nat, (indices@.len() / 3) as nat),
{
    let len = indices.len();
    let n = len / 3;
    let mut out: Vec<(usize, usize, usize)> = Vec::new();
    let mut t: usize = 0;
    while t < n
        invariant
            len == indices@.len(),
            n == indices@.len() / 3,
            indices@.len() % 3 == 0,
            t <= n,
            out@ == triangles_in_range(indices@, vertex_count as nat, t as nat),
        decreases n - t,
    {
        assert(3 * t + 2 < indices@.len()) by (nonlinear_arith)
            requires
                t < n,
                n == indices@.len() / 3,
                indices@.len() % 3 == 0,
        ;
        let b = 3 * t;
        let i0 = indices[b] as usize;
        let i1 = indices[b + 1] as usize;
        let i2 = indices[b + 2] as usize;
        if i0 < vertex_count && i1 < vertex_count && i2 < vertex_count {
            out.push((i0, i1, i2));
        }
        t = t + 1;
    }
    out
}

/// Every triangle kept refers only to existing vertices and is three
/// consecutive indices of the list, starting at a multiple of three; every
/// such triangle whose vertices all exist is kept; no more triangles are
/// kept than the list holds.
pub proof fn law_valid_triangles_exist(indices: Seq<u32>, vertex_count: nat, k: nat)
    requires
        3 * k <= indices.len(),
    ensures
        ({
            let r = triangles_in_range(indices, vertex_count, k);
            &&& r.len() <= k
            &&& forall|j: int|
                0 <= j < r.len() ==> {
                    let t = #[trigger] r[j];
                    &&& t.0 < vertex_count && t.1 < vertex_count && t.2 < vertex_count
                    &&& exists|m: int|
                        0 <= m < k && t == (
                            #[trigger] indices[3 * m] as usize,
                            indices[3 * m + 1] as usize,
                            indices[3 * m + 2] as usize,
                        )
                }
            &&& forall|m: int|
                0 <= m < k && #[trigger] indices[3 * m] < vertex_count && indices[3 * m + 1] < vertex_count
                    && indices[3 * m + 2] < vertex_count ==> r.contains(
                    (indices[3 * m] as usize, indices[3 * m + 1] as usize, indices[3 * m + 2] as usize),
                )
        }),
    decreases k,
{
    if k > 0 {
        let k1 = (k - 1) as nat;
        law_valid_triangles_exist(indices, vertex_count, k1);
        let prev = triangles_in_range(indices, vertex_count, k1);
        let r = triangles_in_range(indices, vertex_count, k);
        let b: int = 3 * (k1 as int);
        assert forall|j: int| 0 <= j < r.len() implies {
            let t = #[trigger] r[j];
            &&& t.0 < vertex_count && t.1 < vertex_count && t.2 < vertex_count
            &&& exists|m: int|
                0 <= m < k && t == (
                    #[trigger] indices[3 * m] as usize,
                    indices[3 * m + 1] as usize,
                    indices[3 * m + 2] as usize,
                )
        } by {
            if j < prev.len() {
                assert(r[j] == prev[j]);
                let t = prev[j];
                let m = choose|m: int|
                    0 <= m < k1 && t == (
                        #[trigger] indices[3 * m] as usize,
                        indices[3 * m + 1] as usize,
                        indices[3 * m + 2] as usize,
                    );
                assert(0 <= m < k);
            } else {
                assert(r[j] == (indices[b] as usize, indices[b + 1] as usize, indices[b + 2] as usize));
                assert(indices[3 * (k1 as int)] == indices[b]);
            }
        }
        assert forall|m: int|
            0 <= m < k && #[trigger] indices[3 * m] < vertex_count && indices[3 * m + 1] < vertex_count
                && indices[3 * m + 2] < vertex_count implies r.contains(
            (indices[3 * m] as usize, indices[3 * m + 1] as usize, indices[3 * m + 2] as usize),
        ) by {
            let t = (indices[3 * m] as usize, indices[3 * m + 1] as usize, indices[3 * m + 2] as usize);
            if m < k1 {
                assert(prev.contains(t));
                let j = choose|j: int| 0 <= j < prev.len() && prev[j] == t;
                assert(r[j] == prev[j]);
            } else {
                assert(m == k1);
                assert(r[r.len() - 1] == t);
            }
        }
    }
}

/// A pixel format of an imported image.
#[derive(Debug, Clone, Copy, PartialEq, Eq, Hash, Structural)]
pub enum ImageFormat {
    /// 8-bit red, green and blue.
    Rgb8,
    /// 8-bit red, green, blue and alpha.
    Rgba8,
    /// Any other layout.
    Other,
}

/// RGB bytes with an opaque alpha byte after every group of three (after
/// the last, shorter group too).
pub open spec fn rgb_with_alpha(s: Seq<u8>) -> Seq<u8>
    decreases s.len(),
{
    if s.len() == 0 {
        Seq::empty()
    } else if s.len() <= 3 {
        s.push(255u8)
    } else {
        s.take(3).push(255u8) + rgb_with_alpha(s.skip(3))
    }
}

proof fn lemma_rgb_with_alpha_step(s: Seq<u8>, i: int)
    requires
        0 <= i < s.len(),
        i % 3 == 0,
    ensures
        rgb_with_alpha(s.skip(i)) == {
            let e = if i + 3 <= s.len() { i + 3 } else { s.len() as int };
            s.subrange(i, e).push(255u8) + rgb_with_alpha(s.skip(e))
        },
{
    let t = s.skip(i);
    let e = if i + 3 <= s.len() { i + 3 } else { s.len() as int };
    if t.len() <= 3 {
        assert(t =~= s.subrange(i, e));
        assert(s.skip(e).len() == 0);
        assert(s.push(255u8).len() > 0);
        assert(t.push(255u8) + rgb_with_alpha(s.skip(e)) =~= t.push(255u8));
    } else {
        assert(t.take(3) =~= s.subrange(i, e));
        assert(t.skip(3) =~= s.skip(e));
    }
}

/// Adds an opaque alpha byte after every three bytes of RGB pixel data.
pub fn rgb_to_rgba(pixels: &Vec<u8>) -> (r: Vec<u8>)
    ensures
        r@ == rgb_with_alpha(pixels@),
{
    let n = pixels.len();
    let mut out: Vec<u8> = Vec::new();
    let mut i: usize = 0;
    assert(pixels@.skip(0) =~= pixels@);
    while i < n
        invariant
            n == pixels@.len(),
            i <= n,
            i % 3 == 0 || i == n,
            out@ + rgb_with_alpha(pixels@.skip(i as int)) == rgb_with_alpha(pixels@),
        decreases n - i,
    {
        let e = if i + 3 <= n { i + 3 } else { n };
        proof {
            lemma_rgb_with_alpha_step(pixels@, i as int);
        }
        let ghost before = out@;
        let mut k = i;
        while k < e
            invariant
                i <= k <= e,
                e <= n,
                n == pixels@.len(),
                out@ == before + pixels@.subrange(i as int, k as int),
            decreases e - k,
        {
            out.push(pixels[k]);
            assert(pixels@.subrange(i as int, k + 1) =~= pixels@.subrange(i as int, k as int).push(pixels@[k as int]));
            k = k + 1;
        }
        out.push(255u8);
        proof {
            assert(out@ =~= before + pixels@.subrange(i as int, e as int).push(255u8));
            assert((before + pixels@.subrange(i as int, e as int).push(255u8)) + rgb_with_alpha(pixels@.skip(e as int))
                =~= before + (pixels@.subrange(i as int, e as int).push(255u8) + rgb_with_alpha(pixels@.skip(e as int))));
        }
        i = e;
    }
    proof {
        assert(pixels@.skip(n as int).len() == 0);
        assert(out@ + rgb_with_alpha(pixels@.skip(n as int)) =~= out@);
    }
    out
}

/// The RGBA pixels of an imported texture: RGB gets opaque alpha, RGBA is
/// kept, and any other format is replaced by opaque white.
pub fn texture_pixels_rgba(format: ImageFormat, width: u32, height: u32, pixels: &Vec<u8>) -> (r: Vec<u8>)
    requires
        format == ImageFormat::Other ==> width * height * 4 <= u32::MAX,
    ensures
        r@ == match format {
            ImageFormat::Rgb8 => rgb_with_alpha(pixels@),
            ImageFormat::Rgba8 => pixels@,
            ImageFormat::Other => Seq::new((width * height * 4) as nat, |i: int| 255u8),
        },
{
    match format {
        ImageFormat::Rgb8 => rgb_to_rgba(pixels),
        ImageFormat::Rgba8 => {
            let r = pixels.clone();
            r
        },
        ImageFormat::Other => {
            let total = (width * height * 4) as usize;
            let mut out: Vec<u8> = Vec::new();
            let mut i: usize = 0;
            while i < total
                invariant
                    i <= total,
                    total == width * height * 4,
                    out@ == Seq::new(i as nat, |j: int| 255u8),
                decreases total - i,
            {
                out.push(255u8);
                assert(out@ =~= Seq::new((i + 1) as nat, |j: int| 255u8));
                i = i + 1;
            }
            out
        },
    }
}

/// A scene never holds more than `MAX_LIGHTS` lights, and every light
/// identifier handed out is below `MAX_LIGHTS`.
pub proof fn law_lights_bounded(v: SceneView)
    requires
        scene_wf(v),
    ensures
        new_light_scene(v).0.lights_active.len() <= MAX_LIGHTS,
        new_light_scene(v).1 < MAX_LIGHTS,
{
    if v.lights_free_slots.len() > 0 {
        assert(v.lights_free_slots[v.lights_free_slots.len() - 1] < v.lights_active.len());
    }
}

/// A removed instance's slot is the one the next instance takes.
pub proof fn law_removed_instance_slot_is_reused(v: SceneView, i: usize)
    requires
        scene_wf(v),
        i < v.inst_alive.len(),
        v.inst_alive[i as int],
    ensures
        next_instance_slot(remove_instance_scene(v, i as int)) == i,
        new_instance_scene(remove_instance_scene(v, i as int), 0).inst_alive[i as int],
{
}

/// No instance is ever its own parent, whatever `set_parent` is asked.
pub proof fn law_no_self_parent(v: SceneView, i: int)
    requires
        scene_wf(v),
        0 <= i < v.inst_alive.len(),
    ensures
        v.inst_parents[i] != Some(i as usize),
{
}
} // verus!
