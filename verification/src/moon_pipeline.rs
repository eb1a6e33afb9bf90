//! The pipeline description builder, its validation, and the layouts that the
//! stride fallback strategies build with.

use vstd::prelude::*;
use vstd::slice::slice_to_vec;
use crate::error::MoonWalkError;
use crate::pipeline::{
    attr_end, format_bytes, layout_check, layout_validatable, BindEntryType, BindGroup,
    BindGroupEntry, FallbackStrategy, Format, LayoutView, RenderConfig, StepMode, VertexAttr,
    VertexLayout, BlendMode, CullMode, Topology, default_render_config, running_max_offset,
};
use crate::strings::{decimal, prefixed_decimal};

verus! {

/// A render pipeline description.
#[derive(Debug, Clone)]
pub struct MoonPipeline {
    shader_source: String,
    vertex_shader: String,
    fragment_shader: String,
    vertex_layouts: Vec<VertexLayout>,
    bind_groups: Vec<BindGroup>,
    render_config: RenderConfig,
    fallback_strategy: FallbackStrategy,
    label: Option<String>,
}

/// A pipeline description with strings as character sequences and layouts and
/// bind groups by their views.
pub struct PipelineView {
    pub shader_source: Seq<char>,
    pub vertex_shader: Seq<char>,
    pub fragment_shader: Seq<char>,
    pub vertex_layouts: Seq<LayoutView>,
    pub bind_groups: Seq<Seq<BindGroupEntry>>,
    pub render_config: RenderConfig,
    pub fallback_strategy: FallbackStrategy,
    pub label: Option<Seq<char>>,
}

/// The views of a sequence of layouts.
pub open spec fn layout_views(ls: Seq<VertexLayout>) -> Seq<LayoutView> {
    ls.map_values(|l: VertexLayout| l@)
}

/// The views of a sequence of bind groups.
pub open spec fn group_views(gs: Seq<BindGroup>) -> Seq<Seq<BindGroupEntry>> {
    gs.map_values(|g: BindGroup| g@)
}

pub open spec fn label_view(l: Option<String>) -> Option<Seq<char>> {
    match l {
        Some(s) => Some(s@),
        None => None,
    }
}

impl View for MoonPipeline {
    type V = PipelineView;

    closed spec fn view(&self) -> PipelineView {
        PipelineView {
            shader_source: self.shader_source@,
            vertex_shader: self.vertex_shader@,
            fragment_shader: self.fragment_shader@,
            vertex_layouts: layout_views(self.vertex_layouts@),
            bind_groups: group_views(self.bind_groups@),
            render_config: self.render_config,
            fallback_strategy: self.fallback_strategy,
            label: label_view(self.label),
        }
    }
}

// ---------------------------------------------------------------------------
// Validation
// ---------------------------------------------------------------------------

pub open spec fn invalid_layout_message(e: Seq<char>) -> Seq<char> {
    "Invalid vertex layout: "@ + e
}

pub open spec fn duplicate_location_message(loc: u32) -> Seq<char> {
    "Duplicate shader location: "@ + decimal(loc as nat)
}

pub open spec fn duplicate_binding_message(binding: u32) -> Seq<char> {
    "Duplicate binding: "@ + decimal(binding as nat)
}

/// Scans attribute locations in order on top of the locations already seen;
/// the first location seen twice is an error.
pub open spec fn scan_locations(attrs: Seq<VertexAttr>, seen: Seq<u32>) -> Result<Seq<u32>, Seq<char>>
    decreases attrs.len(),
{
    if attrs.len() == 0 {
        Ok(seen)
    } else {
        match scan_locations(attrs.drop_last(), seen) {
            Err(e) => Err(e),
            Ok(s) => {
                let loc = attrs.last().location;
                if s.contains(loc) {
                    Err(duplicate_location_message(loc))
                } else {
                    Ok(s.push(loc))
                }
            },
        }
    }
}

/// Scans the layouts in order: each is validated, then its locations are
/// checked against all earlier ones.
pub open spec fn scan_layouts(ls: Seq<LayoutView>) -> Result<Seq<u32>, Seq<char>>
    decreases ls.len(),
{
    if ls.len() == 0 {
        Ok(Seq::empty())
    } else {
        match scan_layouts(ls.drop_last()) {
            Err(e) => Err(e),
            Ok(seen) => match layout_check(ls.last()) {
                Err(e) => Err(invalid_layout_message(e)),
                Ok(_) => scan_locations(ls.last().attributes, seen),
            },
        }
    }
}

/// Validating the layouts runs without overflow: every layout reached by the
/// scan is validatable.
pub open spec fn layouts_validatable(ls: Seq<LayoutView>) -> bool
    decreases ls.len(),
{
    if ls.len() == 0 {
        true
    } else {
        &&& layouts_validatable(ls.drop_last())
        &&& scan_layouts(ls.drop_last()) is Ok ==> layout_validatable(ls.last())
    }
}

/// Scans bind group entries in order; a (binding, kind) pair seen twice is an error.
pub open spec fn scan_entries(es: Seq<BindGroupEntry>, seen: Seq<(u32, BindEntryType)>) -> Result<
    Seq<(u32, BindEntryType)>,
    Seq<char>,
>
    decreases es.len(),
{
    if es.len() == 0 {
        Ok(seen)
    } else {
        match scan_entries(es.drop_last(), seen) {
            Err(e) => Err(e),
            Ok(s) => {
                let key = (es.last().binding, es.last().entry_type);
                if s.contains(key) {
                    Err(duplicate_binding_message(es.last().binding))
                } else {
                    Ok(s.push(key))
                }
            },
        }
    }
}

/// Scans all bind groups in order.
pub open spec fn scan_groups(gs: Seq<Seq<BindGroupEntry>>) -> Result<Seq<(u32, BindEntryType)>, Seq<char>>
    decreases gs.len(),
{
    if gs.len() == 0 {
        Ok(Seq::empty())
    } else {
        match scan_groups(gs.drop_last()) {
            Err(e) => Err(e),
            Ok(seen) => scan_entries(gs.last(), seen),
        }
    }
}

/// The outcome of validating a pipeline description.
pub open spec fn pipeline_check(p: PipelineView) -> Result<(), Seq<char>> {
    if p.vertex_shader.len() == 0 {
        Err("Vertex shader entry point not set"@)
    } else if p.fragment_shader.len() == 0 {
        Err("Fragment shader entry point not set"@)
    } else if p.vertex_layouts.len() == 0 {
        Err("No vertex layouts specified"@)
    } else {
        match scan_layouts(p.vertex_layouts) {
            Err(e) => Err(e),
            Ok(_) => match scan_groups(p.bind_groups) {
                Err(e) => Err(e),
                Ok(_) => Ok(()),
            },
        }
    }
}

/// Validating the description runs without overflow.
pub open spec fn pipeline_validatable(p: PipelineView) -> bool {
    p.vertex_shader.len() == 0 || p.fragment_shader.len() == 0 || p.vertex_layouts.len() == 0
        || layouts_validatable(p.vertex_layouts)
}

proof fn lemma_scan_locations_err_extends(attrs: Seq<VertexAttr>, seen: Seq<u32>, k: int)
    requires
        0 <= k <= attrs.len(),
        scan_locations(attrs.take(k), seen) is Err,
    ensures
        scan_locations(attrs, seen) == scan_locations(attrs.take(k), seen),
    decreases attrs.len() - k,
{
    if k < attrs.len() {
        assert(attrs.take(k + 1).drop_last() =~= attrs.take(k));
        lemma_scan_locations_err_extends(attrs, seen, k + 1);
    } else {
        assert(attrs.take(k) =~= attrs);
    }
}

proof fn lemma_scan_layouts_err_extends(ls: Seq<LayoutView>, k: int)
    requires
        0 <= k <= ls.len(),
        scan_layouts(ls.take(k)) is Err,
    ensures
        scan_layouts(ls) == scan_layouts(ls.take(k)),
    decreases ls.len() - k,
{
    if k < ls.len() {
        assert(ls.take(k + 1).drop_last() =~= ls.take(k));
        lemma_scan_layouts_err_extends(ls, k + 1);
    } else {
        assert(ls.take(k) =~= ls);
    }
}

proof fn lemma_scan_entries_err_extends(es: Seq<BindGroupEntry>, seen: Seq<(u32, BindEntryType)>, k: int)
    requires
        0 <= k <= es.len(),
        scan_entries(es.take(k), seen) is Err,
    ensures
        scan_entries(es, seen) == scan_entries(es.take(k), seen),
    decreases es.len() - k,
{
    if k < es.len() {
        assert(es.take(k + 1).drop_last() =~= es.take(k));
        lemma_scan_entries_err_extends(es, seen, k + 1);
    } else {
        assert(es.take(k) =~= es);
    }
}

proof fn lemma_scan_groups_err_extends(gs: Seq<Seq<BindGroupEntry>>, k: int)
    requires
        0 <= k <= gs.len(),
        scan_groups(gs.take(k)) is Err,
    ensures
        scan_groups(gs) == scan_groups(gs.take(k)),
    decreases gs.len() - k,
{
    if k < gs.len() {
        assert(gs.take(k + 1).drop_last() =~= gs.take(k));
        lemma_scan_groups_err_extends(gs, k + 1);
    } else {
        assert(gs.take(k) =~= gs);
    }
}

proof fn lemma_layouts_validatable_prefix(ls: Seq<LayoutView>, k: int)
    requires
        layouts_validatable(ls),
        0 <= k <= ls.len(),
    ensures
        layouts_validatable(ls.take(k)),
    decreases ls.len(),
{
    if k == ls.len() {
        assert(ls.take(k) =~= ls);
    } else {
        assert(ls.drop_last().take(k) =~= ls.take(k));
        lemma_layouts_validatable_prefix(ls.drop_last(), k);
    }
}

fn contains_location(seen: &Vec<u32>, loc: u32) -> (r: bool)
    ensures
        r == seen@.contains(loc),
{
    let n = seen.len();
    let mut i: usize = 0;
    while i < n
        invariant
            n == seen@.len(),
            i <= n,
            forall|k: int| 0 <= k < i ==> seen@[k] != loc,
        decreases n - i,
    {
        if seen[i] == loc {
            return true;
        }
        i = i + 1;
    }
    false
}

fn contains_binding(seen: &Vec<(u32, BindEntryType)>, key: (u32, BindEntryType)) -> (r: bool)
    ensures
        r == seen@.contains(key),
{
    let n = seen.len();
    let mut i: usize = 0;
    while i < n
        invariant
            n == seen@.len(),
            i <= n,
            forall|k: int| 0 <= k < i ==> seen@[k] != key,
        decreases n - i,
    {
        let (b, t) = seen[i];
        if b == key.0 && t == key.1 {
            assert(seen@[i as int] == key);
            return true;
        }
        i = i + 1;
    }
    false
}

fn shader_error(msg: String) -> (r: MoonWalkError)
    ensures
        r matches MoonWalkError::ShaderError(m) && m@ == msg@,
{
    MoonWalkError::ShaderError(msg)
}

impl MoonPipeline {
    /// A description of the given shader source with entry points `vs_main`
    /// and `fs_main`, no layouts or bind groups, the default render
    /// configuration and the adaptive fallback.
    pub fn new(shader_source: &str) -> (r: MoonPipeline)
        ensures
            r@ == (PipelineView {
                shader_source: shader_source@,
                vertex_shader: "vs_main"@,
                fragment_shader: "fs_main"@,
                vertex_layouts: Seq::empty(),
                bind_groups: Seq::empty(),
                render_config: default_render_config(),
                fallback_strategy: FallbackStrategy::Adaptive,
                label: None,
            }),
    {
        let r = MoonPipeline {
            shader_source: String::from_str(shader_source),
            vertex_shader: String::from_str("vs_main"),
            fragment_shader: String::from_str("fs_main"),
            vertex_layouts: Vec::new(),
            bind_groups: Vec::new(),
            render_config: RenderConfig::default(),
            fallback_strategy: FallbackStrategy::Adaptive,
            label: None,
        };
        assert(layout_views(r.vertex_layouts@) =~= Seq::<LayoutView>::empty());
        assert(group_views(r.bind_groups@) =~= Seq::<Seq<BindGroupEntry>>::empty());
        r
    }

    /// Sets the vertex entry point.
    pub fn vertex_shader(self, entry: &str) -> (r: MoonPipeline)
        ensures
            r@ == (PipelineView { vertex_shader: entry@, ..self@ }),
    {
        let mut s = self;
        s.vertex_shader = String::from_str(entry);
        s
    }

    /// Sets the fragment entry point.
    pub fn fragment_shader(self, entry: &str) -> (r: MoonPipeline)
        ensures
            r@ == (PipelineView { fragment_shader: entry@, ..self@ }),
    {
        let mut s = self;
        s.fragment_shader = String::from_str(entry);
        s
    }

    /// Appends a vertex layout.
    pub fn add_vertex_layout(self, layout: VertexLayout) -> (r: MoonPipeline)
        ensures
            r@ == (PipelineView { vertex_layouts: self@.vertex_layouts.push(layout@), ..self@ }),
    {
        let mut s = self;
        let ghost old_layouts = s.vertex_layouts@;
        s.vertex_layouts.push(layout);
        assert(layout_views(s.vertex_layouts@) =~= layout_views(old_layouts).push(layout@));
        s
    }

    /// Appends a bind group.
    pub fn add_bind_group(self, bind_group: BindGroup) -> (r: MoonPipeline)
        ensures
            r@ == (PipelineView { bind_groups: self@.bind_groups.push(bind_group@), ..self@ }),
    {
        let mut s = self;
        let ghost old_groups = s.bind_groups@;
        s.bind_groups.push(bind_group);
        assert(group_views(s.bind_groups@) =~= group_views(old_groups).push(bind_group@));
        s
    }

    pub fn target_format(self, format: Format) -> (r: MoonPipeline)
        ensures
            r@ == (PipelineView {
                render_config: RenderConfig { target_format: format, ..self@.render_config },
                ..self@
            }),
    {
        let mut s = self;
        s.render_config.target_format = format;
        s
    }

    pub fn blend(self, mode: BlendMode) -> (r: MoonPipeline)
        ensures
            r@ == (PipelineView {
                render_config: RenderConfig { blend_mode: mode, ..self@.render_config },
                ..self@
            }),
    {
        let mut s = self;
        s.render_config.blend_mode = mode;
        s
    }

    pub fn cull(self, mode: CullMode) -> (r: MoonPipeline)
        ensures
            r@ == (PipelineView {
                render_config: RenderConfig { cull_mode: mode, ..self@.render_config },
                ..self@
            }),
    {
        let mut s = self;
        s.render_config.cull_mode = mode;
        s
    }

    pub fn topology(self, topology: Topology) -> (r: MoonPipeline)
        ensures
            r@ == (PipelineView {
                render_config: RenderConfig { topology, ..self@.render_config },
                ..self@
            }),
    {
        let mut s = self;
        s.render_config.topology = topology;
        s
    }

    pub fn depth_test(self, enabled: bool) -> (r: MoonPipeline)
        ensures
            r@ == (PipelineView {
                render_config: RenderConfig { depth_test: enabled, ..self@.render_config },
                ..self@
            }),
    {
        let mut s = self;
        s.render_config.depth_test = enabled;
        s
    }

    pub fn depth_write(self, enabled: bool) -> (r: MoonPipeline)
        ensures
            r@ == (PipelineView {
                render_config: RenderConfig { depth_write: enabled, ..self@.render_config },
                ..self@
            }),
    {
        let mut s = self;
        s.render_config.depth_write = enabled;
        s
    }

    pub fn fallback_strategy(self, strategy: FallbackStrategy) -> (r: MoonPipeline)
        ensures
            r@ == (PipelineView { fallback_strategy: strategy, ..self@ }),
    {
        let mut s = self;
        s.fallback_strategy = strategy;
        s
    }

    /// Sets the debug label.
    pub fn label(self, label: &str) -> (r: MoonPipeline)
        ensures
            r@ == (PipelineView { label: Some(label@), ..self@ }),
    {
        let mut s = self;
        s.label = Some(String::from_str(label));
        s
    }

    /// The shader source.
    pub fn shader_source(&self) -> (r: &str)
        ensures
            r@ == self@.shader_source,
    {
        self.shader_source.as_str()
    }

    /// The vertex entry point.
    pub fn vertex_entry(&self) -> (r: &str)
        ensures
            r@ == self@.vertex_shader,
    {
        self.vertex_shader.as_str()
    }

    /// The fragment entry point.
    pub fn fragment_entry(&self) -> (r: &str)
        ensures
            r@ == self@.fragment_shader,
    {
        self.fragment_shader.as_str()
    }

    /// The vertex layouts, in order.
    pub fn vertex_layouts(&self) -> (r: &Vec<VertexLayout>)
        ensures
            layout_views(r@) == self@.vertex_layouts,
    {
        &self.vertex_layouts
    }

    /// The bind groups, in order.
    pub fn bind_groups(&self) -> (r: &Vec<BindGroup>)
        ensures
            group_views(r@) == self@.bind_groups,
    {
        &self.bind_groups
    }

    /// The render configuration.
    pub fn render_config(&self) -> (r: RenderConfig)
        ensures
            r == self@.render_config,
    {
        self.render_config
    }

    /// The fallback strategy.
    pub fn strategy(&self) -> (r: FallbackStrategy)
        ensures
            r == self@.fallback_strategy,
    {
        self.fallback_strategy
    }

    /// The debug label.
    pub fn debug_label(&self) -> (r: Option<&str>)
        ensures
            match r {
                Some(l) => self@.label == Some(l@),
                None => self@.label is None,
            },
    {
        match &self.label {
            Some(l) => Some(l.as_str()),
            None => None,
        }
    }

    /// Checks the attribute locations of one layout against those seen so far,
    /// recording them.
    fn check_locations(layout: &VertexLayout, seen: &mut Vec<u32>) -> (r: Result<(), String>)
        ensures
            r is Ok <==> scan_locations(layout@.attributes, old(seen)@) is Ok,
            r is Ok ==> scan_locations(layout@.attributes, old(seen)@) == Ok::<Seq<u32>, Seq<char>>(final(seen)@),
            r matches Err(e) ==> scan_locations(layout@.attributes, old(seen)@) == Err::<Seq<u32>, Seq<char>>(e@),
    {
        let ghost attrs = layout.attributes@;
        let ghost seen0 = seen@;
        let n = layout.attributes.len();
        let mut j: usize = 0;
        assert(attrs.take(0) =~= Seq::<VertexAttr>::empty());
        while j < n
            invariant
                n == attrs.len(),
                attrs == layout.attributes@,
                seen0 == old(seen)@,
                j <= n,
                scan_locations(attrs.take(j as int), seen0) == Ok::<Seq<u32>, Seq<char>>(seen@),
            decreases n - j,
        {
            let loc = layout.attributes[j].location;
            proof {
                assert(attrs.take(j + 1).drop_last() =~= attrs.take(j as int));
                assert(attrs.take(j + 1).last().location == loc);
            }
            if contains_location(seen, loc) {
                let msg = prefixed_decimal("Duplicate shader location: ", loc);
                proof {
                    let t = attrs.take(j + 1);
                    assert(scan_locations(t.drop_last(), seen0) == Ok::<Seq<u32>, Seq<char>>(seen@));
                    assert(scan_locations(t, seen0) == Err::<Seq<u32>, Seq<char>>(duplicate_location_message(loc)));
                    assert(msg@ == duplicate_location_message(loc));
                    lemma_scan_locations_err_extends(attrs, seen0, j + 1);
                }
                return Err(msg);
            }
            seen.push(loc);
            j = j + 1;
        }
        assert(attrs.take(n as int) =~= attrs);
        Ok(())
    }

    /// Checks the (binding, kind) pairs of one bind group against those seen so far.
    fn check_bindings(group: &BindGroup, seen: &mut Vec<(u32, BindEntryType)>) -> (r: Result<(), String>)
        ensures
            r is Ok <==> scan_entries(group@, old(seen)@) is Ok,
            r is Ok ==> scan_entries(group@, old(seen)@) == Ok::<Seq<(u32, BindEntryType)>, Seq<char>>(
                final(seen)@,
            ),
            r matches Err(e) ==> scan_entries(group@, old(seen)@) == Err::<
                Seq<(u32, BindEntryType)>,
                Seq<char>,
            >(e@),
    {
        let ghost es = group.entries@;
        let ghost seen0 = seen@;
        let n = group.entries.len();
        let mut j: usize = 0;
        assert(es.take(0) =~= Seq::<BindGroupEntry>::empty());
        while j < n
            invariant
                n == es.len(),
                es == group.entries@,
                seen0 == old(seen)@,
                j <= n,
                scan_entries(es.take(j as int), seen0) == Ok::<Seq<(u32, BindEntryType)>, Seq<char>>(seen@),
            decreases n - j,
        {
            let entry = group.entries[j];
            let key = (entry.binding, entry.entry_type);
            proof {
                assert(es.take(j + 1).drop_last() =~= es.take(j as int));
                assert(es.take(j + 1).last() == entry);
            }
            if contains_binding(seen, key) {
                let msg = prefixed_decimal("Duplicate binding: ", entry.binding);
                proof {
                    lemma_scan_entries_err_extends(es, seen0, j + 1);
                }
                return Err(msg);
            }
            seen.push(key);
            j = j + 1;
        }
        assert(es.take(n as int) =~= es);
        Ok(())
    }

    /// Validates the description: both entry points named, at least one vertex
    /// layout, every layout valid, no shader location used twice across the
    /// layouts, and no (binding, kind) pair used twice across the bind groups.
    /// The first failure found, in that order, is reported.
    pub fn validate(&self) -> (r: Result<(), MoonWalkError>)
        requires
            pipeline_validatable(self@),
        ensures
            r is Ok <==> pipeline_check(self@) is Ok,
            r matches Err(e) ==> (e matches MoonWalkError::ShaderError(m) && pipeline_check(self@)
                == Err::<(), Seq<char>>(m@)),
    {
        if self.vertex_shader.as_str().is_empty() {
            return Err(shader_error(String::from_str("Vertex shader entry point not set")));
        }
        if self.fragment_shader.as_str().is_empty() {
            return Err(shader_error(String::from_str("Fragment shader entry point not set")));
        }
        if self.vertex_layouts.len() == 0 {
            return Err(shader_error(String::from_str("No vertex layouts specified")));
        }
        let ghost ls = self@.vertex_layouts;
        let mut locations: Vec<u32> = Vec::new();
        let n = self.vertex_layouts.len();
        let mut i: usize = 0;
        assert(ls.take(0) =~= Seq::<LayoutView>::empty());
        while i < n
            invariant
                ls == self@.vertex_layouts,
                ls == layout_views(self.vertex_layouts@),
                self@.vertex_shader.len() > 0,
                self@.fragment_shader.len() > 0,
                n == ls.len(),
                i <= n,
                layouts_validatable(ls),
                scan_layouts(ls.take(i as int)) == Ok::<Seq<u32>, Seq<char>>(locations@),
            decreases n - i,
        {
            let layout = &self.vertex_layouts[i];
            proof {
                assert(ls.take(i + 1).drop_last() =~= ls.take(i as int));
                assert(ls.take(i + 1).last() == layout@);
                lemma_layouts_validatable_prefix(ls, i + 1);
            }
            match layout.validate() {
                Err(e) => {
                    let mut msg = String::from_str("Invalid vertex layout: ");
                    msg.append(e.as_str());
                    proof {
                        lemma_scan_layouts_err_extends(ls, i + 1);
                    }
                    return Err(shader_error(msg));
                },
                Ok(()) => {},
            }
            match MoonPipeline::check_locations(layout, &mut locations) {
                Err(e) => {
                    proof {
                        lemma_scan_layouts_err_extends(ls, i + 1);
                    }
                    return Err(shader_error(e));
                },
                Ok(()) => {},
            }
            i = i + 1;
        }
        assert(ls.take(n as int) =~= ls);
        let ghost gs = self@.bind_groups;
        let mut bindings: Vec<(u32, BindEntryType)> = Vec::new();
        let m = self.bind_groups.len();
        let mut g: usize = 0;
        assert(gs.take(0) =~= Seq::<Seq<BindGroupEntry>>::empty());
        while g < m
            invariant
                gs == self@.bind_groups,
                gs == group_views(self.bind_groups@),
                m == gs.len(),
                g <= m,
                scan_layouts(ls) is Ok,
                ls == self@.vertex_layouts,
                self@.vertex_shader.len() > 0,
                self@.fragment_shader.len() > 0,
                ls.len() > 0,
                scan_groups(gs.take(g as int)) == Ok::<Seq<(u32, BindEntryType)>, Seq<char>>(bindings@),
            decreases m - g,
        {
            let group = &self.bind_groups[g];
            proof {
                assert(gs.take(g + 1).drop_last() =~= gs.take(g as int));
                assert(gs.take(g + 1).last() == group@);
            }
            match MoonPipeline::check_bindings(group, &mut bindings) {
                Err(e) => {
                    proof {
                        lemma_scan_groups_err_extends(gs, g + 1);
                    }
                    return Err(shader_error(e));
                },
                Ok(()) => {},
            }
            g = g + 1;
        }
        assert(gs.take(m as int) =~= gs);
        Ok(())
    }
}


// ---------------------------------------------------------------------------
// Strides and fallback layouts
// ---------------------------------------------------------------------------

/// The largest stride among the layouts (0 when there are none).
pub open spec fn max_layout_stride(ls: Seq<LayoutView>) -> u32
    decreases ls.len(),
{
    if ls.len() == 0 {
        0
    } else {
        let m = max_layout_stride(ls.drop_last());
        if ls.last().stride > m {
            ls.last().stride
        } else {
            m
        }
    }
}

/// The stride that tightly holds a run of attributes: the end of its last
/// attribute (0 for none).
pub open spec fn stride_for_attrs(attrs: Seq<VertexAttr>) -> int {
    if attrs.len() == 0 {
        0
    } else {
        attr_end(attrs.last())
    }
}

/// Splitting a layout in half: the first `len / 2` attributes and the rest,
/// each with its tight stride; no split for fewer than two attributes or when
/// either half still exceeds `max_stride`.
pub open spec fn split_half(l: LayoutView, max_stride: u32) -> Option<(LayoutView, LayoutView)> {
    if l.attributes.len() < 2 {
        None
    } else {
        let mid = (l.attributes.len() / 2) as int;
        let first = l.attributes.subrange(0, mid);
        let second = l.attributes.subrange(mid, l.attributes.len() as int);
        let fs = stride_for_attrs(first);
        let ss = stride_for_attrs(second);
        if fs > max_stride || ss > max_stride {
            None
        } else {
            Some(
                (
                    LayoutView { stride: fs as u32, step_mode: l.step_mode, attributes: first },
                    LayoutView { stride: ss as u32, step_mode: l.step_mode, attributes: second },
                ),
            )
        }
    }
}

/// Computing the two tight strides of a split does not overflow.
pub open spec fn split_half_computable(l: LayoutView) -> bool {
    l.attributes.len() < 2 || (attr_end(l.attributes[(l.attributes.len() / 2) as int - 1]) <= u32::MAX
        && attr_end(l.attributes.last()) <= u32::MAX)
}

/// The split strategy: layouts within `max_stride` are kept, larger ones are
/// split in half (and counted); it fails if any split fails.
pub open spec fn split_plan(ls: Seq<LayoutView>, max_stride: u32) -> Option<(Seq<LayoutView>, nat)>
    decreases ls.len(),
{
    if ls.len() == 0 {
        Some((Seq::empty(), 0))
    } else {
        match split_plan(ls.drop_last(), max_stride) {
            None => None,
            Some((acc, count)) => {
                let l = ls.last();
                if l.stride > max_stride {
                    match split_half(l, max_stride) {
                        None => None,
                        Some((a, b)) => Some((acc.push(a).push(b), count + 1)),
                    }
                } else {
                    Some((acc.push(l), count))
                }
            },
        }
    }
}

/// Planning the split strategy does not overflow.
pub open spec fn split_plan_computable(ls: Seq<LayoutView>, max_stride: u32) -> bool
    decreases ls.len(),
{
    if ls.len() == 0 {
        true
    } else {
        &&& split_plan_computable(ls.drop_last(), max_stride)
        &&& (split_plan(ls.drop_last(), max_stride) is Some && ls.last().stride > max_stride)
            ==> split_half_computable(ls.last())
    }
}

/// The reduce strategy: every stride clamped to `max_stride`.
pub open spec fn reduce_plan(ls: Seq<LayoutView>, max_stride: u32) -> Seq<LayoutView> {
    ls.map_values(
        |l: LayoutView|
            LayoutView {
                stride: if l.stride < max_stride {
                    l.stride
                } else {
                    max_stride
                },
                ..l
            },
    )
}

/// The layouts and split count a build uses, by strategy, for a device whose
/// stride limit is `device_max`; `Err` carries the failure message.
pub open spec fn build_layouts(p: PipelineView, device_max: u32) -> Result<(Seq<LayoutView>, nat), Seq<char>> {
    match p.fallback_strategy {
        FallbackStrategy::Direct => Ok((p.vertex_layouts, 1)),
        FallbackStrategy::Adaptive => {
            if max_layout_stride(p.vertex_layouts) <= device_max {
                Ok((p.vertex_layouts, 1))
            } else {
                match split_plan(p.vertex_layouts, device_max) {
                    Some((ls, count)) => Ok((ls, count)),
                    None => Ok((reduce_plan(p.vertex_layouts, device_max), 1)),
                }
            }
        },
        FallbackStrategy::Split => match split_plan(p.vertex_layouts, device_max) {
            Some((ls, count)) => Ok((ls, count)),
            None => Err("Split strategy failed"@),
        },
        FallbackStrategy::Reduce => Ok((reduce_plan(p.vertex_layouts, device_max), 1)),
    }
}

/// Planning a build does not overflow.
pub open spec fn build_plannable(p: PipelineView, device_max: u32) -> bool {
    &&& p.vertex_layouts.len() <= u32::MAX
    &&& (p.fallback_strategy == FallbackStrategy::Split || (p.fallback_strategy
        == FallbackStrategy::Adaptive && max_layout_stride(p.vertex_layouts) > device_max))
        ==> split_plan_computable(p.vertex_layouts, device_max)
}

/// What a build is made from: the vertex layouts, the number of layouts that
/// were split, and the largest stride used.
#[derive(Debug)]
pub struct BuildPlan {
    pub layouts: Vec<VertexLayout>,
    pub split_count: u32,
    pub used_stride: u32,
}

proof fn lemma_max_layout_stride(ls: Seq<LayoutView>)
    ensures
        forall|i: int| 0 <= i < ls.len() ==> #[trigger] ls[i].stride <= max_layout_stride(ls),
        ls.len() > 0 ==> exists|i: int| 0 <= i < ls.len() && #[trigger] ls[i].stride == max_layout_stride(ls),
    decreases ls.len(),
{
    if ls.len() > 0 {
        lemma_max_layout_stride(ls.drop_last());
        let m = max_layout_stride(ls.drop_last());
        assert forall|i: int| 0 <= i < ls.len() implies #[trigger] ls[i].stride <= max_layout_stride(ls) by {
            if i < ls.len() - 1 {
                assert(ls[i] == ls.drop_last()[i]);
            }
        }
        if ls.last().stride > m || ls.len() == 1 {
            assert(ls[ls.len() - 1].stride == max_layout_stride(ls));
        } else {
            let j = choose|j: int| 0 <= j < ls.drop_last().len() && #[trigger] ls.drop_last()[j].stride
                == max_layout_stride(ls.drop_last());
            assert(ls[j] == ls.drop_last()[j]);
        }
    }
}

proof fn lemma_split_plan_none_extends(ls: Seq<LayoutView>, max_stride: u32, k: int)
    requires
        0 <= k <= ls.len(),
        split_plan(ls.take(k), max_stride) is None,
    ensures
        split_plan(ls, max_stride) is None,
    decreases ls.len() - k,
{
    if k < ls.len() {
        assert(ls.take(k + 1).drop_last() =~= ls.take(k));
        lemma_split_plan_none_extends(ls, max_stride, k + 1);
    } else {
        assert(ls.take(k) =~= ls);
    }
}

proof fn lemma_split_plan_computable_prefix(ls: Seq<LayoutView>, max_stride: u32, k: int)
    requires
        split_plan_computable(ls, max_stride),
        0 <= k <= ls.len(),
    ensures
        split_plan_computable(ls.take(k), max_stride),
    decreases ls.len(),
{
    if k == ls.len() {
        assert(ls.take(k) =~= ls);
    } else {
        assert(ls.drop_last().take(k) =~= ls.take(k));
        lemma_split_plan_computable_prefix(ls.drop_last(), max_stride, k);
    }
}

proof fn lemma_split_plan_count(ls: Seq<LayoutView>, max_stride: u32)
    requires
        split_plan(ls, max_stride) is Some,
    ensures
        split_plan(ls, max_stride).unwrap().1 <= ls.len(),
    decreases ls.len(),
{
    if ls.len() > 0 {
        lemma_split_plan_count(ls.drop_last(), max_stride);
    }
}

fn copy_layout(l: &VertexLayout) -> (r: VertexLayout)
    ensures
        r@ == l@,
{
    VertexLayout {
        stride: l.stride,
        step_mode: l.step_mode,
        attributes: slice_to_vec(l.attributes.as_slice()),
    }
}

fn copy_layouts(ls: &Vec<VertexLayout>) -> (r: Vec<VertexLayout>)
    ensures
        layout_views(r@) == layout_views(ls@),
{
    let mut out: Vec<VertexLayout> = Vec::new();
    let n = ls.len();
    let mut i: usize = 0;
    while i < n
        invariant
            n == ls@.len(),
            i <= n,
            layout_views(out@) == layout_views(ls@).take(i as int),
        decreases n - i,
    {
        let c = copy_layout(&ls[i]);
        let ghost before = out@;
        out.push(c);
        assert(layout_views(out@) =~= layout_views(before).push(c@));
        assert(layout_views(ls@).take(i + 1) =~= layout_views(ls@).take(i as int).push(ls@[i as int]@));
        i = i + 1;
    }
    assert(layout_views(ls@).take(n as int) =~= layout_views(ls@));
    out
}

impl MoonPipeline {
    /// Size in bytes of one value of a format.
    pub fn format_size_bytes(&self, format: Format) -> (r: u32)
        ensures
            r == format_bytes(format),
    {
        VertexLayout::format_size(format)
    }

    /// The largest stride among the vertex layouts (0 when there are none).
    pub fn get_max_stride(&self) -> (r: u32)
        ensures
            r == max_layout_stride(self@.vertex_layouts),
            forall|i: int| 0 <= i < self@.vertex_layouts.len() ==> #[trigger] self@.vertex_layouts[i].stride <= r,
            self@.vertex_layouts.len() > 0 ==> exists|i: int|
                0 <= i < self@.vertex_layouts.len() && #[trigger] self@.vertex_layouts[i].stride == r,
    {
        let ghost ls = self@.vertex_layouts;
        let n = self.vertex_layouts.len();
        let mut m: u32 = 0;
        let mut i: usize = 0;
        while i < n
            invariant
                ls == layout_views(self.vertex_layouts@),
                n == ls.len(),
                i <= n,
                m == max_layout_stride(ls.take(i as int)),
            decreases n - i,
        {
            proof {
                assert(ls.take(i + 1).drop_last() =~= ls.take(i as int));
                assert(ls.take(i + 1).last() == self.vertex_layouts@[i as int]@);
            }
            let st = self.vertex_layouts[i].stride;
            if st > m {
                m = st;
            }
            i = i + 1;
        }
        assert(ls.take(n as int) =~= ls);
        proof {
            lemma_max_layout_stride(ls);
        }
        m
    }

    /// The tight stride of a run of attributes: the end of the last one.
    pub fn calculate_stride_for_attrs(&self, attrs: &[VertexAttr]) -> (r: u32)
        requires
            attrs@.len() > 0 ==> attr_end(attrs@.last()) <= u32::MAX,
        ensures
            r == stride_for_attrs(attrs@),
    {
        if attrs.len() == 0 {
            return 0;
        }
        let last = attrs[attrs.len() - 1];
        last.offset + self.format_size_bytes(last.format)
    }

    /// Splits a layout's attributes in half, each half with its tight stride;
    /// `None` for fewer than two attributes or when a half exceeds `max_stride`.
    pub fn split_layout_half(&self, layout: &VertexLayout, max_stride: u32) -> (r: Option<(VertexLayout, VertexLayout)>)
        requires
            split_half_computable(layout@),
        ensures
            r is Some <==> split_half(layout@, max_stride) is Some,
            r matches Some((a, b)) ==> split_half(layout@, max_stride) == Some((a@, b@)),
    {
        if layout.attributes.len() < 2 {
            return None;
        }
        let mid = layout.attributes.len() / 2;
        let (first, second) = layout.attributes.as_slice().split_at(mid);
        let first_stride = self.calculate_stride_for_attrs(first);
        let second_stride = self.calculate_stride_for_attrs(second);
        if first_stride > max_stride || second_stride > max_stride {
            return None;
        }
        let a = VertexLayout { stride: first_stride, step_mode: layout.step_mode, attributes: slice_to_vec(first) };
        let b = VertexLayout { stride: second_stride, step_mode: layout.step_mode, attributes: slice_to_vec(second) };
        Some((a, b))
    }

    /// The layouts of the split strategy and the number of layouts split, or
    /// `None` when some oversized layout cannot be split within `max_stride`.
    pub fn split_layouts(&self, max_stride: u32) -> (r: Option<(Vec<VertexLayout>, u32)>)
        requires
            split_plan_computable(self@.vertex_layouts, max_stride),
            self@.vertex_layouts.len() <= u32::MAX,
        ensures
            r is Some <==> split_plan(self@.vertex_layouts, max_stride) is Some,
            r matches Some((v, c)) ==> split_plan(self@.vertex_layouts, max_stride) == Some((layout_views(v@), c as nat)),
    {
        let ghost ls = self@.vertex_layouts;
        let mut out: Vec<VertexLayout> = Vec::new();
        let mut count: u32 = 0;
        let n = self.vertex_layouts.len();
        let mut i: usize = 0;
        assert(ls.take(0) =~= Seq::<LayoutView>::empty());
        assert(layout_views(out@) =~= Seq::<LayoutView>::empty());
        while i < n
            invariant
                ls == layout_views(self.vertex_layouts@),
                n == ls.len(),
                n <= u32::MAX,
                i <= n,
                split_plan_computable(ls, max_stride),
                split_plan(ls.take(i as int), max_stride) == Some((layout_views(out@), count as nat)),
            decreases n - i,
        {
            let layout = &self.vertex_layouts[i];
            proof {
                assert(ls.take(i + 1).drop_last() =~= ls.take(i as int));
                assert(ls.take(i + 1).last() == layout@);
                lemma_split_plan_computable_prefix(ls, max_stride, i + 1);
                lemma_split_plan_count(ls.take(i as int), max_stride);
            }
            let ghost before = out@;
            if layout.stride > max_stride {
                match self.split_layout_half(layout, max_stride) {
                    Some((a, b)) => {
                        out.push(a);
                        out.push(b);
                        count = count + 1;
                        assert(layout_views(out@) =~= layout_views(before).push(a@).push(b@));
                    },
                    None => {
                        proof {
                            lemma_split_plan_none_extends(ls, max_stride, i + 1);
                        }
                        return None;
                    },
                }
            } else {
                let c = copy_layout(layout);
                out.push(c);
                assert(layout_views(out@) =~= layout_views(before).push(c@));
            }
            i = i + 1;
        }
        assert(ls.take(n as int) =~= ls);
        Some((out, count))
    }

    /// The layouts of the reduce strategy: every stride clamped to `max_stride`.
    pub fn reduced_layouts(&self, max_stride: u32) -> (r: Vec<VertexLayout>)
        ensures
            layout_views(r@) == reduce_plan(self@.vertex_layouts, max_stride),
    {
        let ghost ls = self@.vertex_layouts;
        let mut out: Vec<VertexLayout> = Vec::new();
        let n = self.vertex_layouts.len();
        let mut i: usize = 0;
        while i < n
            invariant
                ls == layout_views(self.vertex_layouts@),
                n == ls.len(),
                i <= n,
                layout_views(out@) == reduce_plan(ls, max_stride).take(i as int),
            decreases n - i,
        {
            let mut c = copy_layout(&self.vertex_layouts[i]);
            if c.stride > max_stride {
                c.stride = max_stride;
            }
            let ghost before = out@;
            out.push(c);
            assert(layout_views(out@) =~= layout_views(before).push(c@));
            assert(reduce_plan(ls, max_stride).take(i + 1) =~= reduce_plan(ls, max_stride).take(i as int).push(c@));
            i = i + 1;
        }
        assert(reduce_plan(ls, max_stride).take(n as int) =~= reduce_plan(ls, max_stride));
        out
    }

    /// The plan of a build on a device whose stride limit is `device_max`:
    /// the strategy's layouts, its split count and the largest stride used;
    /// the split strategy fails when a layout cannot be split.
    pub fn plan_build(&self, device_max: u32) -> (r: Result<BuildPlan, MoonWalkError>)
        requires
            build_plannable(self@, device_max),
        ensures
            r is Ok <==> build_layouts(self@, device_max) is Ok,
            r matches Ok(p) ==> build_layouts(self@, device_max) == Ok::<(Seq<LayoutView>, nat), Seq<char>>(
                (layout_views(p.layouts@), p.split_count as nat),
            ) && p.used_stride == max_layout_stride(layout_views(p.layouts@)),
            r matches Err(e) ==> (e matches MoonWalkError::ShaderError(m) && build_layouts(self@, device_max)
                == Err::<(Seq<LayoutView>, nat), Seq<char>>(m@)),
    {
        let (layouts, split_count) = match self.fallback_strategy {
            FallbackStrategy::Direct => (copy_layouts(&self.vertex_layouts), 1u32),
            FallbackStrategy::Adaptive => {
                if self.get_max_stride() <= device_max {
                    (copy_layouts(&self.vertex_layouts), 1u32)
                } else {
                    match self.split_layouts(device_max) {
                        Some((ls, c)) => (ls, c),
                        None => (self.reduced_layouts(device_max), 1u32),
                    }
                }
            },
            FallbackStrategy::Split => match self.split_layouts(device_max) {
                Some((ls, c)) => (ls, c),
                None => {
                    return Err(shader_error(String::from_str("Split strategy failed")));
                },
            },
            FallbackStrategy::Reduce => (self.reduced_layouts(device_max), 1u32),
        };
        let used_stride = max_stride_of(&layouts);
        Ok(BuildPlan { layouts, split_count, used_stride })
    }

    /// The per-instance layout of the engine's rectangle batch: 64-byte
    /// stride, attributes at locations 1 to 9.
    pub fn create_rect_instance_layout() -> (r: VertexLayout)
        ensures
            r@ == rect_instance_layout(),
    {
        let r = VertexLayout::new()
            .stride(64)
            .step_mode(StepMode::Instance)
            .add_attr(VertexAttr::new().format(Format::Float32x4).location(1).offset(0))
            .add_attr(VertexAttr::new().format(Format::Unorm16x4).location(2).offset(16))
            .add_attr(VertexAttr::new().format(Format::Uint16x4).location(3).offset(24))
            .add_attr(VertexAttr::new().format(Format::Snorm16x4).location(4).offset(32))
            .add_attr(VertexAttr::new().format(Format::Float32x2).location(5).offset(40))
            .add_attr(VertexAttr::new().format(Format::Uint32).location(6).offset(48))
            .add_attr(VertexAttr::new().format(Format::Uint32).location(7).offset(52))
            .add_attr(VertexAttr::new().format(Format::Uint32).location(8).offset(56))
            .add_attr(VertexAttr::new().format(Format::Uint16x2).location(9).offset(60));
        assert(r@.attributes =~= rect_instance_layout().attributes);
        r
    }
}

/// The largest stride of a vector of layouts.
pub fn max_stride_of(ls: &Vec<VertexLayout>) -> (r: u32)
    ensures
        r == max_layout_stride(layout_views(ls@)),
{
    let ghost v = layout_views(ls@);
    let n = ls.len();
    let mut m: u32 = 0;
    let mut i: usize = 0;
    while i < n
        invariant
            v == layout_views(ls@),
            n == v.len(),
            i <= n,
            m == max_layout_stride(v.take(i as int)),
        decreases n - i,
    {
        proof {
            assert(v.take(i + 1).drop_last() =~= v.take(i as int));
            assert(v.take(i + 1).last() == ls@[i as int]@);
        }
        let st = ls[i].stride;
        if st > m {
            m = st;
        }
        i = i + 1;
    }
    assert(v.take(n as int) =~= v);
    m
}

/// An attribute with the given format, location and offset.
pub open spec fn attr(format: Format, location: u32, offset: u32) -> VertexAttr {
    VertexAttr { format, location, offset }
}

/// The rectangle batch's per-instance layout.
pub open spec fn rect_instance_layout() -> LayoutView {
    LayoutView {
        stride: 64,
        step_mode: StepMode::Instance,
        attributes: seq![
            attr(Format::Float32x4, 1, 0),
            attr(Format::Unorm16x4, 2, 16),
            attr(Format::Uint16x4, 3, 24),
            attr(Format::Snorm16x4, 4, 32),
            attr(Format::Float32x2, 5, 40),
            attr(Format::Uint32, 6, 48),
            attr(Format::Uint32, 7, 52),
            attr(Format::Uint32, 8, 56),
            attr(Format::Uint16x2, 9, 60),
        ],
    }
}


// ---------------------------------------------------------------------------
// Laws
// ---------------------------------------------------------------------------

/// The shader locations of a run of attributes, in order.
pub open spec fn attr_locations(attrs: Seq<VertexAttr>) -> Seq<u32> {
    attrs.map_values(|a: VertexAttr| a.location)
}

/// The shader locations of all layouts, layout by layout.
pub open spec fn all_locations(ls: Seq<LayoutView>) -> Seq<u32>
    decreases ls.len(),
{
    if ls.len() == 0 {
        Seq::empty()
    } else {
        all_locations(ls.drop_last()) + attr_locations(ls.last().attributes)
    }
}

proof fn lemma_scan_locations_ok(attrs: Seq<VertexAttr>, seen: Seq<u32>)
    requires
        scan_locations(attrs, seen) is Ok,
        seen.no_duplicates(),
    ensures
        scan_locations(attrs, seen) == Ok::<Seq<u32>, Seq<char>>(seen + attr_locations(attrs)),
        (seen + attr_locations(attrs)).no_duplicates(),
    decreases attrs.len(),
{
    if attrs.len() > 0 {
        lemma_scan_locations_ok(attrs.drop_last(), seen);
        assert(attr_locations(attrs) =~= attr_locations(attrs.drop_last()).push(attrs.last().location));
        assert(seen + attr_locations(attrs) =~= (seen + attr_locations(attrs.drop_last())).push(attrs.last().location));
    } else {
        assert(seen + attr_locations(attrs) =~= seen);
    }
}

proof fn lemma_scan_layouts_ok(ls: Seq<LayoutView>)
    requires
        scan_layouts(ls) is Ok,
    ensures
        scan_layouts(ls) == Ok::<Seq<u32>, Seq<char>>(all_locations(ls)),
        all_locations(ls).no_duplicates(),
    decreases ls.len(),
{
    if ls.len() > 0 {
        lemma_scan_layouts_ok(ls.drop_last());
        lemma_scan_locations_ok(ls.last().attributes, all_locations(ls.drop_last()));
    }
}

/// The (binding, kind) pairs of a run of bind group entries, in order.
pub open spec fn entry_keys(es: Seq<BindGroupEntry>) -> Seq<(u32, BindEntryType)> {
    es.map_values(|e: BindGroupEntry| (e.binding, e.entry_type))
}

/// The (binding, kind) pairs of all bind groups, group by group.
pub open spec fn all_binding_keys(gs: Seq<Seq<BindGroupEntry>>) -> Seq<(u32, BindEntryType)>
    decreases gs.len(),
{
    if gs.len() == 0 {
        Seq::empty()
    } else {
        all_binding_keys(gs.drop_last()) + entry_keys(gs.last())
    }
}

proof fn lemma_scan_entries_ok(es: Seq<BindGroupEntry>, seen: Seq<(u32, BindEntryType)>)
    requires
        scan_entries(es, seen) is Ok,
        seen.no_duplicates(),
    ensures
        scan_entries(es, seen) == Ok::<Seq<(u32, BindEntryType)>, Seq<char>>(seen + entry_keys(es)),
        (seen + entry_keys(es)).no_duplicates(),
    decreases es.len(),
{
    if es.len() > 0 {
        lemma_scan_entries_ok(es.drop_last(), seen);
        assert(entry_keys(es) =~= entry_keys(es.drop_last()).push((es.last().binding, es.last().entry_type)));
        assert(seen + entry_keys(es) =~= (seen + entry_keys(es.drop_last())).push(
            (es.last().binding, es.last().entry_type),
        ));
    } else {
        assert(seen + entry_keys(es) =~= seen);
    }
}

proof fn lemma_scan_groups_ok(gs: Seq<Seq<BindGroupEntry>>)
    requires
        scan_groups(gs) is Ok,
    ensures
        scan_groups(gs) == Ok::<Seq<(u32, BindEntryType)>, Seq<char>>(all_binding_keys(gs)),
        all_binding_keys(gs).no_duplicates(),
    decreases gs.len(),
{
    if gs.len() > 0 {
        lemma_scan_groups_ok(gs.drop_last());
        lemma_scan_entries_ok(gs.last(), all_binding_keys(gs.drop_last()));
    }
}

/// A description that passes validation names both entry points, has a vertex
/// layout, every layout passes its own check, no shader location is used twice
/// across all layouts, and no (binding, kind) pair is used twice across all
/// bind groups.
pub proof fn law_validated_pipeline_is_consistent(p: PipelineView)
    requires
        pipeline_check(p) is Ok,
    ensures
        p.vertex_shader.len() > 0,
        p.fragment_shader.len() > 0,
        p.vertex_layouts.len() > 0,
        all_locations(p.vertex_layouts).no_duplicates(),
        all_binding_keys(p.bind_groups).no_duplicates(),
        forall|k: int| 0 <= k < p.vertex_layouts.len() ==> #[trigger] layout_check(p.vertex_layouts[k]) is Ok,
{
    lemma_scan_layouts_ok(p.vertex_layouts);
    lemma_scan_groups_ok(p.bind_groups);
    assert forall|k: int| 0 <= k < p.vertex_layouts.len() implies #[trigger] layout_check(p.vertex_layouts[k]) is Ok by {
        lemma_scan_layouts_prefix_ok(p.vertex_layouts, k + 1);
        assert(p.vertex_layouts.take(k + 1).last() == p.vertex_layouts[k]);
    }
}

proof fn lemma_scan_layouts_prefix_ok(ls: Seq<LayoutView>, k: int)
    requires
        scan_layouts(ls) is Ok,
        0 <= k <= ls.len(),
    ensures
        scan_layouts(ls.take(k)) is Ok,
        k > 0 ==> layout_check(ls.take(k).last()) is Ok,
    decreases ls.len(),
{
    if k == ls.len() {
        assert(ls.take(k) =~= ls);
    } else {
        assert(ls.drop_last().take(k) =~= ls.take(k));
        lemma_scan_layouts_prefix_ok(ls.drop_last(), k);
    }
}

proof fn lemma_split_half_fits(l: LayoutView, max_stride: u32)
    requires
        split_half(l, max_stride) is Some,
    ensures
        ({
            let (a, b) = split_half(l, max_stride).unwrap();
            &&& a.stride <= max_stride
            &&& b.stride <= max_stride
            &&& a.attributes + b.attributes =~= l.attributes
            &&& a.step_mode == l.step_mode
            &&& b.step_mode == l.step_mode
        }),
{
}

/// Splitting a layout in half keeps its attributes, in order, and its step
/// mode, and gives two layouts whose strides fit the limit.
pub proof fn law_split_half_preserves_attributes(l: LayoutView, max_stride: u32)
    requires
        split_half(l, max_stride) is Some,
    ensures
        ({
            let (a, b) = split_half(l, max_stride).unwrap();
            &&& a.attributes + b.attributes == l.attributes
            &&& a.stride <= max_stride && b.stride <= max_stride
            &&& a.step_mode == l.step_mode && b.step_mode == l.step_mode
            &&& a.attributes.len() >= 1 && b.attributes.len() >= 1
        }),
{
    lemma_split_half_fits(l, max_stride);
}

proof fn lemma_split_plan_fits(ls: Seq<LayoutView>, max_stride: u32)
    requires
        split_plan(ls, max_stride) is Some,
    ensures
        max_layout_stride(split_plan(ls, max_stride).unwrap().0) <= max_stride,
    decreases ls.len(),
{
    if ls.len() > 0 {
        lemma_split_plan_fits(ls.drop_last(), max_stride);
        let acc = split_plan(ls.drop_last(), max_stride).unwrap().0;
        let l = ls.last();
        if l.stride > max_stride {
            assert(split_half(l, max_stride) is Some);
            lemma_split_half_fits(l, max_stride);
            let a = split_half(l, max_stride).unwrap().0;
            let b = split_half(l, max_stride).unwrap().1;
            assert(a.stride <= max_stride);
            assert(b.stride <= max_stride);
            assert(split_plan(ls, max_stride).unwrap().0 == acc.push(a).push(b));
            assert(acc.push(a).push(b).drop_last() =~= acc.push(a));
            assert(acc.push(a).drop_last() =~= acc);
            assert(max_layout_stride(acc.push(a)) <= max_stride);
        } else {
            assert(acc.push(l).drop_last() =~= acc);
        }
    }
}

/// A layout is wider than the stride limit.
pub open spec fn oversized(max_stride: u32) -> spec_fn(LayoutView) -> bool {
    |l: LayoutView| l.stride > max_stride
}

/// The split strategy splits every layout wider than the limit, and only
/// those, each into two: the split count is the number of oversized input
/// layouts, and the plan has one layout more than the input for each.
pub proof fn law_split_count_is_oversized_layouts(ls: Seq<LayoutView>, max_stride: u32)
    requires
        split_plan(ls, max_stride) is Some,
    ensures
        split_plan(ls, max_stride).unwrap().1 == ls.filter(oversized(max_stride)).len(),
        split_plan(ls, max_stride).unwrap().0.len() == ls.len() + ls.filter(oversized(max_stride)).len(),
    decreases ls.len(),
{
    reveal(Seq::filter);
    if ls.len() == 0 {
        assert(ls.filter(oversized(max_stride)) =~= Seq::<LayoutView>::empty());
    } else {
        let d = ls.drop_last();
        assert(split_plan(d, max_stride) is Some);
        law_split_count_is_oversized_layouts(d, max_stride);
        let f = oversized(max_stride);
        assert(ls.filter(f) == (if f(ls.last()) {
            d.filter(f).push(ls.last())
        } else {
            d.filter(f)
        }));
        assert(f(ls.last()) == (ls.last().stride > max_stride));
        let (acc, c) = split_plan(d, max_stride).unwrap();
        if ls.last().stride > max_stride {
            let (a, b) = split_half(ls.last(), max_stride).unwrap();
            assert(split_plan(ls, max_stride) == Some((acc.push(a).push(b), c + 1)));
        } else {
            assert(split_plan(ls, max_stride) == Some((acc.push(ls.last()), c)));
        }
    }
}

proof fn lemma_reduce_plan_fits(ls: Seq<LayoutView>, max_stride: u32)
    ensures
        max_layout_stride(reduce_plan(ls, max_stride)) <= max_stride,
    decreases ls.len(),
{
    if ls.len() > 0 {
        lemma_reduce_plan_fits(ls.drop_last(), max_stride);
        assert(reduce_plan(ls, max_stride).drop_last() =~= reduce_plan(ls.drop_last(), max_stride));
    }
}

/// Every fallback strategy (all but `Direct`) builds with layouts whose
/// strides fit the device limit.
pub proof fn law_fallback_fits_device(p: PipelineView, device_max: u32)
    requires
        p.fallback_strategy != FallbackStrategy::Direct,
        build_layouts(p, device_max) is Ok,
    ensures
        build_layouts(p, device_max) matches Ok((ls, _)) && max_layout_stride(ls) <= device_max,
{
    lemma_reduce_plan_fits(p.vertex_layouts, device_max);
    if split_plan(p.vertex_layouts, device_max) is Some {
        lemma_split_plan_fits(p.vertex_layouts, device_max);
    }
}

/// The reduce strategy keeps every layout's attributes and step mode and
/// changes only strides beyond the limit.
pub proof fn law_reduce_keeps_attributes(ls: Seq<LayoutView>, max_stride: u32)
    ensures
        reduce_plan(ls, max_stride).len() == ls.len(),
        forall|i: int|
            0 <= i < ls.len() ==> {
                let r = #[trigger] reduce_plan(ls, max_stride)[i];
                &&& r.attributes == ls[i].attributes
                &&& r.step_mode == ls[i].step_mode
                &&& (ls[i].stride <= max_stride ==> r.stride == ls[i].stride)
                &&& (ls[i].stride > max_stride ==> r.stride == max_stride)
            },
{
}

/// The rectangle batch's instance layout passes validation, and its
/// attribute locations are distinct.
pub proof fn law_rect_instance_layout_is_valid()
    ensures
        layout_check(rect_instance_layout()) is Ok,
        scan_locations(rect_instance_layout().attributes, Seq::empty()) is Ok,
{
    reveal_with_fuel(running_max_offset, 10);
    reveal_with_fuel(scan_locations, 10);
    let attrs = rect_instance_layout().attributes;
    assert(attrs.drop_last().drop_last().drop_last().drop_last().drop_last().drop_last().drop_last().drop_last().drop_last() =~= Seq::<VertexAttr>::empty());
}

} // verus!
