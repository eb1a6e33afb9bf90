//! Descriptions of render pipelines: vertex formats and layouts, bind groups,
//! render configuration, their validation, and the planning of the fallback
//! layouts used when a device limits the vertex stride.

use vstd::prelude::*;
use vstd::slice::slice_to_vec;
use crate::error::MoonWalkError;
use crate::strings::{decimal, decimal_string, prefixed_decimal};

verus! {

/// Data format of a vertex attribute.
#[derive(Debug, Clone, Copy, PartialEq, Eq, Hash, Structural)]
pub enum Format {
    Float32,
    Float32x2,
    Float32x3,
    Float32x4,
    Uint32,
    Uint16x2,
    Uint16x4,
    Unorm16x4,
    Snorm16x4,
}

/// Whether a vertex buffer advances per vertex or per instance.
#[derive(Debug, Clone, Copy, PartialEq, Eq, Hash, Structural)]
pub enum StepMode {
    Vertex,
    Instance,
}

/// Shader stages in which a resource is visible.
#[derive(Debug, Clone, Copy, PartialEq, Eq, Hash, Structural)]
pub enum ShaderStage {
    Vertex,
    Fragment,
    Both,
}

/// Kind of a bind group resource.
#[derive(Debug, Clone, Copy, PartialEq, Eq, Hash, Structural)]
pub enum BindEntryType {
    Uniform,
    Texture,
    Sampler,
    StorageRead,
    StorageWrite,
}

/// Sample type of a texture resource.
#[derive(Debug, Clone, Copy, PartialEq, Eq, Hash, Structural)]
pub enum TextureType {
    Float,
    Depth,
    Uint,
}

/// Filtering of a sampler resource.
#[derive(Debug, Clone, Copy, PartialEq, Eq, Hash, Structural)]
pub enum SamplerType {
    Linear,
    Nearest,
    Comparison,
}

/// Colour blending of a pipeline.
#[derive(Debug, Clone, Copy, PartialEq, Eq, Hash, Structural)]
pub enum BlendMode {
    /// Replace the target colour (no blending).
    Replace,
    Alpha,
    Additive,
    Multiply,
}

/// Face culling of a pipeline.
#[derive(Debug, Clone, Copy, PartialEq, Eq, Hash, Structural)]
pub enum CullMode {
    /// No culling.
    Disabled,
    Front,
    Back,
}

/// Primitive topology of a pipeline.
#[derive(Debug, Clone, Copy, PartialEq, Eq, Hash, Structural)]
pub enum Topology {
    PointList,
    LineList,
    LineStrip,
    TriangleList,
    TriangleStrip,
}

/// What to do when a layout's stride exceeds the device's limit.
#[derive(Debug, Clone, Copy, PartialEq, Eq, Hash, Structural)]
pub enum FallbackStrategy {
    /// Split oversized layouts in two.
    Split,
    /// Clamp strides to the limit.
    Reduce,
    /// Build directly when the strides fit; else split, else reduce.
    Adaptive,
    /// Build directly, with no fallback.
    Direct,
}

/// Size in bytes of one value of a vertex format.
pub open spec fn format_bytes(f: Format) -> u32 {
    match f {
        Format::Float32 => 4,
        Format::Float32x2 => 8,
        Format::Float32x3 => 12,
        Format::Float32x4 => 16,
        Format::Uint32 => 4,
        Format::Uint16x2 => 4,
        Format::Uint16x4 => 8,
        Format::Unorm16x4 => 8,
        Format::Snorm16x4 => 8,
    }
}

fn format_bytes_exec(f: Format) -> (r: u32)
    ensures
        r == format_bytes(f),
{
    match f {
        Format::Float32 => 4,
        Format::Float32x2 => 8,
        Format::Float32x3 => 12,
        Format::Float32x4 => 16,
        Format::Uint32 => 4,
        Format::Uint16x2 => 4,
        Format::Uint16x4 => 8,
        Format::Unorm16x4 => 8,
        Format::Snorm16x4 => 8,
    }
}

/// One vertex attribute: its format, shader location and byte offset.
#[derive(Debug, Clone, Copy, PartialEq, Eq, Hash, Structural)]
pub struct VertexAttr {
    pub format: Format,
    pub location: u32,
    pub offset: u32,
}

/// The byte just past an attribute.
pub open spec fn attr_end(a: VertexAttr) -> int {
    a.offset + format_bytes(a.format)
}

impl VertexAttr {
    /// A `Float32` attribute at location 0, offset 0.
    pub fn new() -> (r: VertexAttr)
        ensures
            r == (VertexAttr { format: Format::Float32, location: 0, offset: 0 }),
    {
        VertexAttr { format: Format::Float32, location: 0, offset: 0 }
    }

    pub fn format(self, format: Format) -> (r: VertexAttr)
        ensures
            r == (VertexAttr { format, ..self }),
    {
        let mut s = self;
        s.format = format;
        s
    }

    pub fn location(self, location: u32) -> (r: VertexAttr)
        ensures
            r == (VertexAttr { location, ..self }),
    {
        let mut s = self;
        s.location = location;
        s
    }

    pub fn offset(self, offset: u32) -> (r: VertexAttr)
        ensures
            r == (VertexAttr { offset, ..self }),
    {
        let mut s = self;
        s.offset = offset;
        s
    }
}

impl Default for VertexAttr {
    fn default() -> (r: VertexAttr)
        ensures
            r == (VertexAttr { format: Format::Float32, location: 0, offset: 0 }),
    {
        VertexAttr::new()
    }
}

/// A vertex buffer layout: stride, step mode and attributes.
#[derive(Debug, Clone)]
pub struct VertexLayout {
    pub stride: u32,
    pub step_mode: StepMode,
    pub attributes: Vec<VertexAttr>,
}

/// A vertex layout with its attributes taken as a sequence.
pub struct LayoutView {
    pub stride: u32,
    pub step_mode: StepMode,
    pub attributes: Seq<VertexAttr>,
}

impl View for VertexLayout {
    type V = LayoutView;

    open spec fn view(&self) -> LayoutView {
        LayoutView { stride: self.stride, step_mode: self.step_mode, attributes: self.attributes@ }
    }
}

/// The running value that layout validation computes: scanning the attributes
/// in order, it moves to an attribute's end whenever the attribute's offset
/// lies beyond the current value.
pub open spec fn running_max_offset(attrs: Seq<VertexAttr>) -> int
    decreases attrs.len(),
{
    if attrs.len() == 0 {
        0
    } else {
        let m = running_max_offset(attrs.drop_last());
        let a = attrs.last();
        if a.offset > m {
            attr_end(a)
        } else {
            m
        }
    }
}

/// Every value the running scan takes fits in a `u32`.
pub open spec fn running_max_fits(attrs: Seq<VertexAttr>) -> bool
    decreases attrs.len(),
{
    if attrs.len() == 0 {
        true
    } else {
        &&& running_max_fits(attrs.drop_last())
        &&& attrs.last().offset > running_max_offset(attrs.drop_last()) ==> attr_end(attrs.last()) <= u32::MAX
    }
}

/// Validation of the layout runs without arithmetic overflow.
pub open spec fn layout_validatable(l: LayoutView) -> bool {
    (l.stride == 0 && l.attributes.len() > 0) || running_max_fits(l.attributes)
}

/// The message for attributes that run past the stride.
pub open spec fn exceed_stride_message(max_offset: nat, stride: nat) -> Seq<char> {
    "Attributes exceed stride: max_offset="@ + decimal(max_offset) + ", stride="@ + decimal(stride)
}

/// The outcome of validating a layout.
pub open spec fn layout_check(l: LayoutView) -> Result<(), Seq<char>> {
    if l.stride == 0 && l.attributes.len() > 0 {
        Err("Layout has attributes but stride is 0"@)
    } else if running_max_offset(l.attributes) > l.stride {
        Err(exceed_stride_message(running_max_offset(l.attributes) as nat, l.stride as nat))
    } else {
        Ok(())
    }
}

proof fn lemma_running_max_range(attrs: Seq<VertexAttr>)
    requires
        running_max_fits(attrs),
    ensures
        0 <= running_max_offset(attrs) <= u32::MAX,
    decreases attrs.len(),
{
    if attrs.len() > 0 {
        lemma_running_max_range(attrs.drop_last());
    }
}

proof fn lemma_running_max_fits_prefix(attrs: Seq<VertexAttr>, k: int)
    requires
        running_max_fits(attrs),
        0 <= k <= attrs.len(),
    ensures
        running_max_fits(attrs.take(k)),
    decreases attrs.len(),
{
    if k == attrs.len() {
        assert(attrs.take(k) =~= attrs);
    } else {
        assert(attrs.drop_last().take(k) =~= attrs.take(k));
        lemma_running_max_fits_prefix(attrs.drop_last(), k);
    }
}

impl VertexLayout {
    /// An empty per-vertex layout with stride 0.
    pub fn new() -> (r: VertexLayout)
        ensures
            r@ == (LayoutView { stride: 0, step_mode: StepMode::Vertex, attributes: Seq::empty() }),
    {
        VertexLayout { stride: 0, step_mode: StepMode::Vertex, attributes: Vec::new() }
    }

    pub fn stride(self, stride: u32) -> (r: VertexLayout)
        ensures
            r@ == (LayoutView { stride, ..self@ }),
    {
        let mut s = self;
        s.stride = stride;
        s
    }

    pub fn step_mode(self, mode: StepMode) -> (r: VertexLayout)
        ensures
            r@ == (LayoutView { step_mode: mode, ..self@ }),
    {
        let mut s = self;
        s.step_mode = mode;
        s
    }

    /// Appends an attribute.
    pub fn add_attr(self, attr: VertexAttr) -> (r: VertexLayout)
        ensures
            r@ == (LayoutView { attributes: self@.attributes.push(attr), ..self@ }),
    {
        let mut s = self;
        s.attributes.push(attr);
        s
    }

    /// Size in bytes of one value of a format.
    pub fn format_size(format: Format) -> (r: u32)
        ensures
            r == format_bytes(format),
    {
        format_bytes_exec(format)
    }

    /// Checks that a layout with attributes has a stride and that the running
    /// end offset of its attributes stays within the stride.
    pub fn validate(&self) -> (r: Result<(), String>)
        requires
            layout_validatable(self@),
        ensures
            r is Ok <==> layout_check(self@) is Ok,
            r matches Err(e) ==> layout_check(self@) == Err::<(), Seq<char>>(e@),
    {
        if self.stride == 0 && self.attributes.len() > 0 {
            return Err(String::from_str("Layout has attributes but stride is 0"));
        }
        let ghost attrs = self.attributes@;
        let n = self.attributes.len();
        let mut max_offset: u32 = 0;
        let mut i: usize = 0;
        while i < n
            invariant
                n == attrs.len(),
                attrs == self.attributes@,
                i <= n,
                running_max_fits(attrs),
                max_offset == running_max_offset(attrs.take(i as int)),
            decreases n - i,
        {
            let a = self.attributes[i];
            proof {
                lemma_running_max_fits_prefix(attrs, i + 1);
                assert(attrs.take(i + 1).drop_last() =~= attrs.take(i as int));
                assert(attrs.take(i + 1).last() == a);
            }
            if a.offset > max_offset {
                max_offset = a.offset + VertexLayout::format_size(a.format);
            }
            i = i + 1;
        }
        assert(attrs.take(n as int) =~= attrs);
        if max_offset > self.stride {
            let mut msg = prefixed_decimal("Attributes exceed stride: max_offset=", max_offset);
            msg.append(", stride=");
            let d = decimal_string(self.stride);
            msg.append(d.as_str());
            return Err(msg);
        }
        Ok(())
    }
}

impl Default for VertexLayout {
    fn default() -> (r: VertexLayout)
        ensures
            r@ == (LayoutView { stride: 0, step_mode: StepMode::Vertex, attributes: Seq::empty() }),
    {
        VertexLayout::new()
    }
}

/// One resource of a bind group.
#[derive(Debug, Clone, Copy, PartialEq, Eq, Hash, Structural)]
pub struct BindGroupEntry {
    pub binding: u32,
    pub entry_type: BindEntryType,
    pub visibility: ShaderStage,
    /// Sample type, for textures only.
    pub sample_type: Option<TextureType>,
    /// Filtering, for samplers only.
    pub sampler_type: Option<SamplerType>,
}

/// A bind group description: its entries in order.
#[derive(Debug, Clone)]
pub struct BindGroup {
    pub entries: Vec<BindGroupEntry>,
}

impl View for BindGroup {
    type V = Seq<BindGroupEntry>;

    open spec fn view(&self) -> Seq<BindGroupEntry> {
        self.entries@
    }
}

impl BindGroup {
    pub fn new() -> (r: BindGroup)
        ensures
            r@ == Seq::<BindGroupEntry>::empty(),
    {
        BindGroup { entries: Vec::new() }
    }

    /// Appends a uniform buffer visible in the given stages.
    pub fn add_uniform(self, binding: u32, visibility: ShaderStage) -> (r: BindGroup)
        ensures
            r@ == self@.push(
                BindGroupEntry {
                    binding,
                    entry_type: BindEntryType::Uniform,
                    visibility,
                    sample_type: None,
                    sampler_type: None,
                },
            ),
    {
        let mut s = self;
        s.entries.push(
            BindGroupEntry {
                binding,
                entry_type: BindEntryType::Uniform,
                visibility,
                sample_type: None,
                sampler_type: None,
            },
        );
        s
    }

    /// Appends a texture visible in the fragment stage.
    pub fn add_texture(self, binding: u32, sample_type: TextureType) -> (r: BindGroup)
        ensures
            r@ == self@.push(
                BindGroupEntry {
                    binding,
                    entry_type: BindEntryType::Texture,
                    visibility: ShaderStage::Fragment,
                    sample_type: Some(sample_type),
                    sampler_type: None,
                },
            ),
    {
        let mut s = self;
        s.entries.push(
            BindGroupEntry {
                binding,
                entry_type: BindEntryType::Texture,
                visibility: ShaderStage::Fragment,
                sample_type: Some(sample_type),
                sampler_type: None,
            },
        );
        s
    }

    /// Appends a sampler visible in the fragment stage.
    pub fn add_sampler(self, binding: u32, sampler_type: SamplerType) -> (r: BindGroup)
        ensures
            r@ == self@.push(
                BindGroupEntry {
                    binding,
                    entry_type: BindEntryType::Sampler,
                    visibility: ShaderStage::Fragment,
                    sample_type: None,
                    sampler_type: Some(sampler_type),
                },
            ),
    {
        let mut s = self;
        s.entries.push(
            BindGroupEntry {
                binding,
                entry_type: BindEntryType::Sampler,
                visibility: ShaderStage::Fragment,
                sample_type: None,
                sampler_type: Some(sampler_type),
            },
        );
        s
    }

    /// Appends a storage buffer, read-only or writable.
    pub fn add_storage(self, binding: u32, read_only: bool, visibility: ShaderStage) -> (r: BindGroup)
        ensures
            r@ == self@.push(
                BindGroupEntry {
                    binding,
                    entry_type: if read_only {
                        BindEntryType::StorageRead
                    } else {
                        BindEntryType::StorageWrite
                    },
                    visibility,
                    sample_type: None,
                    sampler_type: None,
                },
            ),
    {
        let mut s = self;
        let entry_type = if read_only {
            BindEntryType::StorageRead
        } else {
            BindEntryType::StorageWrite
        };
        s.entries.push(
            BindGroupEntry { binding, entry_type, visibility, sample_type: None, sampler_type: None },
        );
        s
    }
}

impl Default for BindGroup {
    fn default() -> (r: BindGroup)
        ensures
            r@ == Seq::<BindGroupEntry>::empty(),
    {
        BindGroup::new()
    }
}

/// Fixed-function state of a pipeline.
#[derive(Debug, Clone, Copy, PartialEq, Eq, Structural)]
pub struct RenderConfig {
    pub target_format: Format,
    pub blend_mode: BlendMode,
    pub cull_mode: CullMode,
    pub topology: Topology,
    pub depth_test: bool,
    pub depth_write: bool,
}

/// The default render configuration: no blending, no culling, triangle lists,
/// no depth test or write.
pub open spec fn default_render_config() -> RenderConfig {
    RenderConfig {
        target_format: Format::Float32x4,
        blend_mode: BlendMode::Replace,
        cull_mode: CullMode::Disabled,
        topology: Topology::TriangleList,
        depth_test: false,
        depth_write: false,
    }
}

impl Default for RenderConfig {
    fn default() -> (r: RenderConfig)
        ensures
            r == default_render_config(),
    {
        RenderConfig {
            target_format: Format::Float32x4,
            blend_mode: BlendMode::Replace,
            cull_mode: CullMode::Disabled,
            topology: Topology::TriangleList,
            depth_test: false,
            depth_write: false,
        }
    }
}

} // verus!
