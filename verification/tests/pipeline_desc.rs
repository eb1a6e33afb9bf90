use moonwalk::error::MoonWalkError;
use moonwalk::moon_pipeline::{max_stride_of, MoonPipeline};
use moonwalk::pipeline_cache::{PipelineCache, PipelineCacheKey};
use moonwalk::pipeline::{
    BindEntryType, BindGroup, BlendMode, CullMode, FallbackStrategy, Format, RenderConfig, SamplerType,
    ShaderStage, StepMode, TextureType, Topology, VertexAttr, VertexLayout,
};

fn attr(format: Format, location: u32, offset: u32) -> VertexAttr {
    VertexAttr::new().format(format).location(location).offset(offset)
}

fn shader_message(r: Result<(), MoonWalkError>) -> String {
    match r {
        Err(MoonWalkError::ShaderError(m)) => m,
        other => panic!("expected a shader error, got {:?}", other),
    }
}

fn two_vec4_layout(stride: u32, first_location: u32) -> VertexLayout {
    VertexLayout::new()
        .stride(stride)
        .add_attr(attr(Format::Float32x4, first_location, 0))
        .add_attr(attr(Format::Float32x4, first_location + 1, 16))
}

#[test]
fn format_sizes() {
    assert_eq!(VertexLayout::format_size(Format::Float32), 4);
    assert_eq!(VertexLayout::format_size(Format::Float32x2), 8);
    assert_eq!(VertexLayout::format_size(Format::Float32x3), 12);
    assert_eq!(VertexLayout::format_size(Format::Float32x4), 16);
    assert_eq!(VertexLayout::format_size(Format::Uint32), 4);
    assert_eq!(VertexLayout::format_size(Format::Uint16x2), 4);
    assert_eq!(VertexLayout::format_size(Format::Uint16x4), 8);
    assert_eq!(VertexLayout::format_size(Format::Unorm16x4), 8);
    assert_eq!(VertexLayout::format_size(Format::Snorm16x4), 8);
    let p = MoonPipeline::new("");
    assert_eq!(p.format_size_bytes(Format::Float32x3), 12);
}

#[test]
fn attribute_and_layout_builders() {
    let a = VertexAttr::new();
    assert_eq!(a, VertexAttr { format: Format::Float32, location: 0, offset: 0 });
    assert_eq!(VertexAttr::default(), a);
    let l = VertexLayout::new().stride(24).step_mode(StepMode::Instance).add_attr(attr(Format::Float32x2, 3, 8));
    assert_eq!(l.stride, 24);
    assert_eq!(l.step_mode, StepMode::Instance);
    assert_eq!(l.attributes, vec![attr(Format::Float32x2, 3, 8)]);
    let d = VertexLayout::default();
    assert_eq!(d.stride, 0);
    assert_eq!(d.step_mode, StepMode::Vertex);
    assert!(d.attributes.is_empty());
}

#[test]
fn layout_without_stride_is_rejected() {
    let l = VertexLayout::new().add_attr(attr(Format::Float32, 0, 0));
    assert_eq!(l.validate(), Err(String::from("Layout has attributes but stride is 0")));
}

#[test]
fn layout_exceeding_stride_is_rejected() {
    let l = two_vec4_layout(16, 0);
    assert_eq!(l.validate(), Err(String::from("Attributes exceed stride: max_offset=32, stride=16")));
}

#[test]
fn layout_checks_pass() {
    assert_eq!(VertexLayout::new().validate(), Ok(()));
    assert_eq!(two_vec4_layout(32, 0).validate(), Ok(()));
    // The running end only moves for an attribute past it, so an attribute at
    // offset 0 never moves it.
    let l = VertexLayout::new().stride(4).add_attr(attr(Format::Float32x4, 0, 0));
    assert_eq!(l.validate(), Ok(()));
}

#[test]
fn bind_group_builders() {
    let g = BindGroup::new()
        .add_uniform(0, ShaderStage::Vertex)
        .add_texture(1, TextureType::Float)
        .add_sampler(2, SamplerType::Linear)
        .add_storage(3, true, ShaderStage::Fragment);
    assert_eq!(g.entries.len(), 4);
    assert_eq!(g.entries[0].entry_type, BindEntryType::Uniform);
    assert_eq!(g.entries[0].visibility, ShaderStage::Vertex);
    assert_eq!(g.entries[1].entry_type, BindEntryType::Texture);
    assert_eq!(g.entries[1].visibility, ShaderStage::Fragment);
    assert_eq!(g.entries[1].sample_type, Some(TextureType::Float));
    assert_eq!(g.entries[2].entry_type, BindEntryType::Sampler);
    assert_eq!(g.entries[2].sampler_type, Some(SamplerType::Linear));
    assert_eq!(g.entries[3].entry_type, BindEntryType::StorageRead);
    assert_eq!(g.entries[3].binding, 3);
    let w = BindGroup::new().add_storage(0, false, ShaderStage::Both);
    assert_eq!(w.entries[0].entry_type, BindEntryType::StorageWrite);
    assert!(BindGroup::default().entries.is_empty());
}

#[test]
fn pipeline_defaults_and_builders() {
    let p = MoonPipeline::new("source");
    assert_eq!(p.shader_source(), "source");
    assert_eq!(p.vertex_entry(), "vs_main");
    assert_eq!(p.fragment_entry(), "fs_main");
    assert!(p.vertex_layouts().is_empty());
    assert!(p.bind_groups().is_empty());
    assert_eq!(p.render_config(), RenderConfig::default());
    assert_eq!(p.strategy(), FallbackStrategy::Adaptive);
    assert_eq!(p.debug_label(), None);
    let c = RenderConfig::default();
    assert_eq!(c.target_format, Format::Float32x4);
    assert_eq!(c.blend_mode, BlendMode::Replace);
    assert_eq!(c.cull_mode, CullMode::Disabled);
    assert_eq!(c.topology, Topology::TriangleList);
    assert!(!c.depth_test);
    assert!(!c.depth_write);

    let q = MoonPipeline::new("s")
        .vertex_shader("v")
        .fragment_shader("f")
        .target_format(Format::Float32x2)
        .blend(BlendMode::Additive)
        .cull(CullMode::Back)
        .topology(Topology::LineList)
        .depth_test(true)
        .depth_write(true)
        .fallback_strategy(FallbackStrategy::Reduce)
        .label("quad")
        .add_vertex_layout(two_vec4_layout(32, 0))
        .add_bind_group(BindGroup::new().add_uniform(0, ShaderStage::Both));
    assert_eq!(q.vertex_entry(), "v");
    assert_eq!(q.fragment_entry(), "f");
    let rc = q.render_config();
    assert_eq!(rc.target_format, Format::Float32x2);
    assert_eq!(rc.blend_mode, BlendMode::Additive);
    assert_eq!(rc.cull_mode, CullMode::Back);
    assert_eq!(rc.topology, Topology::LineList);
    assert!(rc.depth_test);
    assert!(rc.depth_write);
    assert_eq!(q.strategy(), FallbackStrategy::Reduce);
    assert_eq!(q.debug_label(), Some("quad"));
    assert_eq!(q.vertex_layouts().len(), 1);
    assert_eq!(q.bind_groups().len(), 1);
}

#[test]
fn pipeline_without_vertex_entry() {
    let p = MoonPipeline::new("s").vertex_shader("").fragment_shader("").add_vertex_layout(two_vec4_layout(32, 0));
    assert_eq!(shader_message(p.validate()), "Vertex shader entry point not set");
}

#[test]
fn pipeline_without_fragment_entry() {
    let p = MoonPipeline::new("s").fragment_shader("");
    assert_eq!(shader_message(p.validate()), "Fragment shader entry point not set");
}

#[test]
fn pipeline_without_layouts() {
    let p = MoonPipeline::new("s");
    assert_eq!(shader_message(p.validate()), "No vertex layouts specified");
}

#[test]
fn pipeline_with_invalid_layout() {
    let p = MoonPipeline::new("s")
        .add_vertex_layout(two_vec4_layout(32, 0))
        .add_vertex_layout(two_vec4_layout(16, 5));
    assert_eq!(
        shader_message(p.validate()),
        "Invalid vertex layout: Attributes exceed stride: max_offset=32, stride=16"
    );
}

#[test]
fn pipeline_with_duplicate_location() {
    let p = MoonPipeline::new("s")
        .add_vertex_layout(two_vec4_layout(32, 0))
        .add_vertex_layout(two_vec4_layout(32, 1));
    assert_eq!(shader_message(p.validate()), "Duplicate shader location: 1");
}

#[test]
fn pipeline_with_duplicate_binding() {
    let p = MoonPipeline::new("s")
        .add_vertex_layout(two_vec4_layout(32, 0))
        .add_bind_group(BindGroup::new().add_uniform(7, ShaderStage::Vertex))
        .add_bind_group(BindGroup::new().add_uniform(7, ShaderStage::Fragment));
    assert_eq!(shader_message(p.validate()), "Duplicate binding: 7");
}

#[test]
fn pipeline_same_binding_other_kind_is_fine() {
    let p = MoonPipeline::new("s")
        .add_vertex_layout(two_vec4_layout(32, 0))
        .add_bind_group(BindGroup::new().add_uniform(0, ShaderStage::Vertex).add_texture(0, TextureType::Float));
    assert!(p.validate().is_ok());
}

#[test]
fn rect_instance_layout_is_valid() {
    let l = MoonPipeline::create_rect_instance_layout();
    assert_eq!(l.stride, 64);
    assert_eq!(l.step_mode, StepMode::Instance);
    assert_eq!(l.attributes.len(), 9);
    let locations: Vec<u32> = l.attributes.iter().map(|a| a.location).collect();
    assert_eq!(locations, vec![1, 2, 3, 4, 5, 6, 7, 8, 9]);
    assert_eq!(l.attributes[8], attr(Format::Uint16x2, 9, 60));
    assert_eq!(l.validate(), Ok(()));
    let p = MoonPipeline::new("s").add_vertex_layout(l);
    assert!(p.validate().is_ok());
}

#[test]
fn stride_helpers() {
    let p = MoonPipeline::new("s")
        .add_vertex_layout(two_vec4_layout(32, 0))
        .add_vertex_layout(two_vec4_layout(48, 2))
        .add_vertex_layout(two_vec4_layout(40, 4));
    assert_eq!(p.get_max_stride(), 48);
    assert_eq!(MoonPipeline::new("s").get_max_stride(), 0);
    assert_eq!(p.calculate_stride_for_attrs(&[]), 0);
    assert_eq!(
        p.calculate_stride_for_attrs(&[attr(Format::Float32x4, 0, 0), attr(Format::Float32x2, 1, 40)]),
        48
    );
    assert_eq!(max_stride_of(p.vertex_layouts()), 48);
}

#[test]
fn split_half_of_layout() {
    let p = MoonPipeline::new("s");
    let l = VertexLayout::new()
        .stride(48)
        .step_mode(StepMode::Instance)
        .add_attr(attr(Format::Float32x4, 0, 0))
        .add_attr(attr(Format::Float32x4, 1, 16))
        .add_attr(attr(Format::Float32x4, 2, 32));
    let (a, b) = p.split_layout_half(&l, 48).unwrap();
    assert_eq!(a.stride, 16);
    assert_eq!(a.attributes, vec![attr(Format::Float32x4, 0, 0)]);
    assert_eq!(a.step_mode, StepMode::Instance);
    assert_eq!(b.stride, 48);
    assert_eq!(b.attributes, vec![attr(Format::Float32x4, 1, 16), attr(Format::Float32x4, 2, 32)]);
    assert_eq!(b.step_mode, StepMode::Instance);
    assert!(p.split_layout_half(&l, 40).is_none());
    let single = VertexLayout::new().stride(16).add_attr(attr(Format::Float32x4, 0, 0));
    assert!(p.split_layout_half(&single, 100).is_none());
}

#[test]
fn split_and_reduce_layouts() {
    let p = MoonPipeline::new("s")
        .add_vertex_layout(two_vec4_layout(32, 0))
        .add_vertex_layout(two_vec4_layout(48, 2));
    let (ls, count) = p.split_layouts(32).unwrap();
    assert_eq!(count, 1);
    let strides: Vec<u32> = ls.iter().map(|l| l.stride).collect();
    assert_eq!(strides, vec![32, 16, 32]);
    assert!(p.split_layouts(24).is_none());
    let reduced = p.reduced_layouts(40);
    let strides: Vec<u32> = reduced.iter().map(|l| l.stride).collect();
    assert_eq!(strides, vec![32, 40]);
    assert_eq!(reduced[1].attributes.len(), 2);
}

#[test]
fn plan_direct_keeps_layouts() {
    let p = MoonPipeline::new("s")
        .fallback_strategy(FallbackStrategy::Direct)
        .add_vertex_layout(two_vec4_layout(48, 0));
    let plan = p.plan_build(16).unwrap();
    assert_eq!(plan.layouts.len(), 1);
    assert_eq!(plan.layouts[0].stride, 48);
    assert_eq!(plan.split_count, 1);
    assert_eq!(plan.used_stride, 48);
}

#[test]
fn plan_adaptive_within_limit() {
    let p = MoonPipeline::new("s").add_vertex_layout(two_vec4_layout(48, 0));
    let plan = p.plan_build(2048).unwrap();
    assert_eq!(plan.layouts[0].stride, 48);
    assert_eq!(plan.split_count, 1);
    assert_eq!(plan.used_stride, 48);
}

#[test]
fn plan_adaptive_splits_then_reduces() {
    let p = MoonPipeline::new("s").add_vertex_layout(two_vec4_layout(48, 0));
    let plan = p.plan_build(32).unwrap();
    assert_eq!(plan.layouts.len(), 2);
    assert_eq!(plan.split_count, 1);
    assert_eq!(plan.used_stride, 32);

    let rect = MoonPipeline::new("s").add_vertex_layout(MoonPipeline::create_rect_instance_layout());
    let plan = rect.plan_build(32).unwrap();
    assert_eq!(plan.layouts.len(), 1);
    assert_eq!(plan.layouts[0].stride, 32);
    assert_eq!(plan.layouts[0].attributes.len(), 9);
    assert_eq!(plan.split_count, 1);
    assert_eq!(plan.used_stride, 32);
}

#[test]
fn plan_split_failure_is_an_error() {
    let p = MoonPipeline::new("s")
        .fallback_strategy(FallbackStrategy::Split)
        .add_vertex_layout(MoonPipeline::create_rect_instance_layout());
    match p.plan_build(32) {
        Err(MoonWalkError::ShaderError(m)) => assert_eq!(m, "Split strategy failed"),
        other => panic!("expected a shader error, got {:?}", other.map(|b| b.used_stride)),
    }
}

#[test]
fn plan_split_and_reduce() {
    let p = MoonPipeline::new("s")
        .fallback_strategy(FallbackStrategy::Split)
        .add_vertex_layout(two_vec4_layout(48, 0));
    let plan = p.plan_build(32).unwrap();
    assert_eq!(plan.split_count, 1);
    let strides: Vec<u32> = plan.layouts.iter().map(|l| l.stride).collect();
    assert_eq!(strides, vec![16, 32]);

    let r = MoonPipeline::new("s")
        .fallback_strategy(FallbackStrategy::Reduce)
        .add_vertex_layout(two_vec4_layout(48, 0))
        .add_vertex_layout(two_vec4_layout(16, 2));
    let plan = r.plan_build(20).unwrap();
    let strides: Vec<u32> = plan.layouts.iter().map(|l| l.stride).collect();
    assert_eq!(strides, vec![20, 16]);
    assert_eq!(plan.split_count, 1);
    assert_eq!(plan.used_stride, 20);
}

fn key(shader: u64, device: u64) -> PipelineCacheKey {
    PipelineCacheKey { shader_hash: shader, vertex_layouts_hash: 1, bind_groups_hash: 2, format_hash: 3, device_id: device }
}

#[test]
fn pipeline_cache_reads_back_writes() {
    let mut cache: PipelineCache<String> = PipelineCache::new();
    assert_eq!(cache.len(), 0);
    assert_eq!(cache.get(&key(1, 7)), None);
    cache.insert(key(1, 7), String::from("a"));
    cache.insert(key(2, 7), String::from("b"));
    cache.insert(key(1, 8), String::from("c"));
    assert_eq!(cache.len(), 3);
    assert_eq!(cache.get(&key(1, 7)).map(|s| s.as_str()), Some("a"));
    assert_eq!(cache.get(&key(1, 8)).map(|s| s.as_str()), Some("c"));
    cache.insert(key(1, 7), String::from("a2"));
    assert_eq!(cache.len(), 3);
    assert_eq!(cache.get(&key(1, 7)).map(|s| s.as_str()), Some("a2"));
}

#[test]
fn pipeline_cache_clears_per_device() {
    let mut cache: PipelineCache<u32> = PipelineCache::new();
    cache.insert(key(1, 7), 10);
    cache.insert(key(2, 8), 20);
    cache.insert(key(3, 7), 30);
    cache.insert(key(4, 9), 40);
    MoonPipeline::clear_pipeline_cache_for_device(&mut cache, 7);
    assert_eq!(cache.len(), 2);
    assert_eq!(cache.get(&key(1, 7)), None);
    assert_eq!(cache.get(&key(3, 7)), None);
    assert_eq!(cache.get(&key(2, 8)), Some(&20));
    assert_eq!(cache.get(&key(4, 9)), Some(&40));
    MoonPipeline::clear_pipeline_cache(&mut cache);
    assert_eq!(cache.len(), 0);
    assert_eq!(cache.get(&key(2, 8)), None);
}
