use moonwalk::moon_pipeline::MoonPipeline;
use moonwalk::pipeline::{BindEntryType, Format, SamplerType, ShaderStage, StepMode, TextureType};
use moonwalk::scene::{
    grow_instance_capacity, instance_layout, rgb_to_rgba, scene_bind_groups, shadow_resize_plan, texture_pixels_rgba,
    valid_triangles, vertex_layout, ImageFormat, InstanceId, LightId, MeshId, SceneObjects, ShadowQuality,
    INSTANCE_RAW_SIZE, MAX_LIGHTS, VERTEX3D_SIZE,
};

#[test]
fn shadow_map_sizes() {
    assert_eq!(ShadowQuality::Off.map_size(), 1);
    assert_eq!(ShadowQuality::Low.map_size(), 512);
    assert_eq!(ShadowQuality::Medium.map_size(), 1024);
    assert_eq!(ShadowQuality::High.map_size(), 2048);
    assert_eq!(ShadowQuality::Ultra.map_size(), 4096);
}

#[test]
fn shadow_quality_changes() {
    assert_eq!(shadow_resize_plan(ShadowQuality::Medium, ShadowQuality::Medium), None);
    assert_eq!(shadow_resize_plan(ShadowQuality::Medium, ShadowQuality::Off), None);
    assert_eq!(shadow_resize_plan(ShadowQuality::Medium, ShadowQuality::Ultra), Some(4096));
    assert_eq!(shadow_resize_plan(ShadowQuality::Off, ShadowQuality::Low), Some(512));
}

#[test]
fn scene_layouts() {
    let v = vertex_layout();
    assert_eq!(v.stride, VERTEX3D_SIZE);
    assert_eq!(v.stride, 44);
    assert_eq!(v.step_mode, StepMode::Vertex);
    assert_eq!(v.attributes.len(), 4);
    assert_eq!(v.attributes[3].format, Format::Float32x3);
    assert_eq!(v.attributes[3].offset, 32);
    assert_eq!(v.validate(), Ok(()));
    let i = instance_layout();
    assert_eq!(i.stride, INSTANCE_RAW_SIZE);
    assert_eq!(i.stride, 140);
    assert_eq!(i.step_mode, StepMode::Instance);
    assert_eq!(i.attributes.len(), 10);
    assert_eq!(i.attributes[9].location, 13);
    assert_eq!(i.attributes[9].offset, 132);
    assert_eq!(i.validate(), Ok(()));
    let p = MoonPipeline::new("s").add_vertex_layout(v).add_vertex_layout(i);
    assert!(p.validate().is_ok());
}

#[test]
fn scene_bind_group_descriptions() {
    let (global, shadow, material) = scene_bind_groups();
    assert_eq!(global.entries.len(), 3);
    assert_eq!(global.entries[0].entry_type, BindEntryType::Uniform);
    assert_eq!(global.entries[0].visibility, ShaderStage::Both);
    assert_eq!(global.entries[1].sample_type, Some(TextureType::Depth));
    assert_eq!(global.entries[2].sampler_type, Some(SamplerType::Comparison));
    assert_eq!(shadow.entries.len(), 1);
    assert_eq!(shadow.entries[0].visibility, ShaderStage::Vertex);
    assert_eq!(material.entries.len(), 5);
    assert_eq!(material.entries[1].sampler_type, Some(SamplerType::Linear));
    assert_eq!(material.entries[4].entry_type, BindEntryType::Uniform);
    assert_eq!(material.entries[4].binding, 4);
}

#[test]
fn instances_are_recycled() {
    let mut s = SceneObjects::new();
    let a = s.new_instance(MeshId(3));
    let b = s.new_instance(MeshId(4));
    assert_eq!(a, InstanceId(0));
    assert_eq!(b, InstanceId(1));
    assert_eq!(s.inst_mesh_ids, vec![3, 4]);
    s.set_texture(a, 9);
    s.set_normal_map(a, 10);
    s.set_mr_map(a, 11);
    s.set_unlit(a, true);
    s.set_parent(a, b);
    assert_eq!(s.inst_mat_albedo_id[0], Some(9));
    assert_eq!(s.inst_mat_normal_id[0], Some(10));
    assert_eq!(s.inst_mat_mr_id[0], Some(11));
    assert!(s.inst_unlit[0]);
    assert_eq!(s.inst_parents[0], Some(1));
    s.remove_instance(a);
    assert!(!s.inst_alive[0]);
    assert_eq!(s.inst_free_slots, vec![0]);
    s.remove_instance(a);
    assert_eq!(s.inst_free_slots, vec![0]);
    let c = s.new_instance(MeshId(5));
    assert_eq!(c, a);
    assert!(s.inst_alive[0]);
    assert_eq!(s.inst_mesh_ids[0], 5);
    assert_eq!(s.inst_mat_albedo_id[0], None);
    assert_eq!(s.inst_mat_normal_id[0], None);
    assert_eq!(s.inst_mat_mr_id[0], None);
    assert!(!s.inst_unlit[0]);
    assert_eq!(s.inst_parents[0], None);
    assert!(s.inst_free_slots.is_empty());
}

#[test]
fn parenting_rules() {
    let mut s = SceneObjects::new();
    let a = s.new_instance(MeshId(0));
    let b = s.new_instance(MeshId(0));
    s.set_parent(a, a);
    assert_eq!(s.inst_parents[0], None);
    s.set_parent(InstanceId(7), a);
    assert_eq!(s.inst_parents.len(), 2);
    s.set_parent(b, a);
    assert_eq!(s.inst_parents[1], Some(0));
    s.clear_parent(b);
    assert_eq!(s.inst_parents[1], None);
    s.clear_parent(InstanceId(9));
    s.set_texture(InstanceId(9), 1);
    s.set_unlit(InstanceId(9), true);
    assert_eq!(s.inst_mat_albedo_id, vec![None, None]);
    assert_eq!(s.inst_unlit, vec![false, false]);
}

#[test]
fn lights_are_bounded_and_recycled() {
    let mut s = SceneObjects::new();
    let mut ids = Vec::new();
    for _ in 0..MAX_LIGHTS {
        ids.push(s.new_light());
    }
    assert_eq!(ids, vec![LightId(0), LightId(1), LightId(2), LightId(3)]);
    let extra = s.new_light();
    assert_eq!(extra, LightId(0));
    assert_eq!(s.lights_active.len(), MAX_LIGHTS);
    s.remove_light(LightId(2));
    assert!(!s.lights_active[2]);
    assert_eq!(s.lights_free_slots, vec![2]);
    let again = s.new_light();
    assert_eq!(again, LightId(2));
    assert!(s.lights_active[2]);
    assert!(s.lights_free_slots.is_empty());
    s.remove_light(LightId(10));
    assert!(s.lights_free_slots.is_empty());
}

#[test]
fn shader_gets_first_active_lights() {
    let mut s = SceneObjects::new();
    for _ in 0..4 {
        s.new_light();
    }
    assert_eq!(s.active_light_slots(), vec![0, 1, 2, 3]);
    s.remove_light(LightId(1));
    assert_eq!(s.active_light_slots(), vec![0, 2, 3]);
    let mut many = SceneObjects::new();
    many.lights_active = vec![true, false, true, true, true, true];
    assert_eq!(many.active_light_slots(), vec![0, 2, 3, 4]);
}

#[test]
fn instance_capacity_grows() {
    assert_eq!(grow_instance_capacity(10, 1024), 1024);
    assert_eq!(grow_instance_capacity(1025, 1024), 2050);
    assert_eq!(grow_instance_capacity(100, 0), 1024);
    assert_eq!(grow_instance_capacity(0, 0), 0);
}

#[test]
fn triangles_referring_past_vertices_are_skipped() {
    let idx = vec![0, 1, 2, 2, 3, 4, 1, 5, 0];
    assert_eq!(valid_triangles(&idx, 5), vec![(0, 1, 2), (2, 3, 4)]);
    assert_eq!(valid_triangles(&idx, 6), vec![(0, 1, 2), (2, 3, 4), (1, 5, 0)]);
    assert!(valid_triangles(&vec![], 3).is_empty());
}

#[test]
fn imported_texture_pixels() {
    assert_eq!(rgb_to_rgba(&vec![1, 2, 3, 4, 5, 6]), vec![1, 2, 3, 255, 4, 5, 6, 255]);
    assert_eq!(rgb_to_rgba(&vec![1, 2, 3, 4]), vec![1, 2, 3, 255, 4, 255]);
    assert!(rgb_to_rgba(&vec![]).is_empty());
    assert_eq!(texture_pixels_rgba(ImageFormat::Rgb8, 1, 1, &vec![9, 8, 7]), vec![9, 8, 7, 255]);
    assert_eq!(texture_pixels_rgba(ImageFormat::Rgba8, 1, 1, &vec![9, 8, 7, 6]), vec![9, 8, 7, 6]);
    assert_eq!(texture_pixels_rgba(ImageFormat::Other, 2, 1, &vec![0]), vec![255; 8]);
}
