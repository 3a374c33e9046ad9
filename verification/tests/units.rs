//! Unit tests for the scene types, materials, lights and the hybrid
//! scheme's scratch resources.

use voxel_gi::color::{Nrm, Rgb8};
use voxel_gi::gpu_model::{GpuMaterial, GpuPrimitive};
use voxel_gi::material::{Material, MaterialBuilder, Texture};
use voxel_gi::math::Vec3i;
use voxel_gi::model::{GeometryError, Mesh, Primitive, Resources, Scene};
use voxel_gi::renderer_utils::{
    emitted, lights_to_soa, load_lights, AtomicCounter, IndicesBuffer, IndirectCommand, Light,
};

fn plain_material(name: &str) -> Material {
    MaterialBuilder::new(name.to_owned()).build()
}

#[test]
fn primitive_new_rejects_non_triangle_indices() {
    let r = Primitive::new(
        vec![Vec3i::new(0, 0, 0)],
        vec![Nrm::new(0, 127, 0)],
        vec![0, 0],
        plain_material("m"),
    );
    assert_eq!(r.err().unwrap(), GeometryError::NotTriangles);
}

#[test]
fn primitive_new_rejects_mismatched_attributes() {
    let r = Primitive::new(
        vec![Vec3i::new(0, 0, 0), Vec3i::new(1, 0, 0), Vec3i::new(0, 1, 0)],
        vec![Nrm::new(0, 127, 0)],
        vec![0, 1, 2],
        plain_material("m"),
    );
    assert_eq!(r.err().unwrap(), GeometryError::MismatchedAttributes);
}

#[test]
fn primitive_new_rejects_out_of_range_index() {
    let n = Nrm::new(0, 127, 0);
    let r = Primitive::new(
        vec![Vec3i::new(0, 0, 0), Vec3i::new(1, 0, 0), Vec3i::new(0, 1, 0)],
        vec![n, n, n],
        vec![0, 1, 5],
        plain_material("m"),
    );
    assert_eq!(r.err().unwrap(), GeometryError::IndexOutOfRange);
}

#[test]
fn primitive_new_rejects_out_of_range_coordinate() {
    let n = Nrm::new(0, 127, 0);
    let r = Primitive::new(
        vec![Vec3i::new(0, 0, 0), Vec3i::new(2_000_000, 0, 0), Vec3i::new(0, 1, 0)],
        vec![n, n, n],
        vec![0, 1, 2],
        plain_material("m"),
    );
    assert_eq!(r.err().unwrap(), GeometryError::CoordinateOutOfRange);
}

#[test]
fn mesh_new_rejects_out_of_range_transform() {
    let r = Mesh::new(Vec::new(), Vec3i::new(0, 2_000_000, 0), Vec3i::new(1024, 1024, 1024));
    assert_eq!(r.err().unwrap(), GeometryError::CoordinateOutOfRange);
    let m = Mesh::new(Vec::new(), Vec3i::new(0, 0, 0), Vec3i::new(1024, 1024, 1024)).unwrap();
    assert_eq!(m.primitives().len(), 0);
}

#[test]
fn material_builder_fills_defaults() {
    let m = plain_material("empty");
    assert_eq!(m.albedo().color(), Rgb8::new(0, 0, 0));
    assert_eq!(m.metaghness().color(), Rgb8::new(0, 250, 0));
    assert_eq!(m.normal().color(), Rgb8::new(0, 0, 255));
    assert_eq!(m.occlusion().color(), Rgb8::new(255, 255, 255));
    assert_eq!(m.emissive(), Rgb8::new(0, 0, 0));
    let with_albedo = MaterialBuilder::new("painted".to_owned())
        .albedo_tex(Texture::new("tex".to_owned(), Rgb8::new(10, 20, 30)))
        .build();
    assert_eq!(with_albedo.albedo().color(), Rgb8::new(10, 20, 30));
    assert_eq!(with_albedo.name().as_str(), "painted");
}

#[test]
fn gpu_material_resolves_slot_colours() {
    let mut m = MaterialBuilder::new("glow".to_owned())
        .albedo_tex(Texture::new("a".to_owned(), Rgb8::new(1, 2, 3)))
        .build();
    m.set_emissive(Rgb8::new(7, 7, 7));
    let g = GpuMaterial::new(&m);
    assert_eq!(g.albedo(), Rgb8::new(1, 2, 3));
    assert_eq!(g.metaghness(), Rgb8::new(0, 250, 0));
    assert_eq!(g.emissive, Rgb8::new(7, 7, 7));
}

#[test]
fn resources_deduplicate_materials_by_name() {
    let mut res = Resources::new();
    let a = res.fetch_material(plain_material("stone"));
    let b = res.fetch_material(plain_material("wood"));
    let c = res.fetch_material(plain_material("stone"));
    assert_eq!(a, 0);
    assert_eq!(b, 1);
    assert_eq!(c, a);
}

#[test]
fn scene_starts_empty() {
    let s = Scene::new();
    assert_eq!(s.meshes.len(), 0);
    assert_eq!(s.lights.len(), 0);
}

#[test]
fn default_light_rig_matches_layout() {
    let lights = load_lights();
    assert_eq!(lights.len(), 3);
    assert_eq!(lights[0].position, Vec3i::new(-2560, 9216, 0));
    assert_eq!(lights[0].color, Rgb8::new(208, 0, 85));
    assert_eq!(lights[0].intensity, 256);
    assert_eq!(lights[2].position, Vec3i::new(0, 9216, -2560));
}

#[test]
fn emitted_scales_colour_by_intensity() {
    assert_eq!(emitted(255, 256), 255);
    assert_eq!(emitted(255, 512), 510);
    assert_eq!(emitted(255, 128), 127);
    assert_eq!(emitted(0, 65536), 0);
}

#[test]
fn lights_to_soa_flattens_positions_and_emitted_colours() {
    let lights = vec![Light {
        position: Vec3i::new(1, -2, 3),
        color: Rgb8::new(100, 0, 200),
        intensity: 512,
    }];
    let (positions, colors) = lights_to_soa(&lights);
    assert_eq!(positions, vec![1, -2, 3]);
    assert_eq!(colors, vec![200, 0, 400]);
}

#[test]
fn atomic_counter_claims_slots_in_order() {
    let mut c = AtomicCounter::new();
    assert_eq!(c.value(), 0);
    assert_eq!(c.claim(), 0);
    assert_eq!(c.claim(), 1);
    assert_eq!(c.value(), 2);
    c.set_value(0);
    assert_eq!(c.value(), 0);
}

#[test]
fn indices_buffer_appends_triangles() {
    let mut b = IndicesBuffer::new();
    assert_eq!(b.len(), 0);
    b.append_triangle(4, 5, 6);
    b.append_triangle(7, 8, 9);
    assert_eq!(b.len(), 6);
    assert_eq!(b.index_at(0), 4);
    assert_eq!(b.index_at(5), 9);
    b.reset();
    assert_eq!(b.len(), 0);
}

#[test]
fn indirect_command_records_compacted_draw() {
    let mut c = IndirectCommand::new();
    assert_eq!(c.count, 1);
    assert_eq!(c.prim_count, 1);
    c.record(9);
    assert_eq!(c.count, 9);
    assert_eq!(c.prim_count, 1);
    assert_eq!(c.first_index, 0);
    assert_eq!(c.base_vertex, 0);
    assert_eq!(c.base_instance, 0);
}

#[test]
fn point_cloud_primitive_has_one_vertex_per_cell() {
    let p = GpuPrimitive::from_volume(8);
    assert_eq!(p.count_positions(), 8 * 8 * 8);
    assert_eq!(p.count_vertices(), 0);
    assert_eq!(p.count_triangles(), 0);
    assert_eq!(p.translation(), Vec3i::new(0, 0, 0));
}
