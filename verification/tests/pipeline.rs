//! End-to-end frame pipeline scenarios on a small cube scene.

use voxel_gi::color::{Rgb8, RgbWide};
use voxel_gi::material::{MaterialBuilder, Texture};
use voxel_gi::math::Vec3i;
use voxel_gi::model::{Mesh, Primitive};
use voxel_gi::renderer::{FrameConfig, Renderer, RenderingMode, VoxelizationMode};
use voxel_gi::renderer_utils::Light;

fn white() -> Rgb8 {
    Rgb8::new(255, 255, 255)
}

fn cube_material(albedo: Rgb8) -> voxel_gi::material::Material {
    MaterialBuilder::new("cube".to_owned())
        .albedo_tex(Texture::new("cube_albedo".to_owned(), albedo))
        .build()
}

/// An axis-aligned cube of side 1024 fixed-point units (one world unit),
/// centered at `center`, with per-face normals.
fn unit_cube(center: (i64, i64, i64), albedo: Rgb8) -> Primitive {
    let (cx, cy, cz) = center;
    let h: i64 = 512;
    let faces: [((i8, i8, i8), [(i64, i64, i64); 4]); 6] = [
        (
            (0, 127, 0),
            [
                (cx - h, cy + h, cz - h),
                (cx + h, cy + h, cz - h),
                (cx + h, cy + h, cz + h),
                (cx - h, cy + h, cz + h),
            ],
        ),
        (
            (0, -127, 0),
            [
                (cx - h, cy - h, cz - h),
                (cx + h, cy - h, cz - h),
                (cx + h, cy - h, cz + h),
                (cx - h, cy - h, cz + h),
            ],
        ),
        (
            (127, 0, 0),
            [
                (cx + h, cy - h, cz - h),
                (cx + h, cy + h, cz - h),
                (cx + h, cy + h, cz + h),
                (cx + h, cy - h, cz + h),
            ],
        ),
        (
            (-127, 0, 0),
            [
                (cx - h, cy - h, cz - h),
                (cx - h, cy + h, cz - h),
                (cx - h, cy + h, cz + h),
                (cx - h, cy - h, cz + h),
            ],
        ),
        (
            (0, 0, 127),
            [
                (cx - h, cy - h, cz + h),
                (cx + h, cy - h, cz + h),
                (cx + h, cy + h, cz + h),
                (cx - h, cy + h, cz + h),
            ],
        ),
        (
            (0, 0, -127),
            [
                (cx - h, cy - h, cz - h),
                (cx + h, cy - h, cz - h),
                (cx + h, cy + h, cz - h),
                (cx - h, cy + h, cz - h),
            ],
        ),
    ];
    let mut positions: Vec<Vec3i> = Vec::new();
    let mut normals: Vec<voxel_gi::color::Nrm> = Vec::new();
    let mut indices: Vec<u32> = Vec::new();
    for (n, corners) in faces.iter() {
        let base = positions.len() as u32;
        for c in corners.iter() {
            positions.push(Vec3i::new(c.0, c.1, c.2));
            normals.push(voxel_gi::color::Nrm::new(n.0, n.1, n.2));
        }
        indices.push(base);
        indices.push(base + 1);
        indices.push(base + 2);
        indices.push(base);
        indices.push(base + 2);
        indices.push(base + 3);
    }
    Primitive::new(positions, normals, indices, cube_material(albedo)).unwrap()
}

fn hybrid_config() -> FrameConfig {
    FrameConfig {
        rendering_mode: RenderingMode::Scene,
        voxelization_mode: VoxelizationMode::Hybrid,
        conservative: true,
        show_bounds: false,
    }
}

fn cube_renderer() -> Renderer {
    let mut r = Renderer::new((800, 600), 64).unwrap();
    r.set_lights(vec![Light {
        position: Vec3i::new(0, 9216, 0),
        color: white(),
        intensity: 256,
    }])
    .unwrap();
    let mesh = Mesh::new(
        vec![unit_cube((0, 5120, 0), white())],
        Vec3i::new(0, 0, 0),
        Vec3i::new(1024, 1024, 1024),
    )
    .unwrap();
    r.submit_mesh(&mesh);
    r
}

/// Resolution 64, volume at (0,5,0) scaled (10,10,10), a white unit cube at
/// the volume center, one white light at (0,9,0) of intensity 1: cube
/// voxels report albedo, and the voxel at the cube's top face (nearest the
/// light) is strictly brighter than the bottom-face voxels.
#[test]
fn scenario_cube_under_top_light() {
    let mut r = cube_renderer();
    let out = r.render(&hybrid_config());
    assert_eq!(out.scene_ambient.len(), 1);
    let vol = r.volume();
    // Voxels intersecting the cube report the cube's albedo.
    assert_eq!(vol.albedo_at(31, 35, 31), white());
    assert_eq!(vol.albedo_at(31, 28, 31), white());
    assert_eq!(vol.albedo_at(35, 31, 31), white());
    // A voxel far from the cube stays neutral.
    assert_eq!(vol.albedo_at(5, 5, 5), Rgb8::new(0, 0, 0));
    let top = vol.radiance_at(0, 31, 35, 31);
    let bottom = vol.radiance_at(0, 31, 28, 31);
    assert_eq!(top, RgbWide { r: 18711, g: 18711, b: 18711 });
    assert_eq!(bottom, RgbWide { r: 0, g: 0, b: 0 });
    assert!(top.r > bottom.r && top.g > bottom.g && top.b > bottom.b);
}

/// A primitive fully outside the volume's bounds touches no voxel.
#[test]
fn voxelization_skips_primitive_outside_bounds() {
    let mut r = Renderer::new((800, 600), 64).unwrap();
    let mesh = Mesh::new(
        vec![unit_cube((0, 102400, 0), white())],
        Vec3i::new(0, 0, 0),
        Vec3i::new(1024, 1024, 1024),
    )
    .unwrap();
    r.submit_mesh(&mesh);
    r.render(&hybrid_config());
    let vol = r.volume();
    for z in 0..64 {
        for y in 0..64 {
            for x in 0..64 {
                assert_eq!(vol.albedo_at(x, y, z), Rgb8::new(0, 0, 0));
            }
        }
    }
}

/// The fragment-direct and hybrid strategies populate exactly the same
/// voxels, and the point-sampled degradation never covers a voxel the
/// conservative path leaves empty.
#[test]
fn hybrid_covers_at_least_fragment_direct() {
    let mut frag_cons = cube_renderer();
    let mut hybrid_cons = cube_renderer();
    let mut frag_point = cube_renderer();
    frag_cons.render(&FrameConfig {
        voxelization_mode: VoxelizationMode::FragmentOnly,
        ..hybrid_config()
    });
    hybrid_cons.render(&hybrid_config());
    frag_point.render(&FrameConfig {
        voxelization_mode: VoxelizationMode::FragmentOnly,
        conservative: false,
        ..hybrid_config()
    });
    let a = frag_cons.volume();
    let b = hybrid_cons.volume();
    let c = frag_point.volume();
    for z in 0..64 {
        for y in 0..64 {
            for x in 0..64 {
                // Same flag: identical coverage and attributes.
                assert_eq!(a.albedo_at(x, y, z), b.albedo_at(x, y, z));
                assert_eq!(a.radiance_at(0, x, y, z), b.radiance_at(0, x, y, z));
                // Point-sampled coverage is a subset of conservative coverage.
                if c.albedo_at(x, y, z) != Rgb8::new(0, 0, 0) {
                    assert_ne!(b.albedo_at(x, y, z), Rgb8::new(0, 0, 0));
                }
            }
        }
    }
}

/// Each mip level stores the box-filter average of the 2x2x2 block below
/// it, checked against level 0 after a full frame.
#[test]
fn mip_level_one_is_box_average() {
    let mut r = cube_renderer();
    r.render(&hybrid_config());
    let vol = r.volume();
    for &(x1, y1, z1) in &[(15usize, 17usize, 15usize), (0, 0, 0), (14, 14, 14), (17, 14, 15)] {
        let mut sr: u64 = 0;
        let mut sg: u64 = 0;
        let mut sb: u64 = 0;
        for dz in 0..2 {
            for dy in 0..2 {
                for dx in 0..2 {
                    let c = vol.radiance_at(0, 2 * x1 + dx, 2 * y1 + dy, 2 * z1 + dz);
                    sr += c.r as u64;
                    sg += c.g as u64;
                    sb += c.b as u64;
                }
            }
        }
        let got = vol.radiance_at(1, x1, y1, z1);
        assert_eq!(got.r as u64, sr / 8);
        assert_eq!(got.g as u64, sg / 8);
        assert_eq!(got.b as u64, sb / 8);
    }
}

/// The radiance read after a frame reflects that frame's primitive set:
/// moving the cube empties its old voxels, and moving it back restores the
/// exact earlier field.
#[test]
fn frame_reflects_own_scene_only() {
    let mut r = cube_renderer();
    r.render(&hybrid_config());
    let first_top = r.volume().radiance_at(0, 31, 35, 31);
    assert_ne!(first_top, RgbWide { r: 0, g: 0, b: 0 });
    // Move the cube far from the volume and render the next frame.
    assert!(r.set_primitive_translation(0, Vec3i::new(0, 500000, 0)));
    r.render(&hybrid_config());
    assert_eq!(r.volume().albedo_at(31, 35, 31), Rgb8::new(0, 0, 0));
    assert_eq!(r.volume().radiance_at(0, 31, 35, 31), RgbWide { r: 0, g: 0, b: 0 });
    // Move it back: the field is recomputed from scratch and matches.
    assert!(r.set_primitive_translation(0, Vec3i::new(0, 0, 0)));
    r.render(&hybrid_config());
    assert_eq!(r.volume().radiance_at(0, 31, 35, 31), first_top);
}

/// The sampled ambient term of the scene pass reads the primitive's voxel.
#[test]
fn scene_pass_samples_radiance_at_primitive() {
    let mut r = cube_renderer();
    let out = r.render(&hybrid_config());
    // The cube instance's translation (0,0,0) falls in an empty voxel at
    // the volume's lower face, so its ambient sample is zero.
    assert_eq!(out.scene_ambient.len(), 1);
    assert_eq!(out.scene_ambient[0], RgbWide { r: 0, g: 0, b: 0 });
    // A voxel-view draw is issued only when a raw channel is displayed.
    assert!(out.voxel_view.is_none());
    assert!(out.bounds_view.is_none());
    let out2 = r.render(&FrameConfig {
        rendering_mode: RenderingMode::Radiance,
        show_bounds: true,
        ..hybrid_config()
    });
    let view = out2.voxel_view.unwrap();
    assert_eq!(view.channel, RenderingMode::Radiance);
    assert_eq!(view.points, 64 * 64 * 64);
    assert_eq!(view.resolution, 64);
    let bounds = out2.bounds_view.unwrap();
    assert_eq!(bounds.translation, Vec3i::new(0, 5120, 0));
    assert_eq!(bounds.scaling, Vec3i::new(10240, 10240, 10240));
}

/// The light rig setters validate positions and intensities.
#[test]
fn light_rig_validation() {
    assert!(Renderer::new((10, 10), 99).is_err());
    let mut r = Renderer::new((10, 10), 64).unwrap();
    assert_eq!(r.light_count(), 3);
    assert!(r
        .set_lights(vec![Light { position: Vec3i::new(0, 0, 0), color: white(), intensity: 70000 }])
        .is_err());
    assert_eq!(r.light_count(), 3);
    assert!(r
        .set_light(0, Light { position: Vec3i::new(1, 2, 3), color: white(), intensity: 256 })
        .is_ok());
    assert_eq!(r.light(0).position, Vec3i::new(1, 2, 3));
    assert!(r
        .set_light(
            1,
            Light { position: Vec3i::new(2_000_000, 0, 0), color: white(), intensity: 256 },
        )
        .is_err());
}

/// Stored emission seeds radiance even where the albedo is black, scaled by
/// the emission gain.
#[test]
fn emission_seeds_radiance() {
    let mut r = Renderer::new((800, 600), 64).unwrap();
    let mut prim = unit_cube((0, 5120, 0), Rgb8::new(0, 0, 0));
    prim.material.set_emissive(Rgb8::new(10, 0, 2));
    let mesh = Mesh::new(vec![prim], Vec3i::new(0, 0, 0), Vec3i::new(1024, 1024, 1024)).unwrap();
    r.submit_mesh(&mesh);
    r.render(&hybrid_config());
    let vol = r.volume();
    assert_eq!(vol.emission_at(31, 35, 31), Rgb8::new(10, 0, 2));
    // Albedo is black, so the only radiance is the emission seed.
    assert_eq!(vol.radiance_at(0, 31, 35, 31), RgbWide { r: 2560, g: 0, b: 512 });
}

/// A voxel holding geometry with zero albedo and zero emission keeps zero
/// radiance whatever the lights are.
#[test]
fn injection_gives_black_geometry_no_radiance() {
    let mut r = Renderer::new((800, 600), 64).unwrap();
    let mesh = Mesh::new(
        vec![unit_cube((0, 5120, 0), Rgb8::new(0, 0, 0))],
        Vec3i::new(0, 0, 0),
        Vec3i::new(1024, 1024, 1024),
    )
    .unwrap();
    r.submit_mesh(&mesh);
    r.render(&hybrid_config());
    let vol = r.volume();
    // The cube's voxels hold geometry (a normal was written) but no albedo
    // and no emission, so injection leaves them black.
    for &(x, y, z) in &[(31usize, 35usize, 31usize), (31, 28, 31), (35, 31, 31)] {
        assert_eq!(vol.albedo_at(x, y, z), Rgb8::new(0, 0, 0));
        assert_eq!(vol.radiance_at(0, x, y, z), RgbWide { r: 0, g: 0, b: 0 });
    }
}
