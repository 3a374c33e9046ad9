//! Volume lifecycle: allocation, clearing, placement, cell access and
//! world-to-cell mapping.

use voxel_gi::color::{Nrm, Rgb8, RgbWide};
use voxel_gi::math::Vec3i;
use voxel_gi::volume::{ConfigError, Volume};

#[test]
fn new_rejects_unsupported_resolution() {
    assert_eq!(Volume::new(100).err().unwrap(), ConfigError::UnsupportedResolution);
    assert_eq!(Volume::new(0).err().unwrap(), ConfigError::UnsupportedResolution);
    assert!(Volume::new(64).is_ok());
    assert!(Volume::new(128).is_ok());
}

#[test]
fn new_starts_cleared_with_default_placement() {
    let v = Volume::new(64).unwrap();
    assert_eq!(v.resolution(), 64);
    assert_eq!(v.count_cells(), 64 * 64 * 64);
    assert_eq!(v.translation(), Vec3i::new(0, 5120, 0));
    assert_eq!(v.scaling(), Vec3i::new(10240, 10240, 10240));
    assert_eq!(v.albedo_at(10, 20, 30), Rgb8::new(0, 0, 0));
    assert_eq!(v.radiance_at(0, 10, 20, 30), RgbWide { r: 0, g: 0, b: 0 });
}

/// Clearing twice in a row yields the same state as clearing once.
#[test]
fn clear_is_idempotent() {
    let mut v = Volume::new(64).unwrap();
    v.write_geometry(3, 4, 5, Rgb8::new(9, 8, 7), Nrm::new(0, 127, 0), Rgb8::new(1, 2, 3));
    v.write_radiance(3, 4, 5, RgbWide { r: 11, g: 22, b: 33 });
    v.clear();
    let probes_once = [
        v.albedo_at(3, 4, 5),
        v.emission_at(3, 4, 5),
    ];
    let radiance_once = v.radiance_at(0, 3, 4, 5);
    let translation_once = v.translation();
    v.clear();
    assert_eq!(v.albedo_at(3, 4, 5), probes_once[0]);
    assert_eq!(v.emission_at(3, 4, 5), probes_once[1]);
    assert_eq!(v.radiance_at(0, 3, 4, 5), radiance_once);
    assert_eq!(v.translation(), translation_once);
    assert_eq!(v.albedo_at(3, 4, 5), Rgb8::new(0, 0, 0));
    assert_eq!(v.radiance_at(0, 3, 4, 5), RgbWide { r: 0, g: 0, b: 0 });
}

#[test]
fn written_geometry_reads_back() {
    let mut v = Volume::new(64).unwrap();
    v.write_geometry(63, 0, 63, Rgb8::new(1, 2, 3), Nrm::new(-127, 0, 0), Rgb8::new(4, 5, 6));
    assert_eq!(v.albedo_at(63, 0, 63), Rgb8::new(1, 2, 3));
    assert_eq!(v.normal_at(63, 0, 63), Nrm::new(-127, 0, 0));
    assert_eq!(v.emission_at(63, 0, 63), Rgb8::new(4, 5, 6));
    // A neighbour stays untouched.
    assert_eq!(v.albedo_at(62, 0, 63), Rgb8::new(0, 0, 0));
}

#[test]
fn placement_setters_validate() {
    let mut v = Volume::new(64).unwrap();
    assert!(v.set_translation(Vec3i::new(100, -200, 300)).is_ok());
    assert_eq!(v.translation(), Vec3i::new(100, -200, 300));
    assert_eq!(
        v.set_translation(Vec3i::new(2_000_000, 0, 0)).err().unwrap(),
        ConfigError::InvalidPlacement
    );
    assert_eq!(v.translation(), Vec3i::new(100, -200, 300));
    assert_eq!(
        v.set_scaling(Vec3i::new(0, 1024, 1024)).err().unwrap(),
        ConfigError::InvalidPlacement
    );
    assert_eq!(
        v.set_scaling(Vec3i::new(-1024, 1024, 1024)).err().unwrap(),
        ConfigError::InvalidPlacement
    );
    assert!(v.set_scaling(Vec3i::new(2048, 2048, 2048)).is_ok());
    assert!(v.set_view_translation(Vec3i::new(0, 0, 0)).is_ok());
    assert!(v.set_view_scaling(Vec3i::new(512, 512, 512)).is_ok());
}

/// Changing resolution is a destructive rebuild: grids come back cleared,
/// placements survive.
#[test]
fn set_resolution_rebuilds() {
    let mut v = Volume::new(64).unwrap();
    v.set_translation(Vec3i::new(7, 7, 7)).unwrap();
    v.write_geometry(1, 1, 1, Rgb8::new(9, 9, 9), Nrm::new(0, 127, 0), Rgb8::new(0, 0, 0));
    assert_eq!(v.set_resolution(37).err().unwrap(), ConfigError::UnsupportedResolution);
    assert_eq!(v.resolution(), 64);
    v.set_resolution(128).unwrap();
    assert_eq!(v.resolution(), 128);
    assert_eq!(v.translation(), Vec3i::new(7, 7, 7));
    assert_eq!(v.albedo_at(1, 1, 1), Rgb8::new(0, 0, 0));
}

#[test]
fn world_to_voxel_maps_points() {
    let v = Volume::new(64).unwrap();
    // The exact volume center lands in the middle cell.
    assert_eq!(v.world_to_voxel(Vec3i::new(0, 5120, 0)), Some((32, 32, 32)));
    // The lower corner is inside (half-open box), the far faces are not.
    assert_eq!(v.world_to_voxel(Vec3i::new(-5120, 0, -5120)), Some((0, 0, 0)));
    assert_eq!(v.world_to_voxel(Vec3i::new(5120, 5120, 0)), None);
    assert_eq!(v.world_to_voxel(Vec3i::new(0, 10240, 0)), None);
    assert_eq!(v.world_to_voxel(Vec3i::new(0, -1, 0)), None);
}

#[test]
fn sample_radiance_reads_cell_or_zero() {
    let mut v = Volume::new(64).unwrap();
    v.write_radiance(32, 32, 32, RgbWide { r: 5, g: 6, b: 7 });
    assert_eq!(v.sample_radiance(Vec3i::new(0, 5120, 0), 0), RgbWide { r: 5, g: 6, b: 7 });
    // Outside the box the sample is zero.
    assert_eq!(v.sample_radiance(Vec3i::new(0, -5000, 0), 0), RgbWide { r: 0, g: 0, b: 0 });
}

#[test]
fn generate_mipmap_reduces_written_field() {
    let mut v = Volume::new(64).unwrap();
    // A single bright voxel averages down into its block.
    v.write_radiance(0, 0, 0, RgbWide { r: 800, g: 80, b: 8 });
    v.generate_mipmap();
    assert_eq!(v.radiance_at(1, 0, 0, 0), RgbWide { r: 100, g: 10, b: 1 });
    assert_eq!(v.radiance_at(1, 1, 0, 0), RgbWide { r: 0, g: 0, b: 0 });
    // Level 2 averages level 1 in turn.
    assert_eq!(v.radiance_at(2, 0, 0, 0), RgbWide { r: 12, g: 1, b: 0 });
    // Level 0 is untouched.
    assert_eq!(v.radiance_at(0, 0, 0, 0), RgbWide { r: 800, g: 80, b: 8 });
}
