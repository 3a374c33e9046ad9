//! The voxel volume: four cubic grids (albedo, normal, emission, radiance
//! with a mip pyramid), a world-space placement used for voxelization, and an
//! independent display placement used only when visualizing the grid.

use vstd::prelude::*;

use crate::color::{chan_wide, Nrm, Rgb8, RgbWide};
use crate::math::{Vec3i, COORD_LIMIT};

verus! {

/// Configuration errors surfaced when building or re-placing a volume.
#[derive(Clone, Copy, PartialEq, Eq, Structural, Debug)]
pub enum ConfigError {
    /// The requested grid resolution is not one the pipeline supports.
    UnsupportedResolution,
    /// A placement vector is out of range, or a scaling is not positive.
    InvalidPlacement,
}

/// The grid side lengths the pipeline supports.
pub open spec fn valid_resolution(r: int) -> bool {
    r == 64 || r == 128 || r == 256 || r == 512
}

/// Number of radiance mip levels for a supported resolution: down to 1 cell.
pub open spec fn mip_level_count(r: int) -> int {
    if r == 64 {
        7
    } else if r == 128 {
        8
    } else if r == 256 {
        9
    } else {
        10
    }
}

/// Side length of mip level `k` (level 0 has the full resolution `r`).
pub open spec fn level_res(r: int, k: int) -> int
    decreases k,
{
    if k <= 0 {
        r
    } else {
        level_res(r, k - 1) / 2
    }
}

/// A placement is usable when its center is a bounded coordinate and its
/// scaling is positive on every axis (a zero or negative scaling is a
/// configuration error).
pub open spec fn valid_placement(translation: Vec3i, scaling: Vec3i) -> bool {
    &&& translation.in_range(COORD_LIMIT as int)
    &&& 1 <= scaling.x <= COORD_LIMIT
    &&& 1 <= scaling.y <= COORD_LIMIT
    &&& 1 <= scaling.z <= COORD_LIMIT
}

/// Mathematical model of a [`Volume`]: the four grids as flat sequences
/// (the radiance grid once per mip level) together with the placements.
pub struct VolModel {
    pub resolution: nat,
    pub albedo: Seq<Rgb8>,
    pub normal: Seq<Nrm>,
    pub emission: Seq<Rgb8>,
    pub radiance: Seq<Seq<RgbWide>>,
    pub translation: Vec3i,
    pub scaling: Vec3i,
    pub view_translation: Vec3i,
    pub view_scaling: Vec3i,
}

/// Flat index of the cell at `(x, y, z)` in a cubic grid of side `r`.
pub open spec fn cell_index(r: int, x: int, y: int, z: int) -> int {
    (z * r + y) * r + x
}

/// `(x, y, z)` names a cell of a cubic grid of side `r`.
pub open spec fn valid_cell(r: int, x: int, y: int, z: int) -> bool {
    0 <= x < r && 0 <= y < r && 0 <= z < r
}

/// X coordinate of flat cell `i` in a cubic grid of side `r`.
pub open spec fn ix(i: int, r: int) -> int {
    i % r
}

/// Y coordinate of flat cell `i` in a cubic grid of side `r`.
pub open spec fn iy(i: int, r: int) -> int {
    (i / r) % r
}

/// Z coordinate of flat cell `i` in a cubic grid of side `r`.
pub open spec fn iz(i: int, r: int) -> int {
    i / (r * r)
}

/// `cell_index` lands inside the grid and is inverted by `ix`/`iy`/`iz`.
pub proof fn lemma_cell_index_inverse(r: int, x: int, y: int, z: int)
    requires
        0 < r,
        valid_cell(r, x, y, z),
    ensures
        0 <= cell_index(r, x, y, z) < r * r * r,
        ix(cell_index(r, x, y, z), r) == x,
        iy(cell_index(r, x, y, z), r) == y,
        iz(cell_index(r, x, y, z), r) == z,
{
    let i = cell_index(r, x, y, z);
    let q = z * r + y;
    assert(i == q * r + x);
    assert(0 <= q * r + x < r * r * r) by (nonlinear_arith)
        requires
            0 < r,
            q == z * r + y,
            0 <= x < r,
            0 <= y < r,
            0 <= z < r,
    ;
    vstd::arithmetic::div_mod::lemma_fundamental_div_mod_converse(i, r, q, x);
    vstd::arithmetic::div_mod::lemma_fundamental_div_mod_converse(q, r, z, y);
    assert(i / r == q && i % r == x);
    assert(q / r == z && q % r == y);
    assert(r * r > 0) by (nonlinear_arith)
        requires
            0 < r,
    ;
    vstd::arithmetic::div_mod::lemma_div_denominator(i, r, r);
    assert(i / (r * r) == (i / r) / r);
}

/// Every flat index below `r^3` decomposes into a valid cell that indexes
/// back to it.
pub proof fn lemma_cell_index_reconstruct(r: int, i: int)
    requires
        0 < r,
        0 <= i < r * r * r,
    ensures
        valid_cell(r, ix(i, r), iy(i, r), iz(i, r)),
        cell_index(r, ix(i, r), iy(i, r), iz(i, r)) == i,
{
    let q = i / r;
    vstd::arithmetic::div_mod::lemma_fundamental_div_mod(i, r);
    vstd::arithmetic::div_mod::lemma_mod_division_less_than_divisor(i, r);
    assert(0 <= q) by {
        vstd::arithmetic::div_mod::lemma_div_pos_is_pos(i, r);
    }
    vstd::arithmetic::div_mod::lemma_fundamental_div_mod(q, r);
    vstd::arithmetic::div_mod::lemma_mod_division_less_than_divisor(q, r);
    assert(r * r > 0) by (nonlinear_arith)
        requires
            0 < r,
    ;
    vstd::arithmetic::div_mod::lemma_div_denominator(i, r, r);
    assert(iz(i, r) == q / r);
    assert(q / r < r) by {
        assert(i < (r * r) * r ==> i / (r * r) < r) by {
            vstd::arithmetic::div_mod::lemma_multiply_divide_lt(i, r * r, r);
        }
        assert(i < (r * r) * r) by (nonlinear_arith)
            requires
                i < r * r * r,
        ;
    }
    assert(q / r >= 0) by {
        vstd::arithmetic::div_mod::lemma_div_pos_is_pos(q, r);
    }
    assert(cell_index(r, ix(i, r), iy(i, r), iz(i, r)) == i) by (nonlinear_arith)
        requires
            q == r * (q / r) + q % r,
            i == r * q + i % r,
            ix(i, r) == i % r,
            iy(i, r) == q % r,
            iz(i, r) == q / r,
            cell_index(r, ix(i, r), iy(i, r), iz(i, r)) == (iz(i, r) * r + iy(i, r)) * r + ix(i, r),
    ;
}

impl VolModel {
    /// Number of cells of the full-resolution grids.
    pub open spec fn cells(self) -> int {
        (self.resolution * self.resolution * self.resolution) as int
    }

    /// Structural well-formedness: supported resolution, grids of the right
    /// lengths, a full radiance mip pyramid, and usable placements.
    pub open spec fn wf(self) -> bool {
        &&& valid_resolution(self.resolution as int)
        &&& self.albedo.len() == self.cells()
        &&& self.normal.len() == self.cells()
        &&& self.emission.len() == self.cells()
        &&& self.radiance.len() == mip_level_count(self.resolution as int)
        &&& forall|k: int|
            0 <= k < self.radiance.len() ==> (#[trigger] self.radiance[k]).len() == level_res(
                self.resolution as int,
                k,
            ) * level_res(self.resolution as int, k) * level_res(self.resolution as int, k)
        &&& valid_placement(self.translation, self.scaling)
        &&& valid_placement(self.view_translation, self.view_scaling)
    }
}

/// The state every frame starts from: all four grids at their neutral value,
/// with resolution and placements untouched.
pub open spec fn cleared_model(m: VolModel) -> VolModel {
    VolModel {
        albedo: Seq::new(m.albedo.len(), |i: int| Rgb8 { r: 0, g: 0, b: 0 }),
        normal: Seq::new(m.normal.len(), |i: int| Nrm { x: 0, y: 0, z: 0 }),
        emission: Seq::new(m.emission.len(), |i: int| Rgb8 { r: 0, g: 0, b: 0 }),
        radiance: Seq::new(
            m.radiance.len(),
            |k: int| Seq::new(m.radiance[k].len(), |i: int| RgbWide { r: 0, g: 0, b: 0 }),
        ),
        ..m
    }
}

/// The voxel volume owned by the renderer.
pub struct Volume {
    resolution: usize,
    albedo: Vec<Rgb8>,
    normal: Vec<Nrm>,
    emission: Vec<Rgb8>,
    radiance: Vec<Vec<RgbWide>>,
    translation: Vec3i,
    scaling: Vec3i,
    view_translation: Vec3i,
    view_scaling: Vec3i,
}

impl View for Volume {
    type V = VolModel;

    closed spec fn view(&self) -> VolModel {
        VolModel {
            resolution: self.resolution as nat,
            albedo: self.albedo@,
            normal: self.normal@,
            emission: self.emission@,
            radiance: self.radiance@.map_values(|level: Vec<RgbWide>| level@),
            translation: self.translation,
            scaling: self.scaling,
            view_translation: self.view_translation,
            view_scaling: self.view_scaling,
        }
    }
}

/// A vector holding `n` copies of `val`.
fn filled<T: Copy>(n: usize, val: T) -> (v: Vec<T>)
    ensures
        v@.len() == n,
        forall|i: int| 0 <= i < n ==> v@[i] == val,
{
    let mut v: Vec<T> = Vec::new();
    let mut k: usize = 0;
    while k < n
        invariant
            k <= n,
            v@.len() == k,
            forall|i: int| 0 <= i < k ==> v@[i] == val,
        decreases n - k,
    {
        v.push(val);
        k = k + 1;
    }
    v
}

impl Volume {
    /// The volume is well formed exactly when its model is.
    pub open spec fn wf(&self) -> bool {
        self@.wf()
    }

    /// Allocates a volume of side `resolution` with every channel at its
    /// neutral value and the default placement.  Unsupported resolutions are
    /// rejected before any per-frame work can happen.
    pub fn new(resolution: usize) -> (result: Result<Volume, ConfigError>)
        ensures
            result is Ok <==> valid_resolution(resolution as int),
            result matches Ok(v) ==> {
                &&& v.wf()
                &&& v@.resolution == resolution
                &&& v@ == cleared_model(v@)
                &&& v@.translation == (Vec3i { x: 0, y: 5120i64, z: 0 })
                &&& v@.scaling == (Vec3i { x: 10240i64, y: 10240i64, z: 10240i64 })
            },
            result matches Err(e) ==> e == ConfigError::UnsupportedResolution,
    {
        if !(resolution == 64 || resolution == 128 || resolution == 256 || resolution == 512) {
            return Err(ConfigError::UnsupportedResolution);
        }
        let levels: usize = if resolution == 64 {
            7
        } else if resolution == 128 {
            8
        } else if resolution == 256 {
            9
        } else {
            10
        };
        proof {
            assert(resolution * resolution <= 262144 && resolution * resolution * resolution
                <= 134217728) by (nonlinear_arith)
                requires
                    resolution <= 512,
            ;
        }
        let cells = resolution * resolution * resolution;
        let mut radiance: Vec<Vec<RgbWide>> = Vec::new();
        let mut k: usize = 0;
        let mut res_k: usize = resolution;
        while k < levels
            invariant
                k <= levels,
                levels == mip_level_count(resolution as int),
                radiance@.len() == k,
                res_k == level_res(resolution as int, k as int),
                forall|j: int|
                    0 <= j < k ==> (#[trigger] radiance@[j])@.len() == level_res(
                        resolution as int,
                        j,
                    ) * level_res(resolution as int, j) * level_res(resolution as int, j),
                forall|j: int, i: int|
                    0 <= j < k && 0 <= i < radiance@[j]@.len() ==> #[trigger] radiance@[j]@[i]
                        == (RgbWide { r: 0, g: 0, b: 0 }),
                valid_resolution(resolution as int),
            decreases levels - k,
        {
            proof {
                lemma_level_res_bounds(resolution as int, k as int);
                assert(1 <= res_k <= 512);
                assert(res_k * res_k <= 262144 && res_k * res_k * res_k <= 134217728)
                    by (nonlinear_arith)
                    requires
                        1 <= res_k <= 512,
                ;
            }
            let level_cells = res_k * res_k * res_k;
            radiance.push(filled(level_cells, RgbWide::zero()));
            res_k = res_k / 2;
            k = k + 1;
        }
        let v = Volume {
            resolution,
            albedo: filled(cells, Rgb8::zero()),
            normal: filled(cells, Nrm::zero()),
            emission: filled(cells, Rgb8::zero()),
            radiance,
            translation: Vec3i::new(0, 5 * 1024, 0),
            scaling: Vec3i::new(10 * 1024, 10 * 1024, 10 * 1024),
            view_translation: Vec3i::new(10 * 1024 + 153, 5 * 1024, 0),
            view_scaling: Vec3i::new(10 * 1024, 10 * 1024, 10 * 1024),
        };
        proof {
            let m = v@;
            assert(m.albedo =~= cleared_model(m).albedo);
            assert(m.normal =~= cleared_model(m).normal);
            assert(m.emission =~= cleared_model(m).emission);
            assert forall|j: int| 0 <= j < m.radiance.len() implies m.radiance[j] =~= cleared_model(
                m,
            ).radiance[j] by {
                assert(m.radiance[j] == radiance@[j]@);
            }
            assert(m.radiance =~~= cleared_model(m).radiance);
            assert(m =~~= cleared_model(m));
        }
        Ok(v)
    }
}

/// Largest magnitude a world-space point handed to the volume for cell
/// lookup may have.
pub const WORLD_LIMIT: i64 = 1099511627776;

/// Center of the cell with index `i` along one axis, for a grid of side `r`
/// placed with center `t` and extent `s`.
pub open spec fn voxel_center_axis(t: int, s: int, r: int, i: int) -> int {
    t - s / 2 + ((2 * i + 1) * s) / (2 * r)
}

/// World-space center of the cell at `(x, y, z)`.
pub open spec fn voxel_center(m: VolModel, x: int, y: int, z: int) -> Vec3i {
    Vec3i {
        x: voxel_center_axis(m.translation.x as int, m.scaling.x as int, m.resolution as int, x)
            as i64,
        y: voxel_center_axis(m.translation.y as int, m.scaling.y as int, m.resolution as int, y)
            as i64,
        z: voxel_center_axis(m.translation.z as int, m.scaling.z as int, m.resolution as int, z)
            as i64,
    }
}

/// Smallest coordinate the volume box covers along one axis.
pub open spec fn axis_min(t: int, s: int) -> int {
    t - s / 2
}

/// The coordinate lies inside the half-open extent of the box on one axis.
pub open spec fn inside_axis(w: int, t: int, s: int) -> bool {
    axis_min(t, s) <= w < axis_min(t, s) + s
}

/// Index of the cell containing coordinate `w` along one axis (meaningful
/// when `inside_axis` holds).
pub open spec fn axis_cell(w: int, t: int, s: int, r: int) -> int {
    ((w - axis_min(t, s)) * r) / s
}

/// The point lies inside the volume's world-space box.
pub open spec fn inside_bounds(m: VolModel, p: Vec3i) -> bool {
    &&& inside_axis(p.x as int, m.translation.x as int, m.scaling.x as int)
    &&& inside_axis(p.y as int, m.translation.y as int, m.scaling.y as int)
    &&& inside_axis(p.z as int, m.translation.z as int, m.scaling.z as int)
}

/// A coordinate inside the axis extent maps to a cell index inside the grid.
pub proof fn lemma_axis_cell_in_grid(w: int, t: int, s: int, r: int)
    requires
        0 < s,
        0 < r,
        inside_axis(w, t, s),
    ensures
        0 <= axis_cell(w, t, s, r) < r,
{
    let p = w - axis_min(t, s);
    vstd::arithmetic::div_mod::lemma_div_pos_is_pos(p * r, s);
    assert(0 <= p * r) by (nonlinear_arith)
        requires
            0 <= p,
            0 < r,
    ;
    assert(p * r < s * r) by (nonlinear_arith)
        requires
            p < s,
            0 < r,
    ;
    vstd::arithmetic::div_mod::lemma_multiply_divide_lt(p * r, s, r);
}

/// Center of one axis cell, computed in 64-bit arithmetic.
fn center_axis(t: i64, s: i64, r: i64, i: i64) -> (c: i64)
    requires
        -COORD_LIMIT <= t <= COORD_LIMIT,
        1 <= s <= COORD_LIMIT,
        1 <= r <= 512,
        0 <= i < r,
    ensures
        c == voxel_center_axis(t as int, s as int, r as int, i as int),
        -2 * COORD_LIMIT <= c <= 2 * COORD_LIMIT,
{
    proof {
        crate::math::lemma_mul_bound((2 * i + 1) as int, s as int, 1024, COORD_LIMIT as int);
        assert(0 <= (2 * i + 1) * s <= (2 * r) * s) by (nonlinear_arith)
            requires
                1 <= 2 * i + 1 <= 2 * r,
                0 < s,
        ;
    }
    let num = (2 * i + 1) * s;
    proof {
        vstd::arithmetic::div_mod::lemma_multiply_divide_le(num as int, 2 * r as int, s as int);
        vstd::arithmetic::div_mod::lemma_div_pos_is_pos(num as int, 2 * r as int);
    }
    let q = num / (2 * r);
    t - s / 2 + q
}

impl Volume {
    /// Grid side length.
    pub fn resolution(&self) -> (r: usize)
        ensures
            r == self@.resolution,
    {
        self.resolution
    }

    /// Total number of cells at full resolution; the point count used when
    /// drawing the grid as a point cloud.
    pub fn count_cells(&self) -> (n: usize)
        requires
            self.wf(),
        ensures
            n == self@.cells(),
    {
        proof {
            assert(self.resolution * self.resolution <= 262144 && self.resolution
                * self.resolution * self.resolution <= 134217728) by (nonlinear_arith)
                requires
                    self.resolution <= 512,
            ;
        }
        self.resolution * self.resolution * self.resolution
    }

    /// Number of points a debug draw of the grid issues: one per cell.
    pub fn draw(&self) -> (n: usize)
        requires
            self.wf(),
        ensures
            n == self@.cells(),
    {
        self.count_cells()
    }

    /// World-space center of the voxelization box.
    pub fn translation(&self) -> (t: Vec3i)
        ensures
            t == self@.translation,
    {
        self.translation
    }

    /// World-space extents of the voxelization box.
    pub fn scaling(&self) -> (s: Vec3i)
        ensures
            s == self@.scaling,
    {
        self.scaling
    }

    /// Center of the display placement used only for grid visualization.
    pub fn view_translation(&self) -> (t: Vec3i)
        ensures
            t == self@.view_translation,
    {
        self.view_translation
    }

    /// Extents of the display placement used only for grid visualization.
    pub fn view_scaling(&self) -> (s: Vec3i)
        ensures
            s == self@.view_scaling,
    {
        self.view_scaling
    }

    /// Moves the voxelization box; out-of-range centers are rejected.
    pub fn set_translation(&mut self, t: Vec3i) -> (result: Result<(), ConfigError>)
        requires
            old(self).wf(),
        ensures
            final(self).wf(),
            result is Ok <==> t.in_range(COORD_LIMIT as int),
            result is Ok ==> final(self)@ == (VolModel { translation: t, ..old(self)@ }),
            result is Err ==> *final(self) == *old(self) && result == Err::<(), ConfigError>(
                ConfigError::InvalidPlacement,
            ),
    {
        if -COORD_LIMIT <= t.x && t.x <= COORD_LIMIT && -COORD_LIMIT <= t.y && t.y <= COORD_LIMIT
            && -COORD_LIMIT <= t.z && t.z <= COORD_LIMIT {
            self.translation = t;
            Ok(())
        } else {
            Err(ConfigError::InvalidPlacement)
        }
    }

    /// Resizes the voxelization box; zero or negative scaling is rejected.
    pub fn set_scaling(&mut self, s: Vec3i) -> (result: Result<(), ConfigError>)
        requires
            old(self).wf(),
        ensures
            final(self).wf(),
            result is Ok <==> (1 <= s.x <= COORD_LIMIT && 1 <= s.y <= COORD_LIMIT && 1 <= s.z
                <= COORD_LIMIT),
            result is Ok ==> final(self)@ == (VolModel { scaling: s, ..old(self)@ }),
            result is Err ==> *final(self) == *old(self) && result == Err::<(), ConfigError>(
                ConfigError::InvalidPlacement,
            ),
    {
        if 1 <= s.x && s.x <= COORD_LIMIT && 1 <= s.y && s.y <= COORD_LIMIT && 1 <= s.z && s.z
            <= COORD_LIMIT {
            self.scaling = s;
            Ok(())
        } else {
            Err(ConfigError::InvalidPlacement)
        }
    }

    /// Moves the display placement; out-of-range centers are rejected.
    pub fn set_view_translation(&mut self, t: Vec3i) -> (result: Result<(), ConfigError>)
        requires
            old(self).wf(),
        ensures
            final(self).wf(),
            result is Ok <==> t.in_range(COORD_LIMIT as int),
            result is Ok ==> final(self)@ == (VolModel { view_translation: t, ..old(self)@ }),
            result is Err ==> *final(self) == *old(self) && result == Err::<(), ConfigError>(
                ConfigError::InvalidPlacement,
            ),
    {
        if -COORD_LIMIT <= t.x && t.x <= COORD_LIMIT && -COORD_LIMIT <= t.y && t.y <= COORD_LIMIT
            && -COORD_LIMIT <= t.z && t.z <= COORD_LIMIT {
            self.view_translation = t;
            Ok(())
        } else {
            Err(ConfigError::InvalidPlacement)
        }
    }

    /// Resizes the display placement; zero or negative scaling is rejected.
    pub fn set_view_scaling(&mut self, s: Vec3i) -> (result: Result<(), ConfigError>)
        requires
            old(self).wf(),
        ensures
            final(self).wf(),
            result is Ok <==> (1 <= s.x <= COORD_LIMIT && 1 <= s.y <= COORD_LIMIT && 1 <= s.z
                <= COORD_LIMIT),
            result is Ok ==> final(self)@ == (VolModel { view_scaling: s, ..old(self)@ }),
            result is Err ==> *final(self) == *old(self) && result == Err::<(), ConfigError>(
                ConfigError::InvalidPlacement,
            ),
    {
        if 1 <= s.x && s.x <= COORD_LIMIT && 1 <= s.y && s.y <= COORD_LIMIT && 1 <= s.z && s.z
            <= COORD_LIMIT {
            self.view_scaling = s;
            Ok(())
        } else {
            Err(ConfigError::InvalidPlacement)
        }
    }

    /// Changes the grid resolution by a full destructive rebuild: every
    /// channel comes back cleared, only the placements survive.
    pub fn set_resolution(&mut self, resolution: usize) -> (result: Result<(), ConfigError>)
        requires
            old(self).wf(),
        ensures
            final(self).wf(),
            result is Ok <==> valid_resolution(resolution as int),
            result is Ok ==> {
                &&& final(self)@.resolution == resolution
                &&& final(self)@ == cleared_model(final(self)@)
                &&& final(self)@.translation == old(self)@.translation
                &&& final(self)@.scaling == old(self)@.scaling
                &&& final(self)@.view_translation == old(self)@.view_translation
                &&& final(self)@.view_scaling == old(self)@.view_scaling
            },
            result is Err ==> *final(self) == *old(self) && result == Err::<(), ConfigError>(
                ConfigError::UnsupportedResolution,
            ),
    {
        match Volume::new(resolution) {
            Ok(mut fresh) => {
                fresh.translation = self.translation;
                fresh.scaling = self.scaling;
                fresh.view_translation = self.view_translation;
                fresh.view_scaling = self.view_scaling;
                proof {
                    assert(fresh@ =~~= cleared_model(fresh@));
                }
                *self = fresh;
                Ok(())
            },
            Err(_) => Err(ConfigError::UnsupportedResolution),
        }
    }

    /// Resets all four channels (the radiance pyramid included) to their
    /// neutral value; the frame's voxelization may only run after this.
    pub fn clear(&mut self)
        requires
            old(self).wf(),
        ensures
            final(self).wf(),
            final(self)@ == cleared_model(old(self)@),
    {
        let n = self.albedo.len();
        let mut new_radiance: Vec<Vec<RgbWide>> = Vec::new();
        let mut k: usize = 0;
        while k < self.radiance.len()
            invariant
                *self == *old(self),
                k <= self.radiance.len(),
                new_radiance@.len() == k,
                forall|j: int|
                    0 <= j < k ==> (#[trigger] new_radiance@[j])@.len() == self.radiance@[j]@.len(),
                forall|j: int, i: int|
                    0 <= j < k && 0 <= i < new_radiance@[j]@.len() ==> #[trigger] new_radiance@[j]@[i]
                        == (RgbWide { r: 0, g: 0, b: 0 }),
            decreases self.radiance.len() - k,
        {
            let level_len = self.radiance[k].len();
            new_radiance.push(filled(level_len, RgbWide::zero()));
            k = k + 1;
        }
        self.albedo = filled(n, Rgb8::zero());
        self.normal = filled(n, Nrm::zero());
        self.emission = filled(n, Rgb8::zero());
        self.radiance = new_radiance;
        proof {
            assert(final(self)@.albedo =~= cleared_model(old(self)@).albedo);
            assert(final(self)@.normal =~= cleared_model(old(self)@).normal);
            assert(final(self)@.emission =~= cleared_model(old(self)@).emission);
            assert forall|j: int| 0 <= j < final(self)@.radiance.len() implies final(self)@.radiance[j]
                =~= cleared_model(old(self)@).radiance[j] by {
                assert(final(self)@.radiance[j] == new_radiance@[j]@);
            }
            assert(final(self)@.radiance =~~= cleared_model(old(self)@).radiance);
            assert(final(self)@ =~~= cleared_model(old(self)@));
        }
    }

    /// Writes one voxel of the three geometry channels, as a voxelization
    /// fragment does.
    pub fn write_geometry(&mut self, x: usize, y: usize, z: usize, a: Rgb8, n: Nrm, e: Rgb8)
        requires
            old(self).wf(),
            valid_cell(old(self)@.resolution as int, x as int, y as int, z as int),
        ensures
            final(self).wf(),
            final(self)@ == (VolModel {
                albedo: old(self)@.albedo.update(
                    cell_index(old(self)@.resolution as int, x as int, y as int, z as int),
                    a,
                ),
                normal: old(self)@.normal.update(
                    cell_index(old(self)@.resolution as int, x as int, y as int, z as int),
                    n,
                ),
                emission: old(self)@.emission.update(
                    cell_index(old(self)@.resolution as int, x as int, y as int, z as int),
                    e,
                ),
                ..old(self)@
            }),
    {
        proof {
            lemma_cell_index_inverse(self@.resolution as int, x as int, y as int, z as int);
        }
        let r = self.resolution;
        let i = cell_idx(r, x, y, z);
        self.albedo[i] = a;
        self.normal[i] = n;
        self.emission[i] = e;
    }

    /// Albedo stored at one voxel.
    pub fn albedo_at(&self, x: usize, y: usize, z: usize) -> (c: Rgb8)
        requires
            self.wf(),
            valid_cell(self@.resolution as int, x as int, y as int, z as int),
        ensures
            c == self@.albedo[cell_index(self@.resolution as int, x as int, y as int, z as int)],
    {
        proof {
            lemma_cell_index_inverse(self@.resolution as int, x as int, y as int, z as int);
        }
        let r = self.resolution;
        self.albedo[cell_idx(r, x, y, z)]
    }

    /// Normal stored at one voxel.
    pub fn normal_at(&self, x: usize, y: usize, z: usize) -> (n: Nrm)
        requires
            self.wf(),
            valid_cell(self@.resolution as int, x as int, y as int, z as int),
        ensures
            n == self@.normal[cell_index(self@.resolution as int, x as int, y as int, z as int)],
    {
        proof {
            lemma_cell_index_inverse(self@.resolution as int, x as int, y as int, z as int);
        }
        let r = self.resolution;
        self.normal[cell_idx(r, x, y, z)]
    }

    /// Emission stored at one voxel.
    pub fn emission_at(&self, x: usize, y: usize, z: usize) -> (e: Rgb8)
        requires
            self.wf(),
            valid_cell(self@.resolution as int, x as int, y as int, z as int),
        ensures
            e == self@.emission[cell_index(self@.resolution as int, x as int, y as int, z as int)],
    {
        proof {
            lemma_cell_index_inverse(self@.resolution as int, x as int, y as int, z as int);
        }
        let r = self.resolution;
        self.emission[cell_idx(r, x, y, z)]
    }

    /// Side length of one radiance mip level.
    pub fn level_resolution(&self, level: usize) -> (r: usize)
        requires
            self.wf(),
            level < self@.radiance.len(),
        ensures
            r == level_res(self@.resolution as int, level as int),
            1 <= r <= self@.resolution,
    {
        let mut rk = self.resolution;
        let mut k: usize = 0;
        while k < level
            invariant
                k <= level,
                level < mip_level_count(self.resolution as int),
                valid_resolution(self.resolution as int),
                rk == level_res(self.resolution as int, k as int),
            decreases level - k,
        {
            rk = rk / 2;
            k = k + 1;
        }
        proof {
            lemma_level_res_bounds(self.resolution as int, level as int);
        }
        rk
    }

    /// Radiance stored at one voxel of one mip level.
    pub fn radiance_at(&self, level: usize, x: usize, y: usize, z: usize) -> (c: RgbWide)
        requires
            self.wf(),
            level < self@.radiance.len(),
            valid_cell(
                level_res(self@.resolution as int, level as int),
                x as int,
                y as int,
                z as int,
            ),
        ensures
            c == self@.radiance[level as int][cell_index(
                level_res(self@.resolution as int, level as int),
                x as int,
                y as int,
                z as int,
            )],
    {
        let r = self.level_resolution(level);
        proof {
            assert(self@.radiance[level as int].len() == level_res(self@.resolution as int,
                level as int) * level_res(self@.resolution as int, level as int) * level_res(
                self@.resolution as int, level as int));
            assert(self.radiance@[level as int]@ == self@.radiance[level as int]);
        }
        self.radiance[level][cell_idx(r, x, y, z)]
    }

    /// Writes the level-0 radiance of one voxel, as the injection pass does.
    pub fn write_radiance(&mut self, x: usize, y: usize, z: usize, c: RgbWide)
        requires
            old(self).wf(),
            valid_cell(old(self)@.resolution as int, x as int, y as int, z as int),
        ensures
            final(self).wf(),
            final(self)@ == (VolModel {
                radiance: old(self)@.radiance.update(
                    0,
                    old(self)@.radiance[0].update(
                        cell_index(old(self)@.resolution as int, x as int, y as int, z as int),
                        c,
                    ),
                ),
                ..old(self)@
            }),
    {
        proof {
            lemma_cell_index_inverse(self@.resolution as int, x as int, y as int, z as int);
        }
        let r = self.resolution;
        let i = cell_idx(r, x, y, z);
        self.radiance[0][i] = c;
        proof {
            assert(final(self)@.radiance =~= old(self)@.radiance.update(
                0,
                old(self)@.radiance[0].update(
                    cell_index(old(self)@.resolution as int, x as int, y as int, z as int),
                    c,
                ),
            ));
        }
    }

    /// World-space center of one voxel cell.
    pub fn voxel_center(&self, x: usize, y: usize, z: usize) -> (p: Vec3i)
        requires
            self.wf(),
            valid_cell(self@.resolution as int, x as int, y as int, z as int),
        ensures
            p == voxel_center(self@, x as int, y as int, z as int),
            p.in_range(2 * COORD_LIMIT as int),
    {
        let r = self.resolution as i64;
        Vec3i {
            x: center_axis(self.translation.x, self.scaling.x, r, x as i64),
            y: center_axis(self.translation.y, self.scaling.y, r, y as i64),
            z: center_axis(self.translation.z, self.scaling.z, r, z as i64),
        }
    }

    /// Maps a world-space point to the grid cell containing it, or `None`
    /// when the point lies outside the volume's box.
    pub fn world_to_voxel(&self, p: Vec3i) -> (c: Option<(usize, usize, usize)>)
        requires
            self.wf(),
            p.in_range(WORLD_LIMIT as int),
        ensures
            c is Some <==> inside_bounds(self@, p),
            c matches Some(cell) ==> {
                &&& cell.0 == axis_cell(
                    p.x as int,
                    self@.translation.x as int,
                    self@.scaling.x as int,
                    self@.resolution as int,
                )
                &&& cell.1 == axis_cell(
                    p.y as int,
                    self@.translation.y as int,
                    self@.scaling.y as int,
                    self@.resolution as int,
                )
                &&& cell.2 == axis_cell(
                    p.z as int,
                    self@.translation.z as int,
                    self@.scaling.z as int,
                    self@.resolution as int,
                )
                &&& valid_cell(
                    self@.resolution as int,
                    cell.0 as int,
                    cell.1 as int,
                    cell.2 as int,
                )
            },
    {
        let r = self.resolution as i64;
        let cx = cell_on_axis(p.x, self.translation.x, self.scaling.x, r);
        let cy = cell_on_axis(p.y, self.translation.y, self.scaling.y, r);
        let cz = cell_on_axis(p.z, self.translation.z, self.scaling.z, r);
        match (cx, cy, cz) {
            (Some(x), Some(y), Some(z)) => Some((x, y, z)),
            _ => None,
        }
    }
}

/// Flat index of a cell, computed without overflow for supported sides.
fn cell_idx(r: usize, x: usize, y: usize, z: usize) -> (i: usize)
    requires
        r <= 512,
        valid_cell(r as int, x as int, y as int, z as int),
    ensures
        i == cell_index(r as int, x as int, y as int, z as int),
        i < r * r * r,
{
    proof {
        lemma_cell_index_inverse(r as int, x as int, y as int, z as int);
        assert(z * r + y < 262144 && (z * r + y) * r + x < 134217728) by (nonlinear_arith)
            requires
                x < r,
                y < r,
                z < r,
                r <= 512,
        ;
    }
    (z * r + y) * r + x
}

/// Cell lookup along one axis, in 64-bit arithmetic.
fn cell_on_axis(w: i64, t: i64, s: i64, r: i64) -> (c: Option<usize>)
    requires
        -WORLD_LIMIT <= w <= WORLD_LIMIT,
        -COORD_LIMIT <= t <= COORD_LIMIT,
        1 <= s <= COORD_LIMIT,
        1 <= r <= 512,
    ensures
        c is Some <==> inside_axis(w as int, t as int, s as int),
        c matches Some(i) ==> i == axis_cell(w as int, t as int, s as int, r as int) && i < r,
{
    let vmin = t - s / 2;
    if w < vmin || w - vmin >= s {
        return None;
    }
    let span = w - vmin;
    proof {
        crate::math::lemma_mul_bound(span as int, r as int, COORD_LIMIT as int, 512);
        lemma_axis_cell_in_grid(w as int, t as int, s as int, r as int);
    }
    Some(((span * r) / s) as usize)
}

/// Sum over one channel of the 2x2x2 block of `prev` (a level of side `pr`)
/// that reduces to cell `(x, y, z)` of the next level.
pub open spec fn mip_chan_sum(prev: Seq<RgbWide>, pr: int, x: int, y: int, z: int, ch: int) -> int {
    chan_wide(prev[cell_index(pr, 2 * x, 2 * y, 2 * z)], ch) + chan_wide(
        prev[cell_index(pr, 2 * x + 1, 2 * y, 2 * z)],
        ch,
    ) + chan_wide(prev[cell_index(pr, 2 * x, 2 * y + 1, 2 * z)], ch) + chan_wide(
        prev[cell_index(pr, 2 * x + 1, 2 * y + 1, 2 * z)],
        ch,
    ) + chan_wide(prev[cell_index(pr, 2 * x, 2 * y, 2 * z + 1)], ch) + chan_wide(
        prev[cell_index(pr, 2 * x + 1, 2 * y, 2 * z + 1)],
        ch,
    ) + chan_wide(prev[cell_index(pr, 2 * x, 2 * y + 1, 2 * z + 1)], ch) + chan_wide(
        prev[cell_index(pr, 2 * x + 1, 2 * y + 1, 2 * z + 1)],
        ch,
    )
}

/// Box-filter reduction: the average of the 2x2x2 block of `prev` that maps
/// to cell `(x, y, z)` of the next level.
pub open spec fn mip_reduce(prev: Seq<RgbWide>, pr: int, x: int, y: int, z: int) -> RgbWide {
    RgbWide {
        r: (mip_chan_sum(prev, pr, x, y, z, 0) / 8) as u32,
        g: (mip_chan_sum(prev, pr, x, y, z, 1) / 8) as u32,
        b: (mip_chan_sum(prev, pr, x, y, z, 2) / 8) as u32,
    }
}

/// Level `cur` (of side `pr / 2`) is the box-filter reduction of `prev`.
pub open spec fn mip_level_derived(cur: Seq<RgbWide>, prev: Seq<RgbWide>, pr: int) -> bool {
    forall|x: int, y: int, z: int|
        valid_cell(pr / 2, x, y, z) ==> cur[cell_index(pr / 2, x, y, z)] == mip_reduce(
            prev,
            pr,
            x,
            y,
            z,
        )
}

/// Every mip level above 0 strictly derives from the level below it.
pub open spec fn mip_consistent(m: VolModel) -> bool {
    forall|k: int|
        1 <= k < m.radiance.len() ==> mip_level_derived(
            #[trigger] m.radiance[k],
            m.radiance[k - 1],
            level_res(m.resolution as int, k - 1),
        )
}

impl Volume {
    /// Box-filter reduction of one cell from mip level `k_prev` (side `pr`).
    fn mip_cell(&self, k_prev: usize, pr: usize, x: usize, y: usize, z: usize) -> (c: RgbWide)
        requires
            self.wf(),
            k_prev < self@.radiance.len(),
            pr == level_res(self@.resolution as int, k_prev as int),
            pr % 2 == 0,
            2 <= pr,
            valid_cell(pr as int / 2, x as int, y as int, z as int),
        ensures
            c == mip_reduce(self@.radiance[k_prev as int], pr as int, x as int, y as int, z as int),
    {
        let s000 = self.radiance_at(k_prev, 2 * x, 2 * y, 2 * z);
        let s100 = self.radiance_at(k_prev, 2 * x + 1, 2 * y, 2 * z);
        let s010 = self.radiance_at(k_prev, 2 * x, 2 * y + 1, 2 * z);
        let s110 = self.radiance_at(k_prev, 2 * x + 1, 2 * y + 1, 2 * z);
        let s001 = self.radiance_at(k_prev, 2 * x, 2 * y, 2 * z + 1);
        let s101 = self.radiance_at(k_prev, 2 * x + 1, 2 * y, 2 * z + 1);
        let s011 = self.radiance_at(k_prev, 2 * x, 2 * y + 1, 2 * z + 1);
        let s111 = self.radiance_at(k_prev, 2 * x + 1, 2 * y + 1, 2 * z + 1);
        let sr: u64 = s000.r as u64 + s100.r as u64 + s010.r as u64 + s110.r as u64 + s001.r as u64
            + s101.r as u64 + s011.r as u64 + s111.r as u64;
        let sg: u64 = s000.g as u64 + s100.g as u64 + s010.g as u64 + s110.g as u64 + s001.g as u64
            + s101.g as u64 + s011.g as u64 + s111.g as u64;
        let sb: u64 = s000.b as u64 + s100.b as u64 + s010.b as u64 + s110.b as u64 + s001.b as u64
            + s101.b as u64 + s011.b as u64 + s111.b as u64;
        proof {
            lemma_avg8_fits(sr as int);
            lemma_avg8_fits(sg as int);
            lemma_avg8_fits(sb as int);
        }
        RgbWide { r: (sr / 8) as u32, g: (sg / 8) as u32, b: (sb / 8) as u32 }
    }

    /// Builds the level above `k_prev` by box-filter reduction.
    fn build_mip_level(&self, k_prev: usize) -> (data: Vec<RgbWide>)
        requires
            self.wf(),
            k_prev + 1 < self@.radiance.len(),
        ensures
            data@.len() == level_res(self@.resolution as int, k_prev as int + 1) * level_res(
                self@.resolution as int,
                k_prev as int + 1,
            ) * level_res(self@.resolution as int, k_prev as int + 1),
            mip_level_derived(
                data@,
                self@.radiance[k_prev as int],
                level_res(self@.resolution as int, k_prev as int),
            ),
    {
        let pr = self.level_resolution(k_prev);
        proof {
            lemma_level_res_bounds(self@.resolution as int, k_prev as int);
        }
        let r = pr / 2;
        let mut data: Vec<RgbWide> = Vec::new();
        let mut z: usize = 0;
        while z < r
            invariant
                self.wf(),
                k_prev + 1 < self@.radiance.len(),
                pr == level_res(self@.resolution as int, k_prev as int),
                pr % 2 == 0,
                2 <= pr <= 512,
                r == pr / 2,
                r == level_res(self@.resolution as int, k_prev as int + 1),
                z <= r,
                data@.len() == z * r * r,
                forall|i: int|
                    0 <= i < data@.len() ==> #[trigger] data@[i] == mip_reduce(
                        self@.radiance[k_prev as int],
                        pr as int,
                        ix(i, r as int),
                        iy(i, r as int),
                        iz(i, r as int),
                    ),
            decreases r - z,
        {
            proof {
                assert(z * r * r == (z * r + 0) * r) by (nonlinear_arith);
            }
            let mut y: usize = 0;
            while y < r
                invariant
                    self.wf(),
                    k_prev + 1 < self@.radiance.len(),
                    pr == level_res(self@.resolution as int, k_prev as int),
                    pr % 2 == 0,
                    2 <= pr <= 512,
                    r == pr / 2,
                    z < r,
                    y <= r,
                    data@.len() == (z * r + y) * r,
                    forall|i: int|
                        0 <= i < data@.len() ==> #[trigger] data@[i] == mip_reduce(
                            self@.radiance[k_prev as int],
                            pr as int,
                            ix(i, r as int),
                            iy(i, r as int),
                            iz(i, r as int),
                        ),
                decreases r - y,
            {
                let mut x: usize = 0;
                while x < r
                    invariant
                        self.wf(),
                        k_prev + 1 < self@.radiance.len(),
                        pr == level_res(self@.resolution as int, k_prev as int),
                        pr % 2 == 0,
                        2 <= pr <= 512,
                        r == pr / 2,
                        z < r,
                        y < r,
                        x <= r,
                        data@.len() == (z * r + y) * r + x,
                        forall|i: int|
                            0 <= i < data@.len() ==> #[trigger] data@[i] == mip_reduce(
                                self@.radiance[k_prev as int],
                                pr as int,
                                ix(i, r as int),
                                iy(i, r as int),
                                iz(i, r as int),
                            ),
                    decreases r - x,
                {
                    let c = self.mip_cell(k_prev, pr, x, y, z);
                    proof {
                        lemma_cell_index_inverse(r as int, x as int, y as int, z as int);
                        assert(data@.len() == cell_index(r as int, x as int, y as int, z as int));
                    }
                    data.push(c);
                    x = x + 1;
                }
                proof {
                    assert((z * r + y) * r + r == (z * r + (y + 1)) * r) by (nonlinear_arith);
                }
                y = y + 1;
            }
            proof {
                assert((z * r + r) * r == (z + 1) * r * r) by (nonlinear_arith);
                assert(z * r * r + 0 * r == (z * r + 0) * r) by (nonlinear_arith);
            }
            z = z + 1;
        }
        proof {
            assert(data@.len() == r * r * r);
            assert forall|x: int, y: int, z: int| valid_cell(r as int, x, y, z) implies data@[cell_index(
                r as int,
                x,
                y,
                z,
            )] == mip_reduce(
                self@.radiance[k_prev as int],
                pr as int,
                x,
                y,
                z,
            ) by {
                lemma_cell_index_inverse(r as int, x, y, z);
            }
        }
        data
    }

    /// Rebuilds the radiance mip pyramid from level 0 upward.  After the
    /// call every level above 0 is the box-filter reduction of the level
    /// below it; level 0 and every other part of the volume are untouched.
    pub fn generate_mipmap(&mut self)
        requires
            old(self).wf(),
        ensures
            final(self).wf(),
            final(self)@.radiance.len() == old(self)@.radiance.len(),
            final(self)@.radiance[0] == old(self)@.radiance[0],
            mip_consistent(final(self)@),
            final(self)@ == (VolModel { radiance: final(self)@.radiance, ..old(self)@ }),
    {
        let levels = self.radiance.len();
        let mut k: usize = 1;
        while k < levels
            invariant
                self.wf(),
                levels == self@.radiance.len(),
                1 <= k <= levels,
                self@.radiance[0] == old(self)@.radiance[0],
                self@ == (VolModel { radiance: self@.radiance, ..old(self)@ }),
                forall|j: int|
                    1 <= j < k ==> mip_level_derived(
                        #[trigger] self@.radiance[j],
                        self@.radiance[j - 1],
                        level_res(self@.resolution as int, j - 1),
                    ),
            decreases levels - k,
        {
            let data = self.build_mip_level(k - 1);
            let ghost prev = self@.radiance;
            let ghost data_view = data@;
            self.radiance[k] = data;
            proof {
                assert(self@.radiance =~= prev.update(k as int, data_view));
            }
            k = k + 1;
        }
    }
}

/// The radiance a shading sample reads at a world-space point from one mip
/// level: the value stored in the containing cell, or zero outside the
/// volume (point sampling, no filtering).
pub open spec fn sample_radiance_spec(m: VolModel, p: Vec3i, level: int) -> RgbWide {
    if inside_bounds(m, p) {
        let rl = level_res(m.resolution as int, level);
        m.radiance[level][cell_index(
            rl,
            axis_cell(p.x as int, m.translation.x as int, m.scaling.x as int, rl),
            axis_cell(p.y as int, m.translation.y as int, m.scaling.y as int, rl),
            axis_cell(p.z as int, m.translation.z as int, m.scaling.z as int, rl),
        )]
    } else {
        RgbWide { r: 0, g: 0, b: 0 }
    }
}

impl Volume {
    /// Samples the radiance field at a world-space point from one mip level.
    pub fn sample_radiance(&self, p: Vec3i, level: usize) -> (c: RgbWide)
        requires
            self.wf(),
            level < self@.radiance.len(),
            p.in_range(WORLD_LIMIT as int),
        ensures
            c == sample_radiance_spec(self@, p, level as int),
    {
        let rl = self.level_resolution(level);
        let cx = cell_on_axis(p.x, self.translation.x, self.scaling.x, rl as i64);
        let cy = cell_on_axis(p.y, self.translation.y, self.scaling.y, rl as i64);
        let cz = cell_on_axis(p.z, self.translation.z, self.scaling.z, rl as i64);
        match (cx, cy, cz) {
            (Some(x), Some(y), Some(z)) => self.radiance_at(level, x, y, z),
            _ => RgbWide::zero(),
        }
    }
}

/// An average of eight 32-bit values fits in 32 bits.
proof fn lemma_avg8_fits(sum: int)
    requires
        0 <= sum <= 8 * 0xffff_ffff,
    ensures
        0 <= sum / 8 <= 0xffff_ffff,
{
    vstd::arithmetic::div_mod::lemma_div_pos_is_pos(sum, 8);
    vstd::arithmetic::div_mod::lemma_div_is_ordered(sum, 8 * 0xffff_ffff as int, 8);
    vstd::arithmetic::div_mod::lemma_div_multiples_vanish(0xffff_ffff, 8);
}

/// Mip side lengths are the powers of two counting down from `r`, so they
/// stay in `[1, r]`, halve exactly, and reach 1 only at the last level.
pub proof fn lemma_level_res_bounds(r: int, k: int)
    requires
        valid_resolution(r),
        0 <= k < mip_level_count(r),
    ensures
        level_res(r, k) == vstd::arithmetic::power2::pow2((mip_level_count(r) - 1 - k) as nat),
        1 <= level_res(r, k) <= r,
        level_res(r, k + 1) == level_res(r, k) / 2,
        k + 1 < mip_level_count(r) ==> 2 <= level_res(r, k) && level_res(r, k) % 2 == 0,
    decreases k,
{
    let c = mip_level_count(r);
    vstd::arithmetic::power2::lemma2_to64();
    if k == 0 {
        assert(r == vstd::arithmetic::power2::pow2((c - 1) as nat));
    } else {
        lemma_level_res_bounds(r, k - 1);
        let e = (c - 1 - k) as nat;
        vstd::arithmetic::power2::lemma_pow2_unfold((e + 1) as nat);
        assert(vstd::arithmetic::power2::pow2((e + 1) as nat) == 2 * vstd::arithmetic::power2::pow2(
            e,
        ));
        assert((2 * vstd::arithmetic::power2::pow2(e)) / 2 == vstd::arithmetic::power2::pow2(e))
            by (nonlinear_arith);
        vstd::arithmetic::power2::lemma_pow2_pos(e);
    }
    let e2 = (c - 1 - k) as nat;
    vstd::arithmetic::power2::lemma_pow2_pos(e2);
    if k + 1 < c {
        vstd::arithmetic::power2::lemma_pow2_unfold(e2);
        assert(vstd::arithmetic::power2::pow2(e2) == 2 * vstd::arithmetic::power2::pow2(
            (e2 - 1) as nat,
        ));
        assert(2 * vstd::arithmetic::power2::pow2((e2 - 1) as nat) % 2 == 0) by (nonlinear_arith);
        vstd::arithmetic::power2::lemma_pow2_pos((e2 - 1) as nat);
    }
    if k + 1 == c {
        assert(level_res(r, k) == 1);
        assert(level_res(r, k + 1) == 0);
    }
}

} // verus!
