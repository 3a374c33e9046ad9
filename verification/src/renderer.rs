//! The frame orchestrator: owns the volume, the submitted primitives and the
//! lights, and runs every frame's fixed pipeline in order — clear, voxelize,
//! inject light, build the radiance mip chain, then shade, sampling the
//! radiance volume as the ambient term.  The light injector lives here too:
//! one work item per voxel, folding every light into the voxel's stored
//! geometry.

use vstd::prelude::*;

use crate::color::{chan, Nrm, Rgb8, RgbWide, NORMAL_ONE};
use crate::gpu_model::{GpuMaterial, GpuPrimitive, PrimModel};
use crate::material::Material;
use crate::math::{dist2, dist2_exec, Vec3i, COORD_LIMIT, FP_ONE};
use crate::model::Mesh;
use crate::renderer_utils::{
    emitted, emitted_chan, load_lights, valid_light, valid_lights, AtomicCounter, IndicesBuffer,
    IndirectCommand, Light, MAX_LIGHTS,
};
use crate::volume::{
    cleared_model, ix, iy, iz, lemma_cell_index_reconstruct, mip_consistent, sample_radiance_spec,
    valid_resolution, voxel_center, ConfigError, VolModel, Volume,
};
use crate::voxelizer::{
    classify_primitive, draw_indirect, lemma_compact_faithful, lemma_voxelize_scene_upto_wf,
    voxelize_primitive, voxelize_scene, voxelize_scene_upto,
};

verus! {

/// What the final pass draws: the shaded scene, or one raw voxel channel.
#[derive(Clone, Copy, PartialEq, Eq, Structural, Debug)]
pub enum RenderingMode {
    Scene,
    Albedo,
    Normal,
    Emission,
    Radiance,
}

/// Which voxelization strategy a frame uses.
#[derive(Clone, Copy, PartialEq, Eq, Structural, Debug)]
pub enum VoxelizationMode {
    FragmentOnly,
    Hybrid,
}

/// Per-frame configuration, passed explicitly into [`Renderer::render`] so
/// no hidden state influences the pipeline between frames.
#[derive(Clone, Copy, PartialEq, Eq, Structural, Debug)]
pub struct FrameConfig {
    pub rendering_mode: RenderingMode,
    pub voxelization_mode: VoxelizationMode,
    /// Conservative rasterization is available and enabled.  When it is
    /// not, both strategies degrade to point-sampled coverage.
    pub conservative: bool,
    pub show_bounds: bool,
}

/// The per-voxel gain applied to stored emission when seeding radiance.
pub const EMISSION_GAIN: u32 = 256;

/// Unnormalized Lambert-style response of a voxel's stored normal to the
/// direction toward a light, in fixed-point units.
pub open spec fn facing(n: Nrm, p: Vec3i, q: Vec3i) -> int {
    n.x * (q.x - p.x) + n.y * (q.y - p.y) + n.z * (q.z - p.z)
}

/// Distance attenuation: squared world-unit distance, offset so it is
/// always at least one.
pub open spec fn falloff(p: Vec3i, q: Vec3i) -> int {
    dist2(p, q) / ((FP_ONE as int) * (FP_ONE as int)) + 1
}

/// One light's contribution to one radiance channel of one voxel: zero for
/// a back-facing or edge-on normal, else the albedo-modulated emitted
/// colour, scaled by the facing term and divided by the attenuation.
pub open spec fn light_term(a_c: u8, l: Light, n: Nrm, p: Vec3i, ch: int) -> int {
    let f = facing(n, p, l.position);
    if f <= 0 {
        0
    } else {
        (a_c * emitted_chan(chan(l.color, ch), l.intensity) * f) / ((NORMAL_ONE as int) * (
        FP_ONE as int) * falloff(p, l.position))
    }
}

/// Contribution of a whole light list to one channel of one voxel.
pub open spec fn light_sum(a_c: u8, n: Nrm, p: Vec3i, lights: Seq<Light>, ch: int) -> int
    decreases lights.len(),
{
    if lights.len() == 0 {
        0
    } else {
        light_sum(a_c, n, p, lights.drop_last(), ch) + light_term(a_c, lights.last(), n, p, ch)
    }
}

/// Saturating conversion to a stored radiance channel.
pub open spec fn clamp_u32(v: int) -> u32 {
    if v > 0xffff_ffff {
        0xffff_ffffu32
    } else {
        v as u32
    }
}

/// The radiance channel the injector stores: the emission seed plus the sum
/// over all lights, saturated.
pub open spec fn injected_chan(a: Rgb8, e: Rgb8, n: Nrm, p: Vec3i, lights: Seq<Light>, ch: int) -> u32 {
    clamp_u32(chan(e, ch) * (EMISSION_GAIN as int) + light_sum(chan(a, ch), n, p, lights, ch))
}

/// The radiance the injector stores for one voxel.
pub open spec fn injected_voxel(a: Rgb8, e: Rgb8, n: Nrm, p: Vec3i, lights: Seq<Light>) -> RgbWide {
    RgbWide {
        r: injected_chan(a, e, n, p, lights, 0),
        g: injected_chan(a, e, n, p, lights, 1),
        b: injected_chan(a, e, n, p, lights, 2),
    }
}

/// The whole level-0 radiance grid the injection pass writes, as a function
/// of the volume's geometry channels and the light list.
pub open spec fn inject_grid(m: VolModel, lights: Seq<Light>) -> Seq<RgbWide> {
    let r = m.resolution as int;
    Seq::new(
        m.radiance[0].len(),
        |i: int|
            injected_voxel(
                m.albedo[i],
                m.emission[i],
                m.normal[i],
                voxel_center(m, ix(i, r), iy(i, r), iz(i, r)),
                lights,
            ),
    )
}

/// Every light term is non-negative and bounded: the numerator is at most
/// `255 * 65535 * 1207959552` and the denominator at least `127 * 1024`.
pub proof fn lemma_light_term_bounds(a_c: u8, l: Light, n: Nrm, p: Vec3i, ch: int)
    requires
        p.in_range(2 * COORD_LIMIT as int),
        valid_light(l),
    ensures
        0 <= light_term(a_c, l, n, p, ch) <= 155225189593,
{
    let f = facing(n, p, l.position);
    if f > 0 {
        let em = emitted_chan(chan(l.color, ch), l.intensity);
        assert(0 <= em < 65536) by {
            crate::math::lemma_mul_bound(
                chan(l.color, ch) as int,
                l.intensity as int,
                255,
                65536,
            );
            crate::math::lemma_div_pos_bounds(chan(l.color, ch) * l.intensity, 256);
            vstd::arithmetic::div_mod::lemma_div_is_ordered(
                chan(l.color, ch) * l.intensity,
                16711680int,
                256,
            );
        }
        lemma_facing_bound(n, p, l.position);
        let num = a_c * em * f;
        assert(0 <= a_c * em <= 16711425) by (nonlinear_arith)
            requires
                0 <= a_c <= 255,
                0 <= em <= 65535,
        ;
        assert(0 <= num <= 20186725456281600) by (nonlinear_arith)
            requires
                num == (a_c * em) * f,
                0 <= a_c * em <= 16711425,
                0 < f <= 1207959552,
        ;
        let fo = falloff(p, l.position);
        assert(fo >= 1) by {
            lemma_dist2_bound(p, l.position);
            crate::math::lemma_div_pos_bounds(dist2(p, l.position), 1048576);
        }
        let den = 127 * (FP_ONE as int) * fo;
        assert(den >= 130048) by (nonlinear_arith)
            requires
                fo >= 1,
                den == 130048 * fo,
        ;
        crate::math::lemma_div_pos_bounds(num, den);
        vstd::arithmetic::div_mod::lemma_div_is_ordered_by_denominator(num, 130048, den);
        vstd::arithmetic::div_mod::lemma_div_is_ordered(num, 20186725456281600, 130048);
        assert(20186725456281600int / 130048 == 155225189593);
    }
}

/// The facing term of a bounded voxel and light is bounded.
proof fn lemma_facing_bound(n: Nrm, p: Vec3i, q: Vec3i)
    requires
        p.in_range(2 * COORD_LIMIT as int),
        q.in_range(COORD_LIMIT as int),
    ensures
        -1207959552 <= facing(n, p, q) <= 1207959552,
{
    crate::math::lemma_mul_bound(n.x as int, (q.x - p.x) as int, 128, 3 * COORD_LIMIT as int);
    crate::math::lemma_mul_bound(n.y as int, (q.y - p.y) as int, 128, 3 * COORD_LIMIT as int);
    crate::math::lemma_mul_bound(n.z as int, (q.z - p.z) as int, 128, 3 * COORD_LIMIT as int);
}

/// The squared distance of bounded points is bounded.
proof fn lemma_dist2_bound(p: Vec3i, q: Vec3i)
    requires
        p.in_range(2 * COORD_LIMIT as int),
        q.in_range(COORD_LIMIT as int),
    ensures
        0 <= dist2(p, q) <= 52776558133248,
{
    let l = 3 * COORD_LIMIT as int;
    assert(l == 3145728);
    crate::math::lemma_mul_bound((q.x - p.x) as int, (q.x - p.x) as int, l, l);
    crate::math::lemma_mul_bound((q.y - p.y) as int, (q.y - p.y) as int, l, l);
    crate::math::lemma_mul_bound((q.z - p.z) as int, (q.z - p.z) as int, l, l);
    assert(l * l == 9895604649984) by (nonlinear_arith)
        requires
            l == 3145728,
    ;
    assert((q.x - p.x) * (q.x - p.x) >= 0) by (nonlinear_arith);
    assert((q.y - p.y) * (q.y - p.y) >= 0) by (nonlinear_arith);
    assert((q.z - p.z) * (q.z - p.z) >= 0) by (nonlinear_arith);
}

/// A light list's contribution to a channel is non-negative and grows at
/// most linearly in the number of lights.
pub proof fn lemma_light_sum_bounds(a_c: u8, n: Nrm, p: Vec3i, lights: Seq<Light>, ch: int)
    requires
        p.in_range(2 * COORD_LIMIT as int),
        valid_lights(lights),
    ensures
        0 <= light_sum(a_c, n, p, lights, ch) <= lights.len() * 155225189593,
    decreases lights.len(),
{
    if lights.len() > 0 {
        assert(valid_lights(lights.drop_last())) by {
            assert(forall|i: int|
                0 <= i < lights.drop_last().len() ==> lights.drop_last()[i] == lights[i]);
        }
        lemma_light_sum_bounds(a_c, n, p, lights.drop_last(), ch);
        lemma_light_term_bounds(a_c, lights.last(), n, p, ch);
        assert((lights.len() - 1) * 155225189593 + 155225189593 == lights.len() * 155225189593)
            by (nonlinear_arith);
    }
}

/// The facing term, computed in 64-bit arithmetic.
fn facing_exec(n: Nrm, p: Vec3i, q: Vec3i) -> (f: i64)
    requires
        p.in_range(2 * COORD_LIMIT as int),
        q.in_range(COORD_LIMIT as int),
    ensures
        f == facing(n, p, q),
        -1207959552 <= f <= 1207959552,
{
    proof {
        lemma_facing_bound(n, p, q);
        crate::math::lemma_mul_bound(n.x as int, (q.x - p.x) as int, 128, 3 * COORD_LIMIT as int);
        crate::math::lemma_mul_bound(n.y as int, (q.y - p.y) as int, 128, 3 * COORD_LIMIT as int);
        crate::math::lemma_mul_bound(n.z as int, (q.z - p.z) as int, 128, 3 * COORD_LIMIT as int);
    }
    (n.x as i64) * (q.x - p.x) + (n.y as i64) * (q.y - p.y) + (n.z as i64) * (q.z - p.z)
}

/// One light's contribution to the three radiance channels of one voxel.
fn light_contrib(a: Rgb8, n: Nrm, p: Vec3i, l: Light) -> (c: (u64, u64, u64))
    requires
        p.in_range(2 * COORD_LIMIT as int),
        valid_light(l),
    ensures
        c.0 == light_term(a.r, l, n, p, 0),
        c.1 == light_term(a.g, l, n, p, 1),
        c.2 == light_term(a.b, l, n, p, 2),
        c.0 <= 155225189593 && c.1 <= 155225189593 && c.2 <= 155225189593,
{
    proof {
        lemma_light_term_bounds(a.r, l, n, p, 0);
        lemma_light_term_bounds(a.g, l, n, p, 1);
        lemma_light_term_bounds(a.b, l, n, p, 2);
    }
    let f = facing_exec(n, p, l.position);
    if f <= 0 {
        return (0, 0, 0);
    }
    let d2 = dist2_exec(p, l.position);
    let fo = d2 / (FP_ONE * FP_ONE) + 1;
    proof {
        crate::math::lemma_div_pos_bounds(d2 as int, 1048576);
        vstd::arithmetic::div_mod::lemma_div_is_ordered(d2 as int, 52776558133248, 1048576);
        assert(52776558133248int / 1048576 == 50331648);
        assert(130048 * (fo as int) <= 6545530289152) by (nonlinear_arith)
            requires
                1 <= fo <= 50331649,
        ;
        assert(130048 * (fo as int) >= 130048) by (nonlinear_arith)
            requires
                1 <= fo,
        ;
    }
    let den: u64 = 130048u64 * (fo as u64);
    let er = emitted(l.color.r, l.intensity) as u64;
    let eg = emitted(l.color.g, l.intensity) as u64;
    let eb = emitted(l.color.b, l.intensity) as u64;
    proof {
        lemma_num_fits(a.r as int, er as int, f as int);
        lemma_num_fits(a.g as int, eg as int, f as int);
        lemma_num_fits(a.b as int, eb as int, f as int);
    }
    let num_r: u64 = (a.r as u64) * er * (f as u64);
    let num_g: u64 = (a.g as u64) * eg * (f as u64);
    let num_b: u64 = (a.b as u64) * eb * (f as u64);
    (num_r / den, num_g / den, num_b / den)
}

/// The light-term numerator fits in 64 bits.
proof fn lemma_num_fits(a: int, em: int, f: int)
    requires
        0 <= a <= 255,
        0 <= em < 65536,
        0 < f <= 1207959552,
    ensures
        0 <= a * em <= 16711425,
        0 <= a * em * f <= 20186725456281600,
{
    assert(0 <= a * em <= 16711425) by (nonlinear_arith)
        requires
            0 <= a <= 255,
            0 <= em <= 65535,
    ;
    assert(0 <= a * em * f <= 20186725456281600) by (nonlinear_arith)
        requires
            0 <= a * em <= 16711425,
            0 < f <= 1207959552,
    ;
}

/// The radiance the injector computes for one voxel: the emission seed plus
/// every light's contribution, saturated per channel.
fn inject_voxel_value(a: Rgb8, e: Rgb8, n: Nrm, p: Vec3i, lights: &Vec<Light>) -> (c: RgbWide)
    requires
        p.in_range(2 * COORD_LIMIT as int),
        valid_lights(lights@),
        lights@.len() <= MAX_LIGHTS,
    ensures
        c == injected_voxel(a, e, n, p, lights@),
{
    let mut sr: u64 = (e.r as u64) * (EMISSION_GAIN as u64);
    let mut sg: u64 = (e.g as u64) * (EMISSION_GAIN as u64);
    let mut sb: u64 = (e.b as u64) * (EMISSION_GAIN as u64);
    let mut i: usize = 0;
    while i < lights.len()
        invariant
            p.in_range(2 * COORD_LIMIT as int),
            valid_lights(lights@),
            lights@.len() <= MAX_LIGHTS,
            i <= lights@.len(),
            sr == (e.r as int) * (EMISSION_GAIN as int) + light_sum(a.r, n, p, lights@.take(i as int), 0),
            sg == (e.g as int) * (EMISSION_GAIN as int) + light_sum(a.g, n, p, lights@.take(i as int), 1),
            sb == (e.b as int) * (EMISSION_GAIN as int) + light_sum(a.b, n, p, lights@.take(i as int), 2),
            sr <= 65280 + i * 155225189593,
            sg <= 65280 + i * 155225189593,
            sb <= 65280 + i * 155225189593,
        decreases lights@.len() - i,
    {
        let l = lights[i];
        let c3 = light_contrib(a, n, p, l);
        proof {
            assert(valid_lights(lights@.take(i as int + 1))) by {
                assert(forall|j: int|
                    0 <= j < i as int + 1 ==> lights@.take(i as int + 1)[j] == lights@[j]);
            }
            assert(lights@.take(i as int + 1).drop_last() =~= lights@.take(i as int));
            assert(lights@.take(i as int + 1).last() == lights@[i as int]);
            assert((i as int) * 155225189593 + 155225189593 == (i as int + 1) * 155225189593)
                by (nonlinear_arith);
            assert((i as int + 1) * 155225189593 <= 256 * 155225189593) by (nonlinear_arith)
                requires
                    i as int + 1 <= 256,
            ;
        }
        sr = sr + c3.0;
        sg = sg + c3.1;
        sb = sb + c3.2;
        i = i + 1;
    }
    proof {
        assert(lights@.take(lights@.len() as int) =~= lights@);
    }
    let rr: u32 = if sr > 0xffff_ffff {
        0xffff_ffffu32
    } else {
        sr as u32
    };
    let rg: u32 = if sg > 0xffff_ffff {
        0xffff_ffffu32
    } else {
        sg as u32
    };
    let rb: u32 = if sb > 0xffff_ffff {
        0xffff_ffffu32
    } else {
        sb as u32
    };
    RgbWide { r: rr, g: rg, b: rb }
}

/// The per-frame passes' output toward the application: the ambient
/// radiance term sampled for each primitive during scene shading, and the
/// debug voxel view when one was requested.
pub struct FrameOutput {
    pub scene_ambient: Vec<RgbWide>,
    pub voxel_view: Option<VoxelView>,
    pub bounds_view: Option<BoundsView>,
}

/// One debug draw of the volume's two bounding boxes: the voxelization box
/// and the display box.
#[derive(Clone, Copy, PartialEq, Eq, Structural, Debug)]
pub struct BoundsView {
    pub translation: Vec3i,
    pub scaling: Vec3i,
    pub view_translation: Vec3i,
    pub view_scaling: Vec3i,
}

/// One debug draw of the raw grid: one point per voxel cell, placed by the
/// volume's display placement.
#[derive(Clone, Copy, PartialEq, Eq, Structural, Debug)]
pub struct VoxelView {
    /// Which channel the view binds and displays.
    pub channel: RenderingMode,
    pub view_translation: Vec3i,
    pub view_scaling: Vec3i,
    pub resolution: usize,
    pub points: usize,
}

/// A material's texture slots resolved to the colours the passes consume.
pub open spec fn resolved_material(m: Material) -> GpuMaterial {
    GpuMaterial {
        albedo: m.albedo.spec_color(),
        metaghness: m.metaghness.spec_color(),
        normal: m.normal.spec_color(),
        occlusion: m.occlusion.spec_color(),
        emissive: m.spec_emissive(),
    }
}

/// The frame orchestrator.
pub struct Renderer {
    viewport_size: (usize, usize),
    primitives: Vec<GpuPrimitive>,
    lights: Vec<Light>,
    volume_scene: Volume,
    triangle_counter: AtomicCounter,
    indirect_command: IndirectCommand,
    indices_buffer: IndicesBuffer,
}

impl Renderer {
    /// The submitted primitives, as their models.
    pub closed spec fn spec_primitives(&self) -> Seq<PrimModel> {
        self.primitives@.map_values(|p: GpuPrimitive| p@)
    }

    /// The current light list.
    pub closed spec fn spec_lights(&self) -> Seq<Light> {
        self.lights@
    }

    /// The model of the owned volume.
    pub closed spec fn spec_volume(&self) -> VolModel {
        self.volume_scene@
    }

    /// The current viewport size.
    pub closed spec fn spec_viewport(&self) -> (usize, usize) {
        self.viewport_size
    }

    /// Everything the per-frame passes rely on: a well-formed volume, valid
    /// primitives, and a bounded list of valid lights.
    pub open spec fn wf(&self) -> bool {
        &&& self.spec_volume().wf()
        &&& forall|i: int|
            0 <= i < self.spec_primitives().len() ==> (#[trigger] self.spec_primitives()[i]).wf()
        &&& valid_lights(self.spec_lights())
        &&& self.spec_lights().len() <= MAX_LIGHTS
    }

    /// Builds a renderer for one grid resolution: an empty scene, the
    /// default light rig, and a freshly cleared volume.  Unsupported
    /// resolutions are rejected before any per-frame work.
    pub fn new(viewport_size: (usize, usize), resolution: usize) -> (result: Result<
        Renderer,
        ConfigError,
    >)
        ensures
            result is Ok <==> valid_resolution(resolution as int),
            result matches Ok(r) ==> {
                &&& r.wf()
                &&& r.spec_primitives().len() == 0
                &&& r.spec_lights().len() == 3
                &&& r.spec_volume().resolution == resolution
                &&& r.spec_volume() == cleared_model(r.spec_volume())
                &&& r.spec_viewport() == viewport_size
            },
            result matches Err(e) ==> e == ConfigError::UnsupportedResolution,
    {
        let volume_scene = match Volume::new(resolution) {
            Ok(v) => v,
            Err(e) => {
                return Err(e);
            },
        };
        let r = Renderer {
            viewport_size,
            primitives: Vec::new(),
            lights: load_lights(),
            volume_scene,
            triangle_counter: AtomicCounter::new(),
            indirect_command: IndirectCommand::new(),
            indices_buffer: IndicesBuffer::new(),
        };
        proof {
            assert(r.spec_primitives() =~= Seq::<PrimModel>::empty());
        }
        Ok(r)
    }

    /// A window resize only moves the final viewport rectangle; it never
    /// touches the voxelization resolution.
    pub fn set_viewport_size(&mut self, size: (usize, usize))
        ensures
            final(self).spec_viewport() == size,
            final(self).spec_primitives() == old(self).spec_primitives(),
            final(self).spec_lights() == old(self).spec_lights(),
            final(self).spec_volume() == old(self).spec_volume(),
            old(self).wf() ==> final(self).wf(),
    {
        self.viewport_size = size;
        proof {
            assert(self.spec_primitives() =~= old(self).spec_primitives());
        }
    }

    /// Submits every primitive of a mesh under the mesh's instance
    /// transform, with its material resolved.
    pub fn submit_mesh(&mut self, mesh: &Mesh)
        requires
            old(self).wf(),
            mesh.wf(),
        ensures
            final(self).wf(),
            final(self).spec_primitives().len() == old(self).spec_primitives().len()
                + mesh.spec_primitives().len(),
            forall|j: int|
                0 <= j < old(self).spec_primitives().len() ==> final(self).spec_primitives()[j]
                    == old(self).spec_primitives()[j],
            forall|k: int|
                0 <= k < mesh.spec_primitives().len() ==> {
                    let p = #[trigger] final(self).spec_primitives()[old(
                        self,
                    ).spec_primitives().len() + k];
                    &&& p.positions == mesh.spec_primitives()[k].positions@
                    &&& p.normals == mesh.spec_primitives()[k].normals@
                    &&& p.indices == mesh.spec_primitives()[k].indices@
                    &&& p.material == resolved_material(mesh.spec_primitives()[k].material)
                    &&& p.translation == mesh.position
                    &&& p.scale == mesh.scale
                },
            final(self).spec_lights() == old(self).spec_lights(),
            final(self).spec_volume() == old(self).spec_volume(),
    {
        let prims = mesh.primitives();
        let ghost base = self.primitives@;
        let mut i: usize = 0;
        while i < prims.len()
            invariant
                old(self).wf(),
                mesh.wf(),
                prims@ == mesh.spec_primitives(),
                base == old(self).primitives@,
                i <= prims@.len(),
                self.primitives@.len() == base.len() + i,
                forall|j: int| 0 <= j < base.len() ==> self.primitives@[j] == base[j],
                forall|k: int|
                    0 <= k < i ==> {
                        let p = (#[trigger] self.primitives@[base.len() + k])@;
                        &&& p.wf()
                        &&& p.positions == mesh.spec_primitives()[k].positions@
                        &&& p.normals == mesh.spec_primitives()[k].normals@
                        &&& p.indices == mesh.spec_primitives()[k].indices@
                        &&& p.material == resolved_material(mesh.spec_primitives()[k].material)
                        &&& p.translation == mesh.position
                        &&& p.scale == mesh.scale
                    },
                self.spec_lights() == old(self).spec_lights(),
                self.spec_volume() == old(self).spec_volume(),
                self.spec_viewport() == old(self).spec_viewport(),
            decreases prims@.len() - i,
        {
            let primitive = &prims[i];
            proof {
                assert(mesh.spec_primitives()[i as int].wf());
            }
            let material = GpuMaterial::new(&primitive.material);
            let gpu_primitive = GpuPrimitive::new(primitive, material, mesh.position, mesh.scale);
            self.primitives.push(gpu_primitive);
            i = i + 1;
        }
        proof {
            assert(old(self).spec_primitives().len() == base.len());
            assert forall|j: int| 0 <= j < base.len() implies self.spec_primitives()[j] == old(
                self,
            ).spec_primitives()[j] by {
                assert(self.spec_primitives()[j] == self.primitives@[j]@);
                assert(old(self).spec_primitives()[j] == base[j]@);
            }
            assert forall|k: int| 0 <= k < mesh.spec_primitives().len() implies {
                let p = #[trigger] self.spec_primitives()[base.len() + k];
                &&& p.positions == mesh.spec_primitives()[k].positions@
                &&& p.normals == mesh.spec_primitives()[k].normals@
                &&& p.indices == mesh.spec_primitives()[k].indices@
                &&& p.material == resolved_material(mesh.spec_primitives()[k].material)
                &&& p.translation == mesh.position
                &&& p.scale == mesh.scale
            } by {
                assert(self.spec_primitives()[base.len() + k] == self.primitives@[base.len() + k]@);
            }
            assert forall|j: int| 0 <= j < self.spec_primitives().len() implies (
            #[trigger] self.spec_primitives()[j]).wf() by {
                assert(self.spec_primitives()[j] == self.primitives@[j]@);
                if j < base.len() {
                    assert(old(self).spec_primitives()[j] == base[j]@);
                    assert(old(self).spec_primitives()[j].wf());
                } else {
                    assert(self.primitives@[base.len() + (j - base.len())]@.wf());
                }
            }
        }
    }

    /// One light of the rig.
    pub fn light(&self, index: usize) -> (l: Light)
        requires
            index < self.spec_lights().len(),
        ensures
            l == self.spec_lights()[index as int],
    {
        self.lights[index]
    }

    /// Number of lights.
    pub fn light_count(&self) -> (n: usize)
        ensures
            n == self.spec_lights().len(),
    {
        self.lights.len()
    }

    /// Replaces one light; out-of-range positions or intensities are
    /// rejected so the injection pass stays within its arithmetic bounds.
    pub fn set_light(&mut self, index: usize, light: Light) -> (result: Result<(), ConfigError>)
        requires
            old(self).wf(),
            index < old(self).spec_lights().len(),
        ensures
            final(self).wf(),
            result is Ok <==> valid_light(light),
            result is Ok ==> final(self).spec_lights() == old(self).spec_lights().update(
                index as int,
                light,
            ),
            result is Err ==> *final(self) == *old(self) && result == Err::<(), ConfigError>(
                ConfigError::InvalidPlacement,
            ),
            final(self).spec_primitives() == old(self).spec_primitives(),
            final(self).spec_volume() == old(self).spec_volume(),
    {
        if -COORD_LIMIT <= light.position.x && light.position.x <= COORD_LIMIT && -COORD_LIMIT
            <= light.position.y && light.position.y <= COORD_LIMIT && -COORD_LIMIT
            <= light.position.z && light.position.z <= COORD_LIMIT && light.intensity <= 65536 {
            self.lights[index] = light;
            proof {
                assert forall|j: int| 0 <= j < self.spec_lights().len() implies valid_light(
                    #[trigger] self.spec_lights()[j],
                ) by {
                    if j != index {
                        assert(self.spec_lights()[j] == old(self).spec_lights()[j]);
                    }
                }
                assert(self.spec_primitives() =~= old(self).spec_primitives());
            }
            Ok(())
        } else {
            Err(ConfigError::InvalidPlacement)
        }
    }

    /// Replaces the whole light rig; an invalid or oversized list is
    /// rejected unchanged.
    pub fn set_lights(&mut self, lights: Vec<Light>) -> (result: Result<(), ConfigError>)
        requires
            old(self).wf(),
        ensures
            final(self).wf(),
            result is Ok <==> valid_lights(lights@) && lights@.len() <= MAX_LIGHTS,
            result is Ok ==> final(self).spec_lights() == lights@,
            result is Err ==> final(self).spec_lights() == old(self).spec_lights() && result
                == Err::<(), ConfigError>(ConfigError::InvalidPlacement),
            final(self).spec_primitives() == old(self).spec_primitives(),
            final(self).spec_volume() == old(self).spec_volume(),
            final(self).spec_viewport() == old(self).spec_viewport(),
    {
        if lights.len() > 256 {
            proof {
                assert(self.spec_primitives() =~= old(self).spec_primitives());
            }
            return Err(ConfigError::InvalidPlacement);
        }
        let mut i: usize = 0;
        while i < lights.len()
            invariant
                old(self).wf(),
                i <= lights@.len(),
                forall|j: int| 0 <= j < i ==> valid_light(#[trigger] lights@[j]),
                *self == *old(self),
            decreases lights@.len() - i,
        {
            let l = lights[i];
            if !(-COORD_LIMIT <= l.position.x && l.position.x <= COORD_LIMIT && -COORD_LIMIT
                <= l.position.y && l.position.y <= COORD_LIMIT && -COORD_LIMIT <= l.position.z
                && l.position.z <= COORD_LIMIT && l.intensity <= 65536) {
                proof {
                    assert(self.spec_primitives() =~= old(self).spec_primitives());
                }
                return Err(ConfigError::InvalidPlacement);
            }
            i = i + 1;
        }
        self.lights = lights;
        proof {
            assert(self.spec_primitives() =~= old(self).spec_primitives());
        }
        Ok(())
    }

    /// Moves one submitted primitive's instance translation, as interactive
    /// tuning does; out-of-range translations are rejected.
    pub fn set_primitive_translation(&mut self, index: usize, t: Vec3i) -> (ok: bool)
        requires
            old(self).wf(),
            index < old(self).spec_primitives().len(),
        ensures
            final(self).wf(),
            ok <==> t.in_range(COORD_LIMIT as int),
            ok ==> final(self).spec_primitives() == old(self).spec_primitives().update(
                index as int,
                (PrimModel { translation: t, ..old(self).spec_primitives()[index as int] }),
            ),
            !ok ==> final(self).spec_primitives() == old(self).spec_primitives(),
            final(self).spec_lights() == old(self).spec_lights(),
            final(self).spec_volume() == old(self).spec_volume(),
            final(self).spec_viewport() == old(self).spec_viewport(),
    {
        proof {
            assert(old(self).spec_primitives()[index as int].wf());
            assert(self.primitives@[index as int]@ == old(self).spec_primitives()[index as int]);
        }
        let ok = self.primitives[index].set_translation(t);
        proof {
            if ok {
                assert(self.spec_primitives() =~= old(self).spec_primitives().update(
                    index as int,
                    (PrimModel { translation: t, ..old(self).spec_primitives()[index as int] }),
                ));
                assert forall|j: int| 0 <= j < self.spec_primitives().len() implies (
                #[trigger] self.spec_primitives()[j]).wf() by {
                    if j != index {
                        assert(self.spec_primitives()[j] == old(self).spec_primitives()[j]);
                        assert(old(self).spec_primitives()[j].wf());
                    }
                }
            } else {
                assert(self.spec_primitives() =~= old(self).spec_primitives());
            }
        }
        ok
    }

    /// Read access to the volume, for placement inspection and sampling.
    pub fn volume(&self) -> (v: &Volume)
        ensures
            v@ == self.spec_volume(),
    {
        &self.volume_scene
    }

    /// Mutable access to the volume for interactive placement tuning; its
    /// own setters keep it well formed.
    pub fn volume_mut(&mut self) -> (v: &mut Volume)
        ensures
            v@ == old(self).spec_volume(),
            final(self).spec_volume() == final(v)@,
            final(self).spec_primitives() == old(self).spec_primitives(),
            final(self).spec_lights() == old(self).spec_lights(),
            final(self).spec_viewport() == old(self).spec_viewport(),
    {
        &mut self.volume_scene
    }

    /// Number of submitted primitives.
    pub fn primitive_count(&self) -> (n: usize)
        ensures
            n == self.spec_primitives().len(),
    {
        self.primitives.len()
    }

    /// Clears every channel of the volume; runs first in every frame so the
    /// grid keeps no memory of the previous frame's scene.
    pub fn clear_volume(&mut self)
        requires
            old(self).wf(),
        ensures
            final(self).wf(),
            final(self).spec_volume() == cleared_model(old(self).spec_volume()),
            final(self).spec_primitives() == old(self).spec_primitives(),
            final(self).spec_lights() == old(self).spec_lights(),
            final(self).spec_viewport() == old(self).spec_viewport(),
    {
        self.volume_scene.clear();
        proof {
            assert(self.spec_primitives() =~= old(self).spec_primitives());
        }
    }

    /// Fragment-direct voxelization: every primitive is rasterized once and
    /// each fragment scatter-writes its voxel unconditionally.
    pub fn voxelize_fragment(&mut self, conservative: bool)
        requires
            old(self).wf(),
        ensures
            final(self).wf(),
            final(self).spec_volume() == voxelize_scene(
                old(self).spec_volume(),
                old(self).spec_primitives(),
                conservative,
            ),
            final(self).spec_primitives() == old(self).spec_primitives(),
            final(self).spec_lights() == old(self).spec_lights(),
            final(self).spec_viewport() == old(self).spec_viewport(),
    {
        let ghost m0 = self.spec_volume();
        let ghost prims = self.spec_primitives();
        let count = self.primitives.len();
        let mut i: usize = 0;
        while i < count
            invariant
                old(self).wf(),
                m0 == old(self).spec_volume(),
                prims == old(self).spec_primitives(),
                count == prims.len(),
                i <= count,
                self.primitives@ == old(self).primitives@,
                self.spec_lights() == old(self).spec_lights(),
                self.spec_viewport() == old(self).spec_viewport(),
                self.spec_volume().wf(),
                self.spec_volume() == voxelize_scene_upto(m0, prims, i as int, conservative),
            decreases count - i,
        {
            proof {
                assert(old(self).spec_primitives()[i as int].wf());
                assert(self.primitives@[i as int]@ == old(self).spec_primitives()[i as int]);
            }
            voxelize_primitive(&mut self.volume_scene, &self.primitives[i], conservative);
            i = i + 1;
        }
        proof {
            assert(self.spec_primitives() =~= old(self).spec_primitives());
        }
    }

    /// Hybrid voxelization: per primitive, the classify pass compacts the
    /// surviving triangles through the shared counter and index buffer,
    /// then one indirect draw consumes exactly that subset.  The scratch
    /// state is reset before and consumed after each primitive, so the two
    /// passes of one primitive never overlap another's.
    pub fn voxelize_hybrid(&mut self, conservative: bool)
        requires
            old(self).wf(),
        ensures
            final(self).wf(),
            final(self).spec_volume() == voxelize_scene(
                old(self).spec_volume(),
                old(self).spec_primitives(),
                conservative,
            ),
            final(self).spec_primitives() == old(self).spec_primitives(),
            final(self).spec_lights() == old(self).spec_lights(),
            final(self).spec_viewport() == old(self).spec_viewport(),
    {
        let ghost m0 = self.spec_volume();
        let ghost prims = self.spec_primitives();
        let count = self.primitives.len();
        let mut i: usize = 0;
        while i < count
            invariant
                old(self).wf(),
                m0 == old(self).spec_volume(),
                prims == old(self).spec_primitives(),
                count == prims.len(),
                i <= count,
                self.primitives@ == old(self).primitives@,
                self.spec_lights() == old(self).spec_lights(),
                self.spec_viewport() == old(self).spec_viewport(),
                self.spec_volume().wf(),
                self.spec_volume() == voxelize_scene_upto(m0, prims, i as int, conservative),
            decreases count - i,
        {
            let ghost prev = self.spec_volume();
            proof {
                assert(old(self).spec_primitives()[i as int].wf());
                assert(self.primitives@[i as int]@ == old(self).spec_primitives()[i as int]);
                lemma_compact_faithful(prev, prims[i as int], conservative, prims[i as int].tri_count());
            }
            classify_primitive(
                &self.volume_scene,
                &self.primitives[i],
                conservative,
                &mut self.triangle_counter,
                &mut self.indices_buffer,
                &mut self.indirect_command,
            );
            draw_indirect(
                &mut self.volume_scene,
                &self.primitives[i],
                &self.indices_buffer,
                &self.indirect_command,
                conservative,
            );
            i = i + 1;
        }
        proof {
            assert(self.spec_primitives() =~= old(self).spec_primitives());
        }
    }

    /// Voxelizes the scene under the configured strategy.  Both strategies
    /// populate the same cells: the compaction of the hybrid path drops
    /// only triangles that would write nothing.
    pub fn voxelize(&mut self, config: &FrameConfig)
        requires
            old(self).wf(),
        ensures
            final(self).wf(),
            final(self).spec_volume() == voxelize_scene(
                old(self).spec_volume(),
                old(self).spec_primitives(),
                config.conservative,
            ),
            final(self).spec_primitives() == old(self).spec_primitives(),
            final(self).spec_lights() == old(self).spec_lights(),
            final(self).spec_viewport() == old(self).spec_viewport(),
    {
        match config.voxelization_mode {
            VoxelizationMode::FragmentOnly => self.voxelize_fragment(config.conservative),
            VoxelizationMode::Hybrid => self.voxelize_hybrid(config.conservative),
        }
    }

    /// The injection pass: one work item per voxel over the full `R^3`
    /// domain (dispatched in 8x8x8 blocks on a GPU; every supported `R` is
    /// a multiple of the block side), writing each voxel's radiance seed
    /// from its stored geometry and the whole light list.  Runs strictly
    /// between voxelization and any read of the radiance field.
    pub fn inject_light(&mut self)
        requires
            old(self).wf(),
        ensures
            final(self).wf(),
            final(self).spec_volume() == (VolModel {
                radiance: old(self).spec_volume().radiance.update(
                    0,
                    inject_grid(old(self).spec_volume(), old(self).spec_lights()),
                ),
                ..old(self).spec_volume()
            }),
            final(self).spec_primitives() == old(self).spec_primitives(),
            final(self).spec_lights() == old(self).spec_lights(),
            final(self).spec_viewport() == old(self).spec_viewport(),
    {
        let ghost m0 = self.spec_volume();
        let ghost lights0 = self.spec_lights();
        let r = self.volume_scene.resolution();
        let cells = self.volume_scene.count_cells();
        let ghost ri = m0.resolution as int;
        let mut i: usize = 0;
        while i < cells
            invariant
                old(self).wf(),
                m0 == old(self).spec_volume(),
                lights0 == old(self).spec_lights(),
                m0.wf(),
                r == m0.resolution,
                cells == m0.cells(),
                ri == m0.resolution,
                i <= cells,
                self.primitives@ == old(self).primitives@,
                self.spec_lights() == old(self).spec_lights(),
                self.spec_viewport() == old(self).spec_viewport(),
                self.spec_volume().wf(),
                self.spec_volume() == (VolModel {
                    radiance: self.spec_volume().radiance,
                    ..m0
                }),
                self.spec_volume().radiance.len() == m0.radiance.len(),
                self.spec_volume().radiance[0].len() == m0.radiance[0].len(),
                forall|j: int|
                    1 <= j < m0.radiance.len() ==> self.spec_volume().radiance[j] == m0.radiance[j],
                forall|j: int|
                    0 <= j < m0.radiance[0].len() ==> #[trigger] self.spec_volume().radiance[0][j]
                        == (if j < i {
                        inject_grid(m0, lights0)[j]
                    } else {
                        m0.radiance[0][j]
                    }),
            decreases cells - i,
        {
            proof {
                lemma_cell_index_reconstruct(ri, i as int);
            }
            let x = i % r;
            let y = (i / r) % r;
            let z = i / (r * r);
            let a = self.volume_scene.albedo_at(x, y, z);
            let e = self.volume_scene.emission_at(x, y, z);
            let n = self.volume_scene.normal_at(x, y, z);
            let p = self.volume_scene.voxel_center(x, y, z);
            proof {
                assert(voxel_center(self.spec_volume(), x as int, y as int, z as int)
                    == voxel_center(m0, x as int, y as int, z as int));
            }
            let c = inject_voxel_value(a, e, n, p, &self.lights);
            self.volume_scene.write_radiance(x, y, z, c);
            i = i + 1;
        }
        proof {
            assert(self.spec_primitives() =~= old(self).spec_primitives());
            assert(self.spec_volume().radiance[0] =~= inject_grid(m0, lights0));
            assert(self.spec_volume().radiance =~~= m0.radiance.update(
                0,
                inject_grid(m0, lights0),
            ));
            assert(self.spec_volume() =~~= (VolModel {
                radiance: m0.radiance.update(0, inject_grid(m0, lights0)),
                ..m0
            }));
        }
    }

    /// The debug bounds draw: the volume's voxelization box and display
    /// box, as wireframes around their placements.
    pub fn render_bounds(&self) -> (bounds: BoundsView)
        ensures
            bounds.translation == self.spec_volume().translation,
            bounds.scaling == self.spec_volume().scaling,
            bounds.view_translation == self.spec_volume().view_translation,
            bounds.view_scaling == self.spec_volume().view_scaling,
    {
        BoundsView {
            translation: self.volume_scene.translation(),
            scaling: self.volume_scene.scaling(),
            view_translation: self.volume_scene.view_translation(),
            view_scaling: self.volume_scene.view_scaling(),
        }
    }

    /// The debug voxel view: one point per cell, drawn under the volume's
    /// display placement.  A visualization aid, not part of the lighting
    /// result.
    pub fn render_voxels(&self, config: &FrameConfig) -> (view: VoxelView)
        requires
            self.wf(),
        ensures
            view.channel == config.rendering_mode,
            view.view_translation == self.spec_volume().view_translation,
            view.view_scaling == self.spec_volume().view_scaling,
            view.resolution == self.spec_volume().resolution,
            view.points == self.spec_volume().cells(),
    {
        let points = self.volume_scene.draw();
        VoxelView {
            channel: config.rendering_mode,
            view_translation: self.volume_scene.view_translation(),
            view_scaling: self.volume_scene.view_scaling(),
            resolution: self.volume_scene.resolution(),
            points,
        }
    }

    /// The forward pass over all primitives: each one samples the radiance
    /// volume at its instance position as its ambient/indirect term.
    pub fn render_scene(&self) -> (ambient: Vec<RgbWide>)
        requires
            self.wf(),
        ensures
            ambient@.len() == self.spec_primitives().len(),
            forall|j: int|
                0 <= j < ambient@.len() ==> ambient@[j] == sample_radiance_spec(
                    self.spec_volume(),
                    self.spec_primitives()[j].translation,
                    0,
                ),
    {
        let mut ambient: Vec<RgbWide> = Vec::new();
        let count = self.primitives.len();
        let mut i: usize = 0;
        while i < count
            invariant
                self.wf(),
                count == self.spec_primitives().len(),
                i <= count,
                ambient@.len() == i,
                forall|j: int|
                    0 <= j < i ==> ambient@[j] == sample_radiance_spec(
                        self.spec_volume(),
                        self.spec_primitives()[j].translation,
                        0,
                    ),
            decreases count - i,
        {
            proof {
                assert(self.spec_primitives()[i as int].wf());
                assert(self.primitives@[i as int]@ == self.spec_primitives()[i as int]);
            }
            let p = self.primitives[i].translation();
            let s = self.volume_scene.sample_radiance(p, 0);
            ambient.push(s);
            i = i + 1;
        }
        ambient
    }

    /// Renders one frame: the fixed pipeline, strictly in order with no way
    /// back — clear, voxelize, inject light, build the radiance mip chain,
    /// optionally draw the raw voxels, then shade the scene sampling the
    /// radiance field.  Every channel is recomputed from this frame's scene
    /// alone: nothing read during shading can reflect another frame's
    /// primitive set.
    pub fn render(&mut self, config: &FrameConfig) -> (output: FrameOutput)
        requires
            old(self).wf(),
        ensures
            final(self).wf(),
            ({
                let geometry = voxelize_scene(
                    cleared_model(old(self).spec_volume()),
                    old(self).spec_primitives(),
                    config.conservative,
                );
                &&& final(self).spec_volume().albedo == geometry.albedo
                &&& final(self).spec_volume().normal == geometry.normal
                &&& final(self).spec_volume().emission == geometry.emission
                &&& final(self).spec_volume().radiance[0] == inject_grid(
                    geometry,
                    old(self).spec_lights(),
                )
            }),
            mip_consistent(final(self).spec_volume()),
            final(self).spec_volume() == (VolModel {
                albedo: final(self).spec_volume().albedo,
                normal: final(self).spec_volume().normal,
                emission: final(self).spec_volume().emission,
                radiance: final(self).spec_volume().radiance,
                ..old(self).spec_volume()
            }),
            final(self).spec_volume().radiance.len() == old(self).spec_volume().radiance.len(),
            final(self).spec_primitives() == old(self).spec_primitives(),
            final(self).spec_lights() == old(self).spec_lights(),
            final(self).spec_viewport() == old(self).spec_viewport(),
            output.scene_ambient@.len() == old(self).spec_primitives().len(),
            forall|j: int|
                0 <= j < output.scene_ambient@.len() ==> output.scene_ambient@[j]
                    == sample_radiance_spec(
                    final(self).spec_volume(),
                    old(self).spec_primitives()[j].translation,
                    0,
                ),
            output.voxel_view is Some <==> config.rendering_mode != RenderingMode::Scene,
            output.voxel_view matches Some(v) ==> v.channel == config.rendering_mode && v.points
                == final(self).spec_volume().cells(),
            output.bounds_view is Some <==> config.show_bounds,
            output.bounds_view matches Some(b) ==> b.translation == old(
                self,
            ).spec_volume().translation && b.scaling == old(self).spec_volume().scaling,
    {
        self.clear_volume();
        self.voxelize(config);
        self.inject_light();
        let v = self.volume_mut();
        v.generate_mipmap();
        let voxel_view = if !matches!(config.rendering_mode, RenderingMode::Scene) {
            Some(self.render_voxels(config))
        } else {
            None
        };
        let scene_ambient = self.render_scene();
        let bounds_view = if config.show_bounds {
            Some(self.render_bounds())
        } else {
            None
        };
        proof {
            let m0 = old(self).spec_volume();
            let prims = old(self).spec_primitives();
            let v1 = cleared_model(m0);
            assert(v1.wf());
            lemma_voxelize_scene_upto_wf(v1, prims, prims.len() as int, config.conservative);
        }
        FrameOutput { scene_ambient, voxel_view, bounds_view }
    }
}

} // verus!
